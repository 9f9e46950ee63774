//! Percent-escaping of strings, following the `application/x-www-form-urlencoded`
//! convention: ASCII alphanumerics and `*`, `-`, `.`, `_` pass through unchanged,
//! every other byte of the UTF-8 encoding is written as `%XX` with uppercase
//! hexadecimal digits. The form variant writes a space as `+`; the query variant
//! escapes it as `%20`, which the wire contract requires in query strings.
use vstd::prelude::*;

verus! {

use vstd::string::StringExecFns;

/// Bytes that both escapers copy through unchanged.
pub open spec fn is_unescaped_byte(b: u8) -> bool {
    b == 42 || b == 45 || b == 46 || b == 95 || (48 <= b && b <= 57) || (65 <= b && b <= 90) || (
    97 <= b && b <= 122)
}

/// Uppercase hexadecimal digit for a value below 16.
pub open spec fn hex_digit(h: u8) -> char {
    if h == 0 {
        '0'
    } else if h == 1 {
        '1'
    } else if h == 2 {
        '2'
    } else if h == 3 {
        '3'
    } else if h == 4 {
        '4'
    } else if h == 5 {
        '5'
    } else if h == 6 {
        '6'
    } else if h == 7 {
        '7'
    } else if h == 8 {
        '8'
    } else if h == 9 {
        '9'
    } else if h == 10 {
        'A'
    } else if h == 11 {
        'B'
    } else if h == 12 {
        'C'
    } else if h == 13 {
        'D'
    } else if h == 14 {
        'E'
    } else {
        'F'
    }
}

/// How the query escaper writes one byte.
pub open spec fn query_escape_byte(b: u8) -> Seq<char> {
    if is_unescaped_byte(b) {
        seq![b as char]
    } else {
        seq!['%', hex_digit(b / 16), hex_digit(b % 16)]
    }
}

/// How the form escaper writes one byte: as the query escaper, but space is `+`.
pub open spec fn form_escape_byte(b: u8) -> Seq<char> {
    if b == 32 {
        seq!['+']
    } else {
        query_escape_byte(b)
    }
}

/// Query-escaping of a byte sequence.
pub open spec fn query_escaped_bytes(bs: Seq<u8>) -> Seq<char>
    decreases bs.len(),
{
    if bs.len() == 0 {
        Seq::empty()
    } else {
        query_escape_byte(bs[0]) + query_escaped_bytes(bs.drop_first())
    }
}

/// Form-escaping of a byte sequence.
pub open spec fn form_escaped_bytes(bs: Seq<u8>) -> Seq<char>
    decreases bs.len(),
{
    if bs.len() == 0 {
        Seq::empty()
    } else {
        form_escape_byte(bs[0]) + form_escaped_bytes(bs.drop_first())
    }
}

/// Query-escaping of a string: its UTF-8 bytes, escaped.
pub open spec fn query_escape_of(s: Seq<char>) -> Seq<char> {
    query_escaped_bytes(vstd::utf8::encode_utf8(s))
}

/// Form-escaping of a string: its UTF-8 bytes, escaped with space as `+`.
pub open spec fn form_escape_of(s: Seq<char>) -> Seq<char> {
    form_escaped_bytes(vstd::utf8::encode_utf8(s))
}

proof fn lemma_query_escaped_snoc(bs: Seq<u8>, b: u8)
    ensures
        query_escaped_bytes(bs.push(b)) == query_escaped_bytes(bs) + query_escape_byte(b),
    decreases bs.len(),
{
    if bs.len() == 0 {
        assert(bs.push(b).drop_first() =~= Seq::<u8>::empty());
        assert(bs.push(b)[0] == b);
        assert(query_escaped_bytes(Seq::<u8>::empty()) =~= Seq::<char>::empty());
        assert(query_escaped_bytes(bs.push(b)) == query_escape_byte(b) + query_escaped_bytes(
            Seq::<u8>::empty(),
        ));
        assert(query_escaped_bytes(bs.push(b)) =~= query_escape_byte(b));
        assert(query_escaped_bytes(bs) + query_escape_byte(b) =~= query_escape_byte(b));
    } else {
        assert(bs.push(b).drop_first() =~= bs.drop_first().push(b));
        lemma_query_escaped_snoc(bs.drop_first(), b);
        assert(query_escaped_bytes(bs.push(b)) =~= query_escaped_bytes(bs) + query_escape_byte(b));
    }
}

proof fn lemma_form_escaped_snoc(bs: Seq<u8>, b: u8)
    ensures
        form_escaped_bytes(bs.push(b)) == form_escaped_bytes(bs) + form_escape_byte(b),
    decreases bs.len(),
{
    if bs.len() == 0 {
        assert(bs.push(b).drop_first() =~= Seq::<u8>::empty());
        assert(bs.push(b)[0] == b);
        assert(form_escaped_bytes(Seq::<u8>::empty()) =~= Seq::<char>::empty());
        assert(form_escaped_bytes(bs.push(b)) == form_escape_byte(b) + form_escaped_bytes(
            Seq::<u8>::empty(),
        ));
        assert(form_escaped_bytes(bs.push(b)) =~= form_escape_byte(b));
        assert(form_escaped_bytes(bs) + form_escape_byte(b) =~= form_escape_byte(b));
    } else {
        assert(bs.push(b).drop_first() =~= bs.drop_first().push(b));
        lemma_form_escaped_snoc(bs.drop_first(), b);
        assert(form_escaped_bytes(bs.push(b)) =~= form_escaped_bytes(bs) + form_escape_byte(b));
    }
}

/// Append the one character that an unescaped byte stands for.
fn push_unescaped_byte(out: &mut String, b: u8)
    requires
        is_unescaped_byte(b),
    ensures
        final(out)@ == old(out)@ + seq![b as char],
{
    match b {
        42u8 => {
            proof {
                reveal_strlit("*");
            }
            out.append("*");
        },
        45u8 => {
            proof {
                reveal_strlit("-");
            }
            out.append("-");
        },
        46u8 => {
            proof {
                reveal_strlit(".");
            }
            out.append(".");
        },
        48u8 => {
            proof {
                reveal_strlit("0");
            }
            out.append("0");
        },
        49u8 => {
            proof {
                reveal_strlit("1");
            }
            out.append("1");
        },
        50u8 => {
            proof {
                reveal_strlit("2");
            }
            out.append("2");
        },
        51u8 => {
            proof {
                reveal_strlit("3");
            }
            out.append("3");
        },
        52u8 => {
            proof {
                reveal_strlit("4");
            }
            out.append("4");
        },
        53u8 => {
            proof {
                reveal_strlit("5");
            }
            out.append("5");
        },
        54u8 => {
            proof {
                reveal_strlit("6");
            }
            out.append("6");
        },
        55u8 => {
            proof {
                reveal_strlit("7");
            }
            out.append("7");
        },
        56u8 => {
            proof {
                reveal_strlit("8");
            }
            out.append("8");
        },
        57u8 => {
            proof {
                reveal_strlit("9");
            }
            out.append("9");
        },
        65u8 => {
            proof {
                reveal_strlit("A");
            }
            out.append("A");
        },
        66u8 => {
            proof {
                reveal_strlit("B");
            }
            out.append("B");
        },
        67u8 => {
            proof {
                reveal_strlit("C");
            }
            out.append("C");
        },
        68u8 => {
            proof {
                reveal_strlit("D");
            }
            out.append("D");
        },
        69u8 => {
            proof {
                reveal_strlit("E");
            }
            out.append("E");
        },
        70u8 => {
            proof {
                reveal_strlit("F");
            }
            out.append("F");
        },
        71u8 => {
            proof {
                reveal_strlit("G");
            }
            out.append("G");
        },
        72u8 => {
            proof {
                reveal_strlit("H");
            }
            out.append("H");
        },
        73u8 => {
            proof {
                reveal_strlit("I");
            }
            out.append("I");
        },
        74u8 => {
            proof {
                reveal_strlit("J");
            }
            out.append("J");
        },
        75u8 => {
            proof {
                reveal_strlit("K");
            }
            out.append("K");
        },
        76u8 => {
            proof {
                reveal_strlit("L");
            }
            out.append("L");
        },
        77u8 => {
            proof {
                reveal_strlit("M");
            }
            out.append("M");
        },
        78u8 => {
            proof {
                reveal_strlit("N");
            }
            out.append("N");
        },
        79u8 => {
            proof {
                reveal_strlit("O");
            }
            out.append("O");
        },
        80u8 => {
            proof {
                reveal_strlit("P");
            }
            out.append("P");
        },
        81u8 => {
            proof {
                reveal_strlit("Q");
            }
            out.append("Q");
        },
        82u8 => {
            proof {
                reveal_strlit("R");
            }
            out.append("R");
        },
        83u8 => {
            proof {
                reveal_strlit("S");
            }
            out.append("S");
        },
        84u8 => {
            proof {
                reveal_strlit("T");
            }
            out.append("T");
        },
        85u8 => {
            proof {
                reveal_strlit("U");
            }
            out.append("U");
        },
        86u8 => {
            proof {
                reveal_strlit("V");
            }
            out.append("V");
        },
        87u8 => {
            proof {
                reveal_strlit("W");
            }
            out.append("W");
        },
        88u8 => {
            proof {
                reveal_strlit("X");
            }
            out.append("X");
        },
        89u8 => {
            proof {
                reveal_strlit("Y");
            }
            out.append("Y");
        },
        90u8 => {
            proof {
                reveal_strlit("Z");
            }
            out.append("Z");
        },
        95u8 => {
            proof {
                reveal_strlit("_");
            }
            out.append("_");
        },
        97u8 => {
            proof {
                reveal_strlit("a");
            }
            out.append("a");
        },
        98u8 => {
            proof {
                reveal_strlit("b");
            }
            out.append("b");
        },
        99u8 => {
            proof {
                reveal_strlit("c");
            }
            out.append("c");
        },
        100u8 => {
            proof {
                reveal_strlit("d");
            }
            out.append("d");
        },
        101u8 => {
            proof {
                reveal_strlit("e");
            }
            out.append("e");
        },
        102u8 => {
            proof {
                reveal_strlit("f");
            }
            out.append("f");
        },
        103u8 => {
            proof {
                reveal_strlit("g");
            }
            out.append("g");
        },
        104u8 => {
            proof {
                reveal_strlit("h");
            }
            out.append("h");
        },
        105u8 => {
            proof {
                reveal_strlit("i");
            }
            out.append("i");
        },
        106u8 => {
            proof {
                reveal_strlit("j");
            }
            out.append("j");
        },
        107u8 => {
            proof {
                reveal_strlit("k");
            }
            out.append("k");
        },
        108u8 => {
            proof {
                reveal_strlit("l");
            }
            out.append("l");
        },
        109u8 => {
            proof {
                reveal_strlit("m");
            }
            out.append("m");
        },
        110u8 => {
            proof {
                reveal_strlit("n");
            }
            out.append("n");
        },
        111u8 => {
            proof {
                reveal_strlit("o");
            }
            out.append("o");
        },
        112u8 => {
            proof {
                reveal_strlit("p");
            }
            out.append("p");
        },
        113u8 => {
            proof {
                reveal_strlit("q");
            }
            out.append("q");
        },
        114u8 => {
            proof {
                reveal_strlit("r");
            }
            out.append("r");
        },
        115u8 => {
            proof {
                reveal_strlit("s");
            }
            out.append("s");
        },
        116u8 => {
            proof {
                reveal_strlit("t");
            }
            out.append("t");
        },
        117u8 => {
            proof {
                reveal_strlit("u");
            }
            out.append("u");
        },
        118u8 => {
            proof {
                reveal_strlit("v");
            }
            out.append("v");
        },
        119u8 => {
            proof {
                reveal_strlit("w");
            }
            out.append("w");
        },
        120u8 => {
            proof {
                reveal_strlit("x");
            }
            out.append("x");
        },
        121u8 => {
            proof {
                reveal_strlit("y");
            }
            out.append("y");
        },
        122u8 => {
            proof {
                reveal_strlit("z");
            }
            out.append("z");
        },
        _ => {
            proof {
                assert(false);
            }
        },
    }
}

/// Append one uppercase hexadecimal digit.
fn push_hex_digit(out: &mut String, h: u8)
    requires
        h < 16,
    ensures
        final(out)@ == old(out)@ + seq![hex_digit(h)],
{
    match h {
        0u8 => {
            proof {
                reveal_strlit("0");
            }
            out.append("0");
        },
        1u8 => {
            proof {
                reveal_strlit("1");
            }
            out.append("1");
        },
        2u8 => {
            proof {
                reveal_strlit("2");
            }
            out.append("2");
        },
        3u8 => {
            proof {
                reveal_strlit("3");
            }
            out.append("3");
        },
        4u8 => {
            proof {
                reveal_strlit("4");
            }
            out.append("4");
        },
        5u8 => {
            proof {
                reveal_strlit("5");
            }
            out.append("5");
        },
        6u8 => {
            proof {
                reveal_strlit("6");
            }
            out.append("6");
        },
        7u8 => {
            proof {
                reveal_strlit("7");
            }
            out.append("7");
        },
        8u8 => {
            proof {
                reveal_strlit("8");
            }
            out.append("8");
        },
        9u8 => {
            proof {
                reveal_strlit("9");
            }
            out.append("9");
        },
        10u8 => {
            proof {
                reveal_strlit("A");
            }
            out.append("A");
        },
        11u8 => {
            proof {
                reveal_strlit("B");
            }
            out.append("B");
        },
        12u8 => {
            proof {
                reveal_strlit("C");
            }
            out.append("C");
        },
        13u8 => {
            proof {
                reveal_strlit("D");
            }
            out.append("D");
        },
        14u8 => {
            proof {
                reveal_strlit("E");
            }
            out.append("E");
        },
        15u8 => {
            proof {
                reveal_strlit("F");
            }
            out.append("F");
        },
        _ => {
            proof {
                assert(false);
            }
        },
    }
}

/// Escape a byte sequence; `space_plus` selects the form variant.
fn escape_bytes(bytes: &[u8], space_plus: bool) -> (r: String)
    ensures
        space_plus ==> r@ == form_escaped_bytes(bytes@),
        !space_plus ==> r@ == query_escaped_bytes(bytes@),
{
    let mut out = String::new();
    let mut i: usize = 0;
    proof {
        assert(bytes@.take(0) =~= Seq::<u8>::empty());
    }
    while i < bytes.len()
        invariant
            i <= bytes@.len(),
            space_plus ==> out@ == form_escaped_bytes(bytes@.take(i as int)),
            !space_plus ==> out@ == query_escaped_bytes(bytes@.take(i as int)),
        decreases bytes@.len() - i,
    {
        let b = bytes[i];
        if b == 42 || b == 45 || b == 46 || b == 95 || (48 <= b && b <= 57) || (65 <= b && b <= 90)
            || (97 <= b && b <= 122) {
            push_unescaped_byte(&mut out, b);
        } else if space_plus && b == 32 {
            proof {
                reveal_strlit("+");
            }
            out.append("+");
            assert(out@.last() == '+');
        } else {
            proof {
                reveal_strlit("%");
            }
            out.append("%");
            push_hex_digit(&mut out, b / 16);
            push_hex_digit(&mut out, b % 16);
        }
        proof {
            assert(bytes@.take(i + 1) =~= bytes@.take(i as int).push(bytes@[i as int]));
            if space_plus {
                lemma_form_escaped_snoc(bytes@.take(i as int), bytes@[i as int]);
                assert(out@ =~= form_escaped_bytes(bytes@.take(i + 1)));
            } else {
                lemma_query_escaped_snoc(bytes@.take(i as int), bytes@[i as int]);
                assert(out@ =~= query_escaped_bytes(bytes@.take(i + 1)));
            }
        }
        i = i + 1;
    }
    proof {
        assert(bytes@.take(i as int) =~= bytes@);
    }
    out
}

/// Percent-escape a string for use in a query component: space becomes `%20`.
pub fn query_escape(s: &str) -> (r: String)
    ensures
        r@ == query_escape_of(s@),
{
    escape_bytes(s.as_bytes(), false)
}

/// Form-encode a string: space becomes `+`.
pub fn form_escape(s: &str) -> (r: String)
    ensures
        r@ == form_escape_of(s@),
{
    escape_bytes(s.as_bytes(), true)
}


/// Decimal text of a number.
pub open spec fn dec_of(n: nat) -> Seq<char>
    decreases n,
{
    if n < 10 {
        seq![hex_digit(n as u8)]
    } else {
        dec_of(n / 10) + seq![hex_digit((n % 10) as u8)]
    }
}

/// Write a number in decimal.
pub fn dec_str(n: u64) -> (r: String)
    ensures
        r@ == dec_of(n as nat),
    decreases n,
{
    if n < 10 {
        let mut s = String::new();
        push_hex_digit(&mut s, n as u8);
        proof {
            assert(s@ =~= seq![hex_digit(n as u8)]);
        }
        s
    } else {
        let mut s = dec_str(n / 10);
        push_hex_digit(&mut s, (n % 10) as u8);
        s
    }
}

} // verus!

