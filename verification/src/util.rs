//! HTTP-date formatting: render seconds since the Unix epoch as an IMF-fixdate
//! (`Thu, 01 Jan 1970 00:00:00 GMT`), the form the Date header carries. The
//! calendar arithmetic follows the standard era-based conversion from a day
//! number to a civil date.
use vstd::prelude::*;

verus! {

use vstd::arithmetic::div_mod::lemma_div_is_ordered;
use vstd::arithmetic::div_mod::lemma_div_nonincreasing;

use crate::escape::dec_of;
use crate::escape::dec_str;
use crate::text::push_str;

/// Subtraction clipped at zero; on the dates that arise the clip never fires.
pub open spec fn monus(a: int, b: int) -> int {
    if a >= b {
        a - b
    } else {
        0
    }
}

/// Civil (year, month, day) of a day number counted from the Unix epoch.
pub open spec fn civil_of_days(days: int) -> (int, int, int) {
    let z = days + 719468;
    let era = z / 146097;
    let doe = z % 146097;
    let yoe = monus(monus(doe, doe / 1460) + doe / 36524, doe / 146096) / 365;
    let y = yoe + era * 400;
    let doy = monus(doe, monus(365 * yoe + yoe / 4, yoe / 100));
    let mp = (5 * doy + 2) / 153;
    let d = monus(doy, (153 * mp + 2) / 5) + 1;
    let m = if mp < 10 {
        mp + 3
    } else {
        monus(mp, 9)
    };
    if m <= 2 {
        (y + 1, m, d)
    } else {
        (y, m, d)
    }
}

/// The three-letter month name; any value outside the calendar range answers
/// as January, which no reachable date produces.
pub open spec fn month_name(m: int) -> Seq<char> {
    if m == 2 {
        "Feb"@
    } else if m == 3 {
        "Mar"@
    } else if m == 4 {
        "Apr"@
    } else if m == 5 {
        "May"@
    } else if m == 6 {
        "Jun"@
    } else if m == 7 {
        "Jul"@
    } else if m == 8 {
        "Aug"@
    } else if m == 9 {
        "Sep"@
    } else if m == 10 {
        "Oct"@
    } else if m == 11 {
        "Nov"@
    } else if m == 12 {
        "Dec"@
    } else {
        "Jan"@
    }
}

/// The three-letter weekday name, counted with 0 as Sunday.
pub open spec fn weekday_name(w: int) -> Seq<char> {
    if w == 1 {
        "Mon"@
    } else if w == 2 {
        "Tue"@
    } else if w == 3 {
        "Wed"@
    } else if w == 4 {
        "Thu"@
    } else if w == 5 {
        "Fri"@
    } else if w == 6 {
        "Sat"@
    } else {
        "Sun"@
    }
}

/// A number in decimal, padded to at least two digits.
pub open spec fn pad2(n: nat) -> Seq<char> {
    if n < 10 {
        "0"@ + dec_of(n)
    } else {
        dec_of(n)
    }
}

/// The HTTP-date text of a point in time given in seconds since the epoch.
pub open spec fn http_date_text(secs: int) -> Seq<char> {
    let days = secs / 86400;
    let sod = secs % 86400;
    let hh = sod / 3600;
    let mi = (sod % 3600) / 60;
    let ss = sod % 60;
    let wd = (days + 4) % 7;
    let (y, m, d) = civil_of_days(days);
    weekday_name(wd) + ", "@ + pad2(d as nat) + " "@ + month_name(m) + " "@ + dec_of(y as nat)
        + " "@ + pad2(hh as nat) + ":"@ + pad2(mi as nat) + ":"@ + pad2(ss as nat) + " GMT"@
}

/// Write a number in decimal, padded to at least two digits.
fn pad2_str(n: u64) -> (r: String)
    ensures
        r@ == pad2(n as nat),
{
    proof {
        reveal_strlit("0");
    }
    let mut out = String::new();
    if n < 10 {
        push_str(&mut out, "0");
    }
    let digits = dec_str(n);
    push_str(&mut out, digits.as_str());
    proof {
        if n >= 10 {
            assert(out@ =~= dec_of(n as nat));
        }
    }
    out
}

/// The three-letter month name.
fn month_str(m: u64) -> (r: &'static str)
    ensures
        r@ == month_name(m as int),
{
    if m == 2 {
        "Feb"
    } else if m == 3 {
        "Mar"
    } else if m == 4 {
        "Apr"
    } else if m == 5 {
        "May"
    } else if m == 6 {
        "Jun"
    } else if m == 7 {
        "Jul"
    } else if m == 8 {
        "Aug"
    } else if m == 9 {
        "Sep"
    } else if m == 10 {
        "Oct"
    } else if m == 11 {
        "Nov"
    } else if m == 12 {
        "Dec"
    } else {
        "Jan"
    }
}

/// The three-letter weekday name.
fn weekday_str(w: u64) -> (r: &'static str)
    ensures
        r@ == weekday_name(w as int),
{
    if w == 1 {
        "Mon"
    } else if w == 2 {
        "Tue"
    } else if w == 3 {
        "Wed"
    } else if w == 4 {
        "Thu"
    } else if w == 5 {
        "Fri"
    } else if w == 6 {
        "Sat"
    } else {
        "Sun"
    }
}

/// Format a point in time, given in seconds since the Unix epoch, as an
/// HTTP-date for the Date header.
pub fn http_date(secs: u64) -> (r: String)
    ensures
        r@ == http_date_text(secs as int),
{
    proof {
        reveal_strlit(", ");
        reveal_strlit(" ");
        reveal_strlit(":");
        reveal_strlit(" GMT");
    }
    let days = secs / 86400;
    let sod = secs % 86400;
    let hh = sod / 3600;
    let mi = (sod % 3600) / 60;
    let ss = sod % 60;
    let wd = (days + 4) % 7;
    let z = days + 719468;
    let era = z / 146097;
    let doe = z % 146097;
    proof {
        lemma_div_nonincreasing(doe as int, 1460);
        lemma_div_nonincreasing(doe as int, 36524);
        lemma_div_nonincreasing(doe as int, 146096);
    }
    let a1 = if doe >= doe / 1460 {
        doe - doe / 1460
    } else {
        0
    };
    let a2 = a1 + doe / 36524;
    let a3 = if a2 >= doe / 146096 {
        a2 - doe / 146096
    } else {
        0
    };
    let yoe = a3 / 365;
    proof {
        lemma_div_nonincreasing(a3 as int, 365);
        lemma_div_nonincreasing(yoe as int, 4);
        lemma_div_nonincreasing(yoe as int, 100);
    }
    let y = yoe + era * 400;
    let b1 = 365 * yoe + yoe / 4;
    let b2 = if b1 >= yoe / 100 {
        b1 - yoe / 100
    } else {
        0
    };
    let doy = if doe >= b2 {
        doe - b2
    } else {
        0
    };
    let mp = (5 * doy + 2) / 153;
    proof {
        lemma_div_is_ordered(5 * doy + 2, (5 * 146096 + 2) as int, 153);
    }
    let c1 = (153 * mp + 2) / 5;
    let d = if doy >= c1 {
        doy - c1
    } else {
        0
    } + 1;
    let m = if mp < 10 {
        mp + 3
    } else {
        mp - 9
    };
    let year = if m <= 2 {
        y + 1
    } else {
        y
    };
    let mut out = String::new();
    push_str(&mut out, weekday_str(wd));
    push_str(&mut out, ", ");
    let dd = pad2_str(d);
    push_str(&mut out, dd.as_str());
    push_str(&mut out, " ");
    push_str(&mut out, month_str(m));
    push_str(&mut out, " ");
    let ytext = dec_str(year);
    push_str(&mut out, ytext.as_str());
    push_str(&mut out, " ");
    let hht = pad2_str(hh);
    push_str(&mut out, hht.as_str());
    push_str(&mut out, ":");
    let mit = pad2_str(mi);
    push_str(&mut out, mit.as_str());
    push_str(&mut out, ":");
    let sst = pad2_str(ss);
    push_str(&mut out, sst.as_str());
    push_str(&mut out, " GMT");
    out
}

} // verus!
