//! The request-side data model: HTTP methods, the parameter and header
//! mappings, and the request value handed to the transport. Both mappings
//! behave as maps: setting a key that is present replaces its value, and the
//! entries are kept in ascending key order.
use vstd::prelude::*;

verus! {

use crate::assoc::assoc_get;
use crate::assoc::assoc_has_key;
use crate::assoc::assoc_insert;
use crate::assoc::entries_sorted;
use crate::assoc::lemma_assoc_insert_sorted;
use crate::assoc::map_get;
use crate::assoc::map_has_key;
use crate::assoc::map_set;

/// An HTTP method the client issues.
#[derive(Clone, Copy, PartialEq, Eq, Structural, Debug)]
pub enum Method {
    Get,
    Put,
    Post,
    Delete,
    Head,
}

impl Method {
    /// The upper-case token of the method, as it enters the string-to-sign.
    pub open spec fn token(self) -> Seq<char> {
        match self {
            Method::Get => "GET"@,
            Method::Put => "PUT"@,
            Method::Post => "POST"@,
            Method::Delete => "DELETE"@,
            Method::Head => "HEAD"@,
        }
    }

    /// The method's token.
    pub fn as_str(&self) -> (r: &'static str)
        ensures
            r@ == self.token(),
    {
        match self {
            Method::Get => "GET",
            Method::Put => "PUT",
            Method::Post => "POST",
            Method::Delete => "DELETE",
            Method::Head => "HEAD",
        }
    }
}

/// Query parameters: a mapping from name to an optional value. A parameter
/// without a value is a flag, written without `=` in the canonical form.
pub struct Params {
    entries: Vec<(String, Option<String>)>,
}

impl View for Params {
    type V = Seq<(Seq<char>, Option<Seq<char>>)>;

    closed spec fn view(&self) -> Seq<(Seq<char>, Option<Seq<char>>)> {
        self.entries.deep_view()
    }
}

impl Params {
    /// The entries are sorted by name, so the mapping has no duplicate names.
    pub open spec fn wf(&self) -> bool {
        entries_sorted(self@)
    }

    /// An empty mapping.
    pub fn new() -> (r: Params)
        ensures
            r@ == Seq::<(Seq<char>, Option<Seq<char>>)>::empty(),
            r.wf(),
    {
        let r = Params { entries: Vec::new() };
        proof {
            assert(r@ =~= Seq::<(Seq<char>, Option<Seq<char>>)>::empty());
        }
        r
    }

    /// Set a parameter, replacing any previous value under the same name.
    pub fn set(&mut self, k: String, v: Option<String>)
        requires
            old(self).wf(),
        ensures
            final(self)@ == assoc_insert(old(self)@, k@, v.deep_view()),
            final(self).wf(),
    {
        proof {
            lemma_assoc_insert_sorted(self@, k@, v.deep_view());
        }
        map_set(&mut self.entries, k, v);
    }

    /// Read access to the entries, in ascending name order.
    pub fn entries(&self) -> (r: &Vec<(String, Option<String>)>)
        ensures
            r.deep_view() == self@,
    {
        &self.entries
    }
}

/// Request headers: a mapping from header name to value. Names are kept as
/// given; signing lowercases them where the protocol asks for it.
pub struct Headers {
    entries: Vec<(String, String)>,
}

impl View for Headers {
    type V = Seq<(Seq<char>, Seq<char>)>;

    closed spec fn view(&self) -> Seq<(Seq<char>, Seq<char>)> {
        self.entries.deep_view()
    }
}

impl Headers {
    /// The entries are sorted by name, so the mapping has no duplicate names.
    pub open spec fn wf(&self) -> bool {
        entries_sorted(self@)
    }

    /// An empty mapping.
    pub fn new() -> (r: Headers)
        ensures
            r@ == Seq::<(Seq<char>, Seq<char>)>::empty(),
            r.wf(),
    {
        let r = Headers { entries: Vec::new() };
        proof {
            assert(r@ =~= Seq::<(Seq<char>, Seq<char>)>::empty());
        }
        r
    }

    /// Set a header, replacing any previous value under the same name.
    pub fn set(&mut self, k: String, v: String)
        requires
            old(self).wf(),
        ensures
            final(self)@ == assoc_insert(old(self)@, k@, v@),
            final(self).wf(),
    {
        proof {
            lemma_assoc_insert_sorted(self@, k@, v@);
        }
        map_set(&mut self.entries, k, v);
    }

    /// The value stored under a name, if any.
    pub fn get(&self, k: &str) -> (r: Option<&String>)
        ensures
            match r {
                Some(v) => assoc_get(self@, k@) == Some(v@),
                None => assoc_get(self@, k@) is None,
            },
    {
        map_get(&self.entries, k)
    }

    /// Whether a header with this exact name is present.
    pub fn has_key(&self, k: &str) -> (r: bool)
        ensures
            r == assoc_has_key(self@, k@),
    {
        map_has_key(&self.entries, k)
    }

    /// Read access to the entries, in ascending name order.
    pub fn entries(&self) -> (r: &Vec<(String, String)>)
        ensures
            r.deep_view() == self@,
    {
        &self.entries
    }
}

/// A request ready for signing and dispatch.
pub struct Request {
    pub url: String,
    pub method: Method,
    pub headers: Headers,
    pub params: Params,
    pub body: Vec<u8>,
}

} // verus!
