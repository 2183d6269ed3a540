//! What an interceptor says of a response: its status, the headers to set
//! on it and its body.

use crate::text::same_text;
use vstd::prelude::*;

verus! {

/// A header to set on a response.
#[derive(Clone, Debug, PartialEq, Eq)]
pub struct Header {
    pub name: String,
    pub value: String,
}

impl View for Header {
    type V = (Seq<char>, Seq<char>);

    open spec fn view(&self) -> (Seq<char>, Seq<char>) {
        (self.name@, self.value@)
    }
}

/// Headers as pairs of name and value.
pub open spec fn header_views(headers: Seq<Header>) -> Seq<(Seq<char>, Seq<char>)> {
    Seq::new(headers.len(), |i: int| headers[i]@)
}

/// Holds of the headers whose name is not `name`.
pub open spec fn named_otherwise(name: Seq<char>) -> spec_fn((Seq<char>, Seq<char>)) -> bool {
    |header: (Seq<char>, Seq<char>)| header.0 != name
}

/// The headers after `name` was set to `value`: the headers of another
/// name, in their order, and then the new one.
pub open spec fn with_header(
    headers: Seq<(Seq<char>, Seq<char>)>,
    name: Seq<char>,
    value: Seq<char>,
) -> Seq<(Seq<char>, Seq<char>)> {
    headers.filter(named_otherwise(name)).push((name, value))
}

/// A response that an interceptor makes itself.
#[derive(Clone, Debug, PartialEq, Eq)]
pub struct Reply {
    pub status: u16,
    pub headers: Vec<Header>,
    pub body: Vec<u8>,
}

/// Sets the header `name` to `value`: a header of that name that is
/// already there is replaced.
pub fn set_header(headers: &mut Vec<Header>, name: &str, value: String)
    ensures
        header_views(final(headers)@) == with_header(header_views(old(headers)@), name@, value@),
{
    let ghost all = header_views(headers@);
    let ghost other = named_otherwise(name@);
    let mut kept: Vec<Header> = Vec::new();
    let mut i: usize = 0;
    while i < headers.len()
        invariant
            i <= headers@.len(),
            all == header_views(headers@),
            other == named_otherwise(name@),
            header_views(kept@) == all.take(i as int).filter(other),
        decreases headers@.len() - i,
    {
        proof {
            assert(all.take(i + 1) =~= all.take(i as int).push(headers@[i as int]@));
            all.take(i as int).lemma_filter_push(headers@[i as int]@, other);
        }
        if !same_text(headers[i].name.as_str(), name) {
            kept.push(Header { name: headers[i].name.clone(), value: headers[i].value.clone() });
        }
        i = i + 1;
    }
    assert(all.take(all.len() as int) =~= all);
    kept.push(Header { name: name.to_owned(), value });
    *headers = kept;
}

} // verus!
