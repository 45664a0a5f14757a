//! Client-side core of a Table Access Protocol (TAP) catalog service:
//! a columnar JSON response is validated and reshaped into name-keyed
//! records, and an ADQL query string is assembled by a builder whose
//! type states make an incomplete query unbuildable.

use vstd::prelude::*;

pub mod builder;
pub mod json;
pub mod response;
pub mod text;

verus! {

/// The query parameters of one TAP request, in order: the fixed
/// `request`, `lang` and `format` values the protocol asks for, and the
/// assembled ADQL string.
pub fn request_params(query: String) -> (r: Vec<(String, String)>)
    ensures
        r@.len() == 4,
        r@[0].0@ == "request"@ && r@[0].1@ == "doQuery"@,
        r@[1].0@ == "lang"@ && r@[1].1@ == "ADQL"@,
        r@[2].0@ == "format"@ && r@[2].1@ == "json"@,
        r@[3].0@ == "query"@ && r@[3].1@ == query@,
{
    let mut r: Vec<(String, String)> = Vec::new();
    r.push(("request".to_owned(), "doQuery".to_owned()));
    r.push(("lang".to_owned(), "ADQL".to_owned()));
    r.push(("format".to_owned(), "json".to_owned()));
    r.push(("query".to_owned(), query));
    r
}

} // verus!
