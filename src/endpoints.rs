use vstd::prelude::*;

use crate::text::{strip_leading_slash, without_leading_slash};

verus! {

/// The root of the documentation service's API.
pub const BASE_URL: &'static str = "https://context7.com/api/v1";

/// The address of a search for `query`.
pub open spec fn search_url_for(query: Seq<char>) -> Seq<char> {
    BASE_URL@ + "/search?query="@ + query
}

/// The address of the documentation of the library `id`; a single leading
/// `/` of the id is dropped.
pub open spec fn docs_url_for(id: Seq<char>) -> Seq<char> {
    BASE_URL@ + "/"@ + without_leading_slash(id)
}

/// Builds the address of a search for `query`.
pub fn search_url(query: &str) -> (url: String)
    ensures
        url@ == search_url_for(query@),
{
    let mut url = String::from_str(BASE_URL);
    url.append("/search?query=");
    url.append(query);
    url
}

/// Builds the address of the documentation of the library `id`.
pub fn docs_url(id: &str) -> (url: String)
    ensures
        url@ == docs_url_for(id@),
{
    let mut url = String::from_str(BASE_URL);
    url.append("/");
    url.append(strip_leading_slash(id));
    url
}

} // verus!
