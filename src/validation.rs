use vstd::prelude::*;

use crate::error::CliError;
use crate::model::SearchResult;

verus! {

/// Fails with `NoResults`, naming `query`, when a search found nothing.
pub fn validate_search_results_not_empty(results: &[SearchResult], query: &str) -> (r: Result<
    (),
    CliError,
>)
    ensures
        r is Ok <==> results@.len() > 0,
        r matches Err(e) ==> e matches CliError::NoResults { query: q } && q@ == query@,
{
    if results.len() == 0 {
        return Err(CliError::NoResults { query: query.to_string() });
    }
    Ok(())
}

} // verus!
