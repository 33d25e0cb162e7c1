use vstd::prelude::*;

use crate::error::CliError;
use crate::model::SearchResult;
use crate::sorting::{
    all_comparable,
    count_or_zero,
    key_is,
    lemma_group_head,
    sort_key,
    sort_search_results,
    with_key,
    SortField,
};
use crate::validation::validate_search_results_not_empty;

verus! {

/// Whether `s[i]` is the best match of a search: no result has more stars,
/// and every result before it has fewer (absent stars counting as zero).
pub open spec fn is_best_match(s: Seq<SearchResult>, i: int) -> bool {
    &&& 0 <= i < s.len()
    &&& forall|j: int|
        0 <= j < s.len() ==> count_or_zero(#[trigger] s[j].stars) <= count_or_zero(s[i].stars)
    &&& forall|j: int| 0 <= j < i ==> count_or_zero(#[trigger] s[j].stars) < count_or_zero(s[i].stars)
}

/// The id of the best match of a search: the results are ordered by stars,
/// highest first, and the first one is taken. Fails with `NoResults`, naming
/// `query`, when there is no result at all.
pub fn pick_best_match(results: Vec<SearchResult>, query: &str) -> (r: Result<String, CliError>)
    ensures
        r is Ok <==> results@.len() > 0,
        r matches Ok(id) ==> exists|i: int| is_best_match(results@, i) && id@ == results@[i].id@,
        r matches Err(e) ==> e matches CliError::NoResults { query: q } && q@ == query@,
{
    match validate_search_results_not_empty(results.as_slice(), query) {
        Err(e) => {
            return Err(e);
        },
        Ok(()) => {},
    }
    let ghost input = results@;
    proof {
        assert(all_comparable(input, SortField::Stars));
    }
    let sorted = sort_search_results(results, SortField::Stars);
    let ghost first = sorted@[0];
    proof {
        let k = sort_key(first, SortField::Stars);
        let p = key_is(SortField::Stars, k);
        vstd::seq_lib::to_multiset_len(sorted@);
        vstd::seq_lib::to_multiset_len(input);
        sorted@.lemma_filter_contains(p, 0);
        lemma_group_head(sorted@, SortField::Stars, k);
        assert(with_key(sorted@, SortField::Stars, k)[0] == first);
        assert(with_key(sorted@, SortField::Stars, k) == with_key(input, SortField::Stars, k));
        lemma_group_head(input, SortField::Stars, k);
        let i = choose|i: int|
            0 <= i < input.len() && input[i] == with_key(input, SortField::Stars, k)[0] && sort_key(
                input[i],
                SortField::Stars,
            ) == k && forall|j: int| 0 <= j < i ==> sort_key(#[trigger] input[j], SortField::Stars) != k;
        assert forall|j: int| 0 <= j < input.len() implies count_or_zero(#[trigger] input[j].stars)
            <= count_or_zero(input[i].stars) by {
            vstd::seq_lib::to_multiset_contains(input, input[j]);
            vstd::seq_lib::to_multiset_contains(sorted@, input[j]);
            assert(input.contains(input[j]));
            let m = choose|m: int| 0 <= m < sorted@.len() && sorted@[m] == input[j];
            if m > 0 {
                assert(sort_key(sorted@[0], SortField::Stars) is Some);
            }
        }
        assert forall|j: int| 0 <= j < i implies count_or_zero(#[trigger] input[j].stars)
            < count_or_zero(input[i].stars) by {
            assert(sort_key(input[j], SortField::Stars) != k);
        }
        assert(is_best_match(input, i));
    }
    Ok(sorted[0].id.clone())
}

} // verus!
