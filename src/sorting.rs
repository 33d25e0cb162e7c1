use vstd::prelude::*;

use crate::error::CliError;
use crate::model::SearchResult;
use crate::text::same_text;

verus! {

/// The fields by which search results can be ordered.
#[derive(Debug, Clone, Copy, PartialEq, Eq, Structural)]
pub enum SortField {
    Stars,
    TotalPages,
    TotalSnippets,
    TotalTokens,
    TrustScore,
}

/// The field that a sort key names, if it names one.
pub open spec fn sort_field_named(s: Seq<char>) -> Option<SortField> {
    if s == "stars"@ {
        Some(SortField::Stars)
    } else if s == "totalPages"@ {
        Some(SortField::TotalPages)
    } else if s == "totalSnippets"@ {
        Some(SortField::TotalSnippets)
    } else if s == "totalTokens"@ {
        Some(SortField::TotalTokens)
    } else if s == "trustScore"@ {
        Some(SortField::TrustScore)
    } else {
        None
    }
}

impl SortField {
    /// Reads a sort key as the API spells it (`"stars"`, `"totalPages"`, ...).
    pub fn from_str(s: &str) -> (r: Result<SortField, CliError>)
        ensures
            match sort_field_named(s@) {
                Some(f) => r == Ok::<SortField, CliError>(f),
                None => r matches Err(CliError::InvalidSortField { value }) && value@ == s@,
            },
    {
        if same_text(s, "stars") {
            Ok(SortField::Stars)
        } else if same_text(s, "totalPages") {
            Ok(SortField::TotalPages)
        } else if same_text(s, "totalSnippets") {
            Ok(SortField::TotalSnippets)
        } else if same_text(s, "totalTokens") {
            Ok(SortField::TotalTokens)
        } else if same_text(s, "trustScore") {
            Ok(SortField::TrustScore)
        } else {
            Err(CliError::InvalidSortField { value: s.to_string() })
        }
    }
}


/// The numeric order of a 64-bit float given by its IEEE-754 bit pattern,
/// as an integer: `None` for a NaN, which compares with nothing; both zeros
/// map to zero, and the order of the results is the order of the floats.
pub open spec fn score_key(bits: u64) -> Option<int> {
    if bits & 0x7ff0_0000_0000_0000 == 0x7ff0_0000_0000_0000 && bits & 0x000f_ffff_ffff_ffff
        != 0 {
        None
    } else if bits >> 63u64 == 1 {
        Some(-((bits & 0x7fff_ffff_ffff_ffff) as int))
    } else {
        Some((bits & 0x7fff_ffff_ffff_ffff) as int)
    }
}

/// A count that may be absent, absent counting as zero.
pub open spec fn count_or_zero(v: Option<i64>) -> int {
    match v {
        Some(n) => n as int,
        None => 0,
    }
}

/// The value by which `field` orders a result: the field's value with an
/// absent value taken as zero, or `None` for a NaN trust score.
pub open spec fn sort_key(r: SearchResult, field: SortField) -> Option<int> {
    match field {
        SortField::Stars => Some(count_or_zero(r.stars)),
        SortField::TotalPages => Some(count_or_zero(r.total_pages)),
        SortField::TotalSnippets => Some(count_or_zero(r.total_snippets)),
        SortField::TotalTokens => Some(count_or_zero(r.total_tokens)),
        SortField::TrustScore => match r.trust_score_bits {
            Some(bits) => score_key(bits),
            None => Some(0),
        },
    }
}

/// Whether `a` comes strictly before `b` when ordering by `field`, highest
/// first. Values that do not compare (a NaN) count as equal.
pub open spec fn outranks(a: SearchResult, b: SearchResult, field: SortField) -> bool {
    match (sort_key(a, field), sort_key(b, field)) {
        (Some(x), Some(y)) => x > y,
        _ => false,
    }
}

/// Whether every result has a value of `field` that compares with the others.
pub open spec fn all_comparable(s: Seq<SearchResult>, field: SortField) -> bool {
    forall|i: int| 0 <= i < s.len() ==> (#[trigger] sort_key(s[i], field)) is Some
}

/// Every count field compares: only a trust score can be a NaN, so ordering
/// by any other field yields a fully descending sequence.
pub proof fn lemma_counts_always_compare(s: Seq<SearchResult>, field: SortField)
    requires
        field != SortField::TrustScore,
    ensures
        all_comparable(s, field),
{
}

/// Whether any two comparable values of `field` stand in non-increasing order.
pub open spec fn is_descending(s: Seq<SearchResult>, field: SortField) -> bool {
    forall|i: int, j: int|
        0 <= i < j < s.len() ==> match (#[trigger] sort_key(s[i], field), #[trigger] sort_key(
            s[j],
            field,
        )) {
            (Some(x), Some(y)) => x >= y,
            _ => true,
        }
}

/// Holds of the results whose value of `field` is `key`.
pub open spec fn key_is(field: SortField, key: Option<int>) -> spec_fn(SearchResult) -> bool {
    |r: SearchResult| sort_key(r, field) == key
}

/// The results whose value of `field` is `key`, in the order of `s`.
pub open spec fn with_key(s: Seq<SearchResult>, field: SortField, key: Option<int>) -> Seq<
    SearchResult,
> {
    s.filter(key_is(field, key))
}

/// The order key of a trust score given by its bit pattern.
fn score_order_key(bits: u64) -> (k: Option<i64>)
    ensures
        match k {
            Some(v) => score_key(bits) == Some(v as int),
            None => score_key(bits) is None,
        },
{
    if bits & 0x7ff0_0000_0000_0000 == 0x7ff0_0000_0000_0000 && bits & 0x000f_ffff_ffff_ffff
        != 0 {
        None
    } else {
        let magnitude: u64 = bits & 0x7fff_ffff_ffff_ffff;
        assert(magnitude <= 0x7fff_ffff_ffff_ffff) by (bit_vector)
            requires
                magnitude == bits & 0x7fff_ffff_ffff_ffff,
        ;
        if bits >> 63u64 == 1 {
            Some(-(magnitude as i64))
        } else {
            Some(magnitude as i64)
        }
    }
}

fn count_key(v: Option<i64>) -> (k: i64)
    ensures
        k as int == count_or_zero(v),
{
    match v {
        Some(n) => n,
        None => 0,
    }
}

/// The value by which `field` orders `r`.
fn order_key(r: &SearchResult, field: SortField) -> (k: Option<i64>)
    ensures
        match k {
            Some(v) => sort_key(*r, field) == Some(v as int),
            None => sort_key(*r, field) is None,
        },
{
    match field {
        SortField::Stars => Some(count_key(r.stars)),
        SortField::TotalPages => Some(count_key(r.total_pages)),
        SortField::TotalSnippets => Some(count_key(r.total_snippets)),
        SortField::TotalTokens => Some(count_key(r.total_tokens)),
        SortField::TrustScore => match r.trust_score_bits {
            Some(bits) => score_order_key(bits),
            None => Some(0),
        },
    }
}

/// Whether `a` comes strictly before `b` when ordering by `field`.
fn ranks_above(a: &SearchResult, b: &SearchResult, field: SortField) -> (r: bool)
    ensures
        r == outranks(*a, *b, field),
{
    match (order_key(a, field), order_key(b, field)) {
        (Some(x), Some(y)) => x > y,
        _ => false,
    }
}

/// Inserting `x` in front of a run of results that it outranks adds it to
/// its own group of equal keys, at that group's end, and leaves the other
/// groups as they were.
proof fn lemma_insert_before_lower(
    s: Seq<SearchResult>,
    pos: int,
    x: SearchResult,
    field: SortField,
    key: Option<int>,
)
    requires
        0 <= pos <= s.len(),
        forall|j: int| pos <= j < s.len() ==> outranks(x, #[trigger] s[j], field),
    ensures
        with_key(s.insert(pos, x), field, key) == if sort_key(x, field) == key {
            with_key(s, field, key).push(x)
        } else {
            with_key(s, field, key)
        },
{
    broadcast use Seq::filter_distributes_over_add, Seq::lemma_filter_push;

    let p = key_is(field, key);
    let front = s.subrange(0, pos);
    let back = s.subrange(pos, s.len() as int);
    assert(s =~= front + back);
    assert(s.insert(pos, x) =~= front.push(x) + back);
    if sort_key(x, field) == key {
        assert(back.all(|r: SearchResult| !p(r))) by {
            assert forall|j: int| 0 <= j < back.len() implies !p(back[j]) by {
                assert(outranks(x, s[pos + j], field));
            }
        }
        back.lemma_all_neg_filter_empty(p);
        assert(back.filter(p) =~= Seq::<SearchResult>::empty());
        assert(front.push(x).filter(p) == front.filter(p).push(x));
        assert(with_key(s, field, key) =~= front.filter(p));
        assert(with_key(s.insert(pos, x), field, key) =~= front.filter(p).push(x));
    } else {
        assert(front.push(x).filter(p) == front.filter(p));
    }
}

/// Orders search results by `sort_by`, highest value first, absent values
/// counting as zero.
///
/// The sort is stable: results whose values are equal keep the order they
/// came in. A NaN trust score compares as equal to every other score.
pub fn sort_search_results(results: Vec<SearchResult>, sort_by: SortField) -> (sorted: Vec<
    SearchResult,
>)
    ensures
        sorted@.to_multiset() == results@.to_multiset(),
        forall|key: Option<int>| #[trigger]
            with_key(sorted@, sort_by, key) == with_key(results@, sort_by, key),
        all_comparable(results@, sort_by) ==> is_descending(sorted@, sort_by),
{
    let ghost input = results@;
    let mut rest = results;
    let mut sorted: Vec<SearchResult> = Vec::new();
    let ghost mut done: int = 0;
    assert(input.subrange(0, 0) =~= Seq::<SearchResult>::empty());
    while rest.len() > 0
        invariant
            0 <= done <= input.len(),
            rest@ == input.subrange(done, input.len() as int),
            sorted@.to_multiset() == input.subrange(0, done).to_multiset(),
            forall|key: Option<int>| #[trigger]
                with_key(sorted@, sort_by, key) == with_key(
                    input.subrange(0, done),
                    sort_by,
                    key,
                ),
            all_comparable(input, sort_by) ==> all_comparable(sorted@, sort_by),
            all_comparable(input, sort_by) ==> is_descending(sorted@, sort_by),
        decreases rest@.len(),
    {
        let x = rest.remove(0);
        assert(x == input[done]);
        let ghost before = sorted@;
        let mut pos: usize = sorted.len();
        while pos > 0 && ranks_above(&x, &sorted[pos - 1], sort_by)
            invariant
                sorted@ == before,
                pos <= sorted@.len(),
                forall|j: int| pos <= j < sorted@.len() ==> outranks(x, #[trigger] sorted@[j], sort_by),
            decreases pos,
        {
            pos = pos - 1;
        }
        sorted.insert(pos, x);
        proof {
            let prefix = input.subrange(0, done);
            assert(input.subrange(0, done + 1) =~= prefix.push(x));
            assert(sorted@ == before.insert(pos as int, x));
            vstd::seq_lib::to_multiset_insert(before, pos as int, x);
            vstd::seq_lib::to_multiset_build(prefix, x);
            assert forall|key: Option<int>| #[trigger]
                with_key(sorted@, sort_by, key) == with_key(
                    input.subrange(0, done + 1),
                    sort_by,
                    key,
                ) by {
                lemma_insert_before_lower(before, pos as int, x, sort_by, key);
                prefix.lemma_filter_push(x, key_is(sort_by, key));
            }
            if all_comparable(input, sort_by) {
                assert(sort_key(input[done], sort_by) is Some);
                assert(all_comparable(sorted@, sort_by));
                assert forall|i: int, j: int| 0 <= i < j < sorted@.len() implies match (
                    #[trigger] sort_key(sorted@[i], sort_by),
                    #[trigger] sort_key(sorted@[j], sort_by),
                ) {
                    (Some(a), Some(b)) => a >= b,
                    _ => true,
                } by {
                    if i < pos && j > pos {
                        assert(sort_key(before[i], sort_by) is Some);
                    } else if i < pos && j == pos {
                        assert(sort_key(before[pos - 1], sort_by) is Some);
                        assert(sort_key(before[i], sort_by) is Some);
                        if i < pos - 1 {
                            assert(sort_key(before[i], sort_by) == sort_key(sorted@[i], sort_by));
                        }
                    } else if i == pos {
                        assert(outranks(x, before[j - 1], sort_by));
                    }
                }
            }
            done = done + 1;
        }
    }
    assert(input.subrange(0, done) =~= input);
    sorted
}

/// Keeps the first `limit` results, or all of them where there are fewer.
pub fn apply_limit(results: Vec<SearchResult>, limit: usize) -> (limited: Vec<SearchResult>)
    ensures
        limited@ == if limit < results@.len() {
            results@.subrange(0, limit as int)
        } else {
            results@
        },
        limit == 0 ==> limited@.len() == 0,
        limit >= results@.len() ==> limited@ == results@,
{
    let mut limited = results;
    limited.truncate(limit);
    limited
}

/// The first result of a group of equal keys is the first result of `s`
/// with that key.
pub proof fn lemma_group_head(s: Seq<SearchResult>, field: SortField, key: Option<int>)
    requires
        with_key(s, field, key).len() > 0,
    ensures
        exists|i: int|
            0 <= i < s.len() && s[i] == with_key(s, field, key)[0] && sort_key(s[i], field) == key
                && forall|j: int| 0 <= j < i ==> sort_key(#[trigger] s[j], field) != key,
    decreases s.len(),
{
    let p = key_is(field, key);
    if s.len() == 0 {
        assert(s.filter(p) =~= Seq::<SearchResult>::empty()) by {
            reveal(Seq::filter);
        }
    } else {
        let rest = s.drop_first();
        assert(s =~= seq![s[0]] + rest);
        rest.lemma_filter_prepend(s[0], p);
        if p(s[0]) {
            assert(with_key(s, field, key)[0] == s[0]);
        } else {
            assert(with_key(s, field, key) == with_key(rest, field, key));
            lemma_group_head(rest, field, key);
            let i = choose|i: int|
                0 <= i < rest.len() && rest[i] == with_key(rest, field, key)[0] && sort_key(
                    rest[i],
                    field,
                ) == key && forall|j: int| 0 <= j < i ==> sort_key(#[trigger] rest[j], field) != key;
            assert forall|j: int| 0 <= j < i + 1 implies sort_key(#[trigger] s[j], field) != key by {
                if j > 0 {
                    assert(s[j] == rest[j - 1]);
                }
            }
            assert(s[i + 1] == rest[i]);
        }
    }
}

} // verus!
