use vstd::prelude::*;

use crate::model::SearchResult;

verus! {

/// The ids of `s`, one per line: joined by `'\n'`, with no newline after the last.
pub open spec fn id_lines(s: Seq<SearchResult>) -> Seq<char>
    decreases s.len(),
{
    if s.len() == 0 {
        Seq::empty()
    } else if s.len() == 1 {
        s[0].id@
    } else {
        id_lines(s.drop_last()) + seq!['\n'] + s.last().id@
    }
}

/// How many times `c` occurs in `s`.
pub open spec fn count_char(s: Seq<char>, c: char) -> nat
    decreases s.len(),
{
    if s.len() == 0 {
        0
    } else {
        count_char(s.drop_last(), c) + if s.last() == c {
            1nat
        } else {
            0nat
        }
    }
}

/// Renders the ids of the results, one per line, without a final newline.
pub fn format_ids_only(results: &[SearchResult]) -> (out: String)
    ensures
        out@ == id_lines(results@),
{
    let mut out = String::new();
    let n = results.len();
    let mut i: usize = 0;
    while i < n
        invariant
            n == results@.len(),
            i <= n,
            out@ == id_lines(results@.subrange(0, i as int)),
        decreases n - i,
    {
        assert(results@.subrange(0, i + 1).drop_last() =~= results@.subrange(0, i as int));
        if i > 0 {
            out.append("\n");
            proof {
                reveal_strlit("\n");
            }
        }
        out.append(results[i].id.as_str());
        i = i + 1;
    }
    assert(results@.subrange(0, n as int) =~= results@);
    out
}

proof fn lemma_count_char_concat(a: Seq<char>, b: Seq<char>, c: char)
    ensures
        count_char(a + b, c) == count_char(a, c) + count_char(b, c),
    decreases b.len(),
{
    if b.len() > 0 {
        assert((a + b).drop_last() =~= a + b.drop_last());
        lemma_count_char_concat(a, b.drop_last(), c);
    } else {
        assert(a + b =~= a);
    }
}

/// Rendering the ids one per line puts one newline between each two ids and
/// none after the last, provided that no id holds a newline itself: the text
/// then has one newline fewer than there are results, and ends with the
/// last id.
pub proof fn lemma_id_lines_newlines(s: Seq<SearchResult>)
    requires
        forall|i: int| 0 <= i < s.len() ==> count_char((#[trigger] s[i]).id@, '\n') == 0,
    ensures
        s.len() == 0 ==> id_lines(s).len() == 0,
        s.len() > 0 ==> count_char(id_lines(s), '\n') + 1 == s.len(),
        s.len() > 0 ==> id_lines(s).subrange(
            id_lines(s).len() - s.last().id@.len(),
            id_lines(s).len() as int,
        ) == s.last().id@,
        s.len() > 0 && s.last().id@.len() > 0 ==> id_lines(s).last() != '\n',
    decreases s.len(),
{
    if s.len() > 1 {
        let front = s.drop_last();
        lemma_id_lines_newlines(front);
        lemma_count_char_concat(id_lines(front), seq!['\n'], '\n');
        lemma_count_char_concat(id_lines(front) + seq!['\n'], s.last().id@, '\n');
        assert(count_char(seq!['\n'], '\n') == 1) by {
            assert(seq!['\n'].drop_last() =~= Seq::<char>::empty());
            assert(count_char(Seq::<char>::empty(), '\n') == 0);
            assert(seq!['\n'].last() == '\n');
        }
        let whole = id_lines(s);
        assert(whole.subrange(whole.len() - s.last().id@.len(), whole.len() as int)
            =~= s.last().id@);
        if s.last().id@.len() > 0 {
            assert(whole.last() == s.last().id@.last());
            assert(count_char(s.last().id@, '\n') == 0);
            assert(s.last().id@.last() != '\n') by {
                assert(s.last().id@.len() > 0);
            }
        }
    } else if s.len() == 1 {
        assert(s.last() == s[0]);
        assert(id_lines(s).subrange(0, s[0].id@.len() as int) =~= s[0].id@);
    }
}

} // verus!
