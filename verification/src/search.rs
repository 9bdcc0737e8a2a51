//! The search engine: a pure function from the current table and a query to
//! the ordered set of matching row indices.

use vstd::prelude::*;

use crate::table;
use crate::text;

verus! {

/// A row matches a needle iff its first field contains it as a substring.
pub open spec fn row_matches(row: Seq<Seq<char>>, needle: Seq<char>) -> bool {
    row.len() > 0 && text::contains_sub(row[0], needle)
}

/// The indices of the rows that match `needle`, in ascending order.
pub open spec fn search_idx(t: Seq<Seq<Seq<char>>>, needle: Seq<char>) -> Seq<usize>
    decreases t.len(),
{
    if t.len() == 0 {
        Seq::<usize>::empty()
    } else {
        let rest = search_idx(t.drop_last(), needle);
        if row_matches(t.last(), needle) {
            rest.push((t.len() - 1) as usize)
        } else {
            rest
        }
    }
}

/// What a query yields: nothing when it trims to nothing, else the matching
/// indices.
pub open spec fn search_spec(t: Seq<Seq<Seq<char>>>, q: Seq<char>) -> Seq<usize> {
    let needle = text::trim_spec(q);
    if needle.len() == 0 {
        Seq::<usize>::empty()
    } else {
        search_idx(t, needle)
    }
}

/// The law of the search result: every index it returns is in range and
/// names a matching row, the indices ascend strictly, and every matching row
/// is named.
pub proof fn lemma_search_idx_exact(t: Seq<Seq<Seq<char>>>, needle: Seq<char>)
    requires
        t.len() <= usize::MAX,
    ensures
        forall|k: int|
            0 <= k < search_idx(t, needle).len() ==> (#[trigger] search_idx(t, needle)[k]) < t.len()
                && row_matches(t[search_idx(t, needle)[k] as int], needle),
        forall|k: int|
            0 <= k < search_idx(t, needle).len() - 1 ==> (#[trigger] search_idx(t, needle)[k])
                < search_idx(t, needle)[k + 1],
        forall|j: int|
            0 <= j < t.len() && row_matches(#[trigger] t[j], needle) ==> search_idx(
                t,
                needle,
            ).contains(j as usize),
    decreases t.len(),
{
    if t.len() > 0 {
        lemma_search_idx_exact(t.drop_last(), needle);
        let rest = search_idx(t.drop_last(), needle);
        let whole = search_idx(t, needle);
        assert forall|j: int|
            0 <= j < t.len() && row_matches(#[trigger] t[j], needle) implies whole.contains(
            j as usize,
        ) by {
            if j == t.len() - 1 {
                assert(row_matches(t.last(), needle));
                assert(whole[whole.len() - 1] == (t.len() - 1) as usize);
            } else {
                assert(t.drop_last()[j] == t[j]);
                assert(rest.contains(j as usize));
                let k = choose|k: int| 0 <= k < rest.len() && rest[k] == j as usize;
                assert(whole[k] == j as usize);
            }
        }
    }
}

/// Runs a query against the table.  A query that trims to nothing yields no
/// indices; otherwise a row is named iff its first field contains the
/// trimmed query, and indices come in table order.
pub fn search(t: &Vec<Vec<String>>, query: &str) -> (r: Vec<usize>)
    ensures
        r@ == search_spec(table::row_views(t@), query@),
{
    let needle = text::trim(query);
    if needle.unicode_len() == 0 {
        let r: Vec<usize> = Vec::new();
        proof {
            assert(r@ =~= search_spec(table::row_views(t@), query@));
        }
        return r;
    }
    let ghost tv = table::row_views(t@);
    let n = t.len();
    let mut r: Vec<usize> = Vec::new();
    proof {
        assert(tv.take(0) =~= Seq::<Seq<Seq<char>>>::empty());
        assert(r@ =~= search_idx(tv.take(0), needle@));
    }
    let mut i: usize = 0;
    while i < n
        invariant
            i <= n,
            n == t@.len(),
            tv == table::row_views(t@),
            needle@ == text::trim_spec(query@),
            needle@.len() > 0,
            r@ == search_idx(tv.take(i as int), needle@),
        decreases n - i,
    {
        let row = &t[i];
        proof {
            assert(tv[i as int] == text::str_views(row@));
            assert(tv.take(i as int + 1).drop_last() =~= tv.take(i as int));
            assert(tv.take(i as int + 1).last() == tv[i as int]);
        }
        let hit = if row.len() > 0 {
            proof {
                assert(text::str_views(row@)[0] == row@[0]@);
            }
            text::str_contains(row[0].as_str(), needle)
        } else {
            false
        };
        proof {
            assert(hit == row_matches(tv[i as int], needle@));
        }
        if hit {
            r.push(i);
        }
        i = i + 1;
    }
    proof {
        assert(tv.take(n as int) =~= tv);
    }
    r
}

} // verus!
