//! Assembly of a directory listing for the picker: which children are kept
//! and in what order they are shown.  The filesystem walk itself happens
//! outside the library; it hands over each child's path and directory flag.

use vstd::prelude::*;

use crate::text;
use vstd::multiset::Multiset;

verus! {

broadcast use {
    vstd::seq_lib::group_to_multiset_ensures,
    vstd::multiset::group_multiset_axioms,
    vstd::seq_lib::group_filter_ensures,
};

/// One navigable item of the picker: a path and whether it is a directory.
pub struct Entry {
    pub path: String,
    pub is_dir: bool,
}

/// A child is kept iff it is a directory or carries a recognized suffix.
pub open spec fn retained(e: Entry) -> bool {
    e.is_dir || text::recognized_ext(e.path@)
}

/// The retained children, in the order they were scanned.
pub open spec fn retained_of(s: Seq<Entry>) -> Seq<Entry>
    decreases s.len(),
{
    if s.len() == 0 {
        Seq::<Entry>::empty()
    } else {
        let rest = retained_of(s.drop_last());
        if retained(s.last()) {
            rest.push(s.last())
        } else {
            rest
        }
    }
}

/// Every entry the filter keeps satisfies the retained-kind predicate.
pub proof fn lemma_retained_of_elems(s: Seq<Entry>)
    ensures
        forall|i: int| 0 <= i < retained_of(s).len() ==> retained(#[trigger] retained_of(s)[i]),
    decreases s.len(),
{
    if s.len() > 0 {
        lemma_retained_of_elems(s.drop_last());
        let rest = retained_of(s.drop_last());
        assert forall|i: int|
            0 <= i < retained_of(s).len() implies retained(#[trigger] retained_of(s)[i]) by {
            if retained(s.last()) && i == rest.len() {
                assert(retained_of(s)[i] == s.last());
            } else {
                assert(retained_of(s)[i] == rest[i]);
            }
        }
    }
}

/// Directories order before files; within one kind, paths order by their
/// case-folded key.
pub open spec fn entry_le(a: Entry, b: Entry) -> bool {
    if a.is_dir != b.is_dir {
        a.is_dir
    } else {
        text::lex_le(text::lower_of(a.path@), text::lower_of(b.path@))
    }
}

pub open spec fn entries_sorted(s: Seq<Entry>) -> bool {
    forall|i: int| 0 <= i < s.len() - 1 ==> entry_le(#[trigger] s[i], s[i + 1])
}

pub proof fn lemma_entry_le_total(a: Entry, b: Entry)
    ensures
        entry_le(a, b) || entry_le(b, a),
{
    if a.is_dir == b.is_dir {
        text::lemma_lex_le_total(text::lower_of(a.path@), text::lower_of(b.path@));
    }
}

fn entry_le_exec(a: &Entry, b: &Entry) -> (r: bool)
    ensures
        r == entry_le(*a, *b),
{
    if a.is_dir != b.is_dir {
        a.is_dir
    } else {
        let ka = text::lower_key(a.path.as_str());
        let kb = text::lower_key(b.path.as_str());
        text::str_le(ka.as_str(), kb.as_str())
    }
}

fn insert_sorted(v: Vec<Entry>, e: Entry) -> (r: Vec<Entry>)
    requires
        entries_sorted(v@),
    ensures
        entries_sorted(r@),
        r@.to_multiset() == v@.to_multiset().insert(e),
        r@.len() == v@.len() + 1,
{
    let mut v = v;
    let mut j: usize = 0;
    while j < v.len() && entry_le_exec(&v[j], &e)
        invariant
            j <= v@.len(),
            entries_sorted(v@),
            forall|k: int| 0 <= k < j ==> entry_le(#[trigger] v@[k], e),
        decreases v@.len() - j,
    {
        j = j + 1;
    }
    proof {
        if j < v@.len() {
            lemma_entry_le_total(v@[j as int], e);
        }
    }
    let ghost s = v@;
    v.insert(j, e);
    proof {
        let t = v@;
        assert forall|k: int| 0 <= k < t.len() - 1 implies entry_le(#[trigger] t[k], t[k + 1]) by {
            if k + 1 < j {
                assert(t[k] == s[k] && t[k + 1] == s[k + 1]);
            } else if k + 1 == j {
                assert(t[k] == s[k] && t[k + 1] == e);
            } else if k == j {
                assert(t[k] == e && t[k + 1] == s[k]);
            } else {
                assert(t[k] == s[k - 1] && t[k + 1] == s[k]);
            }
        }
    }
    v
}

fn sort_entries(v: Vec<Entry>) -> (r: Vec<Entry>)
    ensures
        entries_sorted(r@),
        r@.to_multiset() == v@.to_multiset(),
{
    let ghost orig = v@;
    let mut v = v;
    let mut out: Vec<Entry> = Vec::new();
    proof {
        assert(out@.to_multiset() =~= Multiset::<Entry>::empty());
        assert(out@.to_multiset().add(v@.to_multiset()) =~= orig.to_multiset());
    }
    while v.len() > 0
        invariant
            entries_sorted(out@),
            out@.to_multiset().add(v@.to_multiset()) == orig.to_multiset(),
        decreases v@.len(),
    {
        let ghost prev_out = out@;
        let ghost prev_v = v@;
        let e = v.remove(0);
        out = insert_sorted(out, e);
        proof {
            assert(prev_v.contains(prev_v[0]));
            assert(out@.to_multiset().add(v@.to_multiset()) =~= prev_out.to_multiset().add(
                prev_v.to_multiset(),
            ));
        }
    }
    proof {
        assert(v@.to_multiset() =~= Multiset::<Entry>::empty());
        assert(out@.to_multiset() =~= orig.to_multiset());
    }
    out
}

fn keep_retained(children: Vec<Entry>) -> (r: Vec<Entry>)
    ensures
        r@ == retained_of(children@),
{
    let ghost orig = children@;
    let n = children.len();
    let mut v = children;
    let mut kept: Vec<Entry> = Vec::new();
    proof {
        assert(orig.take(0) =~= Seq::<Entry>::empty());
    }
    let mut i: usize = 0;
    while v.len() > 0
        invariant
            i + v@.len() == n == orig.len(),
            v@ == orig.skip(i as int),
            kept@ == retained_of(orig.take(i as int)),
        decreases v@.len(),
    {
        let e = v.remove(0);
        let keep = if e.is_dir {
            true
        } else {
            text::has_recognized_ext(e.path.as_str())
        };
        proof {
            assert(v@ =~= orig.skip(i as int + 1));
            assert(orig.take(i as int + 1).drop_last() =~= orig.take(i as int));
            assert(orig.take(i as int + 1).last() == orig[i as int]);
            assert(keep == retained(orig[i as int]));
        }
        if keep {
            kept.push(e);
        }
        i = i + 1;
    }
    proof {
        assert(orig.take(i as int) =~= orig);
    }
    kept
}

/// Builds the picker listing from the scanned directory's parent and its
/// immediate children.  The parent, when there is one, stands first whatever
/// it is named; the retained children follow, directories before files and
/// case-insensitively by path within one kind.
pub fn scan_assemble(parent: Option<String>, children: Vec<Entry>) -> (r: Vec<Entry>)
    ensures
        parent is Some ==> r@.len() == 1 + retained_of(children@).len() && r@[0].path
            == parent->0 && r@[0].is_dir && entries_sorted(r@.skip(1)) && r@.skip(1).to_multiset()
            == retained_of(children@).to_multiset(),
        parent is None ==> entries_sorted(r@) && r@.to_multiset() == retained_of(
            children@,
        ).to_multiset() && r@.len() == retained_of(children@).len(),
        forall|i: int|
            (if parent is Some {
                1int
            } else {
                0int
            }) <= i < r@.len() ==> retained(#[trigger] r@[i]),
{
    let kept = keep_retained(children);
    let ghost f = retained_of(children@);
    let mut sorted = sort_entries(kept);
    let ghost sv = sorted@;
    proof {
        assert(sv.to_multiset().len() == sv.len());
        assert(f.to_multiset().len() == f.len());
    }
    let r = match parent {
        Some(p) => {
            let mut r: Vec<Entry> = Vec::new();
            r.push(Entry { path: p, is_dir: true });
            r.append(&mut sorted);
            proof {
                assert(r@.skip(1) =~= sv);
            }
            r
        },
        None => sorted,
    };
    proof {
        let ghost base: int = if parent is Some {
            1int
        } else {
            0int
        };
        let t = r@.skip(base);
        if parent is None {
            assert(t =~= r@);
        }
        assert(t == sv);
        assert(t.to_multiset() == f.to_multiset());
        assert forall|i: int| base <= i < r@.len() implies retained(#[trigger] r@[i]) by {
            assert(t[i - base] == r@[i]);
            assert(t.contains(t[i - base]));
            assert(t.to_multiset().count(t[i - base]) > 0);
            assert(f.contains(t[i - base]));
            let j = choose|j: int| 0 <= j < f.len() && f[j] == t[i - base];
            lemma_retained_of_elems(children@);
            assert(retained(f[j]));
        }
    }
    r
}

} // verus!
