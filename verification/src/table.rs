//! Turning the lines of a loaded file into table rows: comment lines are
//! skipped, the rest are split on tabs, and only rows wide enough to carry a
//! full record are kept.

use vstd::prelude::*;

use crate::text;

verus! {

/// The fewest fields a stored row may have.
pub open spec fn min_fields() -> int {
    11
}

/// A line becomes a row iff it is no comment and splits into enough fields.
pub open spec fn line_kept(line: Seq<char>) -> bool {
    !(line.len() > 0 && line[0] == '@') && text::split_tabs(line).len() >= min_fields()
}

/// The rows a sequence of lines yields, in order.
pub open spec fn rows_of(lines: Seq<Seq<char>>) -> Seq<Seq<Seq<char>>>
    decreases lines.len(),
{
    if lines.len() == 0 {
        Seq::<Seq<Seq<char>>>::empty()
    } else {
        let rest = rows_of(lines.drop_last());
        if line_kept(lines.last()) {
            rest.push(text::split_tabs(lines.last()))
        } else {
            rest
        }
    }
}

/// The views of a table of owned rows.
pub open spec fn row_views(t: Seq<Vec<String>>) -> Seq<Seq<Seq<char>>> {
    t.map_values(|r: Vec<String>| text::str_views(r@))
}

/// A stored row is wide enough and does not come from a comment line.
pub open spec fn wf_row(row: Seq<Seq<char>>) -> bool {
    row.len() >= min_fields() && !(row[0].len() > 0 && row[0][0] == '@')
}

/// The first field of a split line starts with the line's first character.
proof fn lemma_split_tabs_first(l: Seq<char>)
    ensures
        l.len() == 0 || l[0] == '\t' ==> text::split_tabs(l)[0].len() == 0,
        l.len() > 0 && l[0] != '\t' ==> text::split_tabs(l)[0].len() > 0 && text::split_tabs(
            l,
        )[0][0] == l[0],
{
    if l.len() > 0 && l[0] != '\t' {
        text::lemma_split_tabs_len(l.drop_first());
    }
}

/// Every row a load yields has at least the minimum field count, and none
/// comes from a comment line.
pub proof fn lemma_rows_of_wf(lines: Seq<Seq<char>>)
    ensures
        forall|i: int| 0 <= i < rows_of(lines).len() ==> wf_row(#[trigger] rows_of(lines)[i]),
    decreases lines.len(),
{
    if lines.len() > 0 {
        lemma_rows_of_wf(lines.drop_last());
        let rest = rows_of(lines.drop_last());
        assert forall|i: int|
            0 <= i < rows_of(lines).len() implies wf_row(#[trigger] rows_of(lines)[i]) by {
            if line_kept(lines.last()) && i == rest.len() {
                let l = lines.last();
                let row = text::split_tabs(l);
                assert(rows_of(lines)[i] == row);
                lemma_split_tabs_first(l);
                if row[0].len() > 0 {
                    assert(l.len() > 0 && l[0] != '\t');
                    assert(row[0][0] == l[0]);
                    assert(l[0] != '@');
                }
            } else {
                assert(rows_of(lines)[i] == rest[i]);
            }
        }
    }
}

/// Builds the in-memory table from a file's lines: drops lines that begin
/// with the comment marker, splits the rest on tabs, and keeps a row iff it
/// has at least the minimum field count.
pub fn build_table(lines: &Vec<String>) -> (r: Vec<Vec<String>>)
    ensures
        row_views(r@) == rows_of(text::str_views(lines@)),
        forall|i: int| 0 <= i < r@.len() ==> wf_row(#[trigger] row_views(r@)[i]),
        forall|i: int| 0 <= i < r@.len() ==> (#[trigger] r@[i])@.len() >= min_fields(),
{
    let ghost lv = text::str_views(lines@);
    let n = lines.len();
    let mut r: Vec<Vec<String>> = Vec::new();
    proof {
        assert(lv.take(0) =~= Seq::<Seq<char>>::empty());
        assert(row_views(r@) =~= rows_of(lv.take(0)));
    }
    let mut i: usize = 0;
    while i < n
        invariant
            i <= n,
            n == lines@.len(),
            lv == text::str_views(lines@),
            row_views(r@) == rows_of(lv.take(i as int)),
        decreases n - i,
    {
        let line = &lines[i];
        let ll = line.as_str().unicode_len();
        proof {
            assert(lv[i as int] == line@);
            assert(lv.take(i as int + 1).drop_last() =~= lv.take(i as int));
            assert(lv.take(i as int + 1).last() == lv[i as int]);
        }
        let is_comment = ll > 0 && line.as_str().get_char(0) == '@';
        if !is_comment {
            let fields = text::split_tab_line(line.as_str());
            proof {
                assert(fields@.len() == text::str_views(fields@).len());
            }
            if fields.len() >= 11 {
                let ghost prev = r@;
                r.push(fields);
                proof {
                    assert(row_views(r@) =~= row_views(prev).push(text::split_tabs(line@)));
                }
            }
        }
        i = i + 1;
    }
    proof {
        assert(lv.take(n as int) =~= lv);
        lemma_rows_of_wf(lv);
        assert forall|i: int| 0 <= i < r@.len() implies (#[trigger] r@[i])@.len() >= min_fields() by {
            assert(row_views(r@)[i] == text::str_views(r@[i]@));
        }
    }
    r
}

} // verus!
