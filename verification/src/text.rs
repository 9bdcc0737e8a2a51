//! Character and string helpers shared by the scanner, the loader and the
//! search engine: whitespace trimming, lexicographic comparison, substring
//! containment, tab splitting and path-extension inspection.

use vstd::prelude::*;
use vstd::string::StrSliceExecFns;

verus! {

/// The Unicode white-space characters, the set `char::is_whitespace` accepts.
pub open spec fn is_space_char(c: char) -> bool {
    let n = c as u32;
    n == 0x09 || n == 0x0A || n == 0x0B || n == 0x0C || n == 0x0D || n == 0x20 || n == 0x85
        || n == 0xA0 || n == 0x1680 || (0x2000 <= n && n <= 0x200A) || n == 0x2028 || n == 0x2029
        || n == 0x202F || n == 0x205F || n == 0x3000
}

pub fn is_space(c: char) -> (r: bool)
    ensures
        r == is_space_char(c),
{
    let n = c as u32;
    n == 0x09 || n == 0x0A || n == 0x0B || n == 0x0C || n == 0x0D || n == 0x20 || n == 0x85
        || n == 0xA0 || n == 0x1680 || (0x2000 <= n && n <= 0x200A) || n == 0x2028 || n == 0x2029
        || n == 0x202F || n == 0x205F || n == 0x3000
}

/// What remains of `s` once leading white space is removed.
pub open spec fn trim_start_spec(s: Seq<char>) -> Seq<char>
    decreases s.len(),
{
    if s.len() > 0 && is_space_char(s[0]) {
        trim_start_spec(s.drop_first())
    } else {
        s
    }
}

/// What remains of `s` once trailing white space is removed.
pub open spec fn trim_end_spec(s: Seq<char>) -> Seq<char>
    decreases s.len(),
{
    if s.len() > 0 && is_space_char(s.last()) {
        trim_end_spec(s.drop_last())
    } else {
        s
    }
}

/// What remains of `s` once white space is removed from both ends.
pub open spec fn trim_spec(s: Seq<char>) -> Seq<char> {
    trim_end_spec(trim_start_spec(s))
}

/// Strips white space from both ends of a string.
pub fn trim(s: &str) -> (r: &str)
    ensures
        r@ == trim_spec(s@),
{
    let n = s.unicode_len();
    proof {
        assert(s@.skip(0) =~= s@);
    }
    let mut lo: usize = 0;
    while lo < n && is_space(s.get_char(lo))
        invariant
            lo <= n,
            n == s@.len(),
            trim_start_spec(s@) == trim_start_spec(s@.skip(lo as int)),
        decreases n - lo,
    {
        proof {
            assert(s@.skip(lo as int).drop_first() =~= s@.skip(lo as int + 1));
        }
        lo = lo + 1;
    }
    proof {
        assert(trim_start_spec(s@) == s@.skip(lo as int));
    }
    let ghost t = s@.skip(lo as int);
    proof {
        assert(t.take(n - lo as int) =~= t);
    }
    let mut hi: usize = n;
    while hi > lo && is_space(s.get_char(hi - 1))
        invariant
            lo <= hi <= n,
            n == s@.len(),
            t == s@.skip(lo as int),
            trim_end_spec(t) == trim_end_spec(t.take(hi - lo as int)),
        decreases hi,
    {
        proof {
            assert(t.take(hi - lo as int).last() == s@[hi - 1]);
            assert(t.take(hi - lo as int).drop_last() =~= t.take(hi - 1 - lo as int));
        }
        hi = hi - 1;
    }
    proof {
        if hi > lo {
            assert(t.take(hi - lo as int).last() == s@[hi - 1]);
        }
        assert(trim_end_spec(t) == t.take(hi - lo as int));
        assert(s@.subrange(lo as int, hi as int) =~= t.take(hi - lo as int));
    }
    s.substring_char(lo, hi)
}

/// Lexicographic order on character sequences by code point.
pub open spec fn lex_le(a: Seq<char>, b: Seq<char>) -> bool
    decreases a.len(),
{
    if a.len() == 0 {
        true
    } else if b.len() == 0 {
        false
    } else if (a[0] as u32) < (b[0] as u32) {
        true
    } else if (a[0] as u32) > (b[0] as u32) {
        false
    } else {
        lex_le(a.drop_first(), b.drop_first())
    }
}

/// Of two sequences, at least one is lexicographically at most the other.
pub proof fn lemma_lex_le_total(a: Seq<char>, b: Seq<char>)
    ensures
        lex_le(a, b) || lex_le(b, a),
    decreases a.len(),
{
    if a.len() > 0 && b.len() > 0 && a[0] as u32 == b[0] as u32 {
        lemma_lex_le_total(a.drop_first(), b.drop_first());
    }
}

/// Compares two strings in the order `lex_le` describes.
pub fn str_le(a: &str, b: &str) -> (r: bool)
    ensures
        r == lex_le(a@, b@),
{
    let la = a.unicode_len();
    let lb = b.unicode_len();
    proof {
        assert(a@.skip(0) =~= a@);
        assert(b@.skip(0) =~= b@);
    }
    let mut i: usize = 0;
    loop
        invariant
            i <= la,
            i <= lb,
            la == a@.len(),
            lb == b@.len(),
            lex_le(a@, b@) == lex_le(a@.skip(i as int), b@.skip(i as int)),
        decreases la - i,
    {
        if i >= la {
            return true;
        }
        if i >= lb {
            return false;
        }
        let ca = a.get_char(i);
        let cb = b.get_char(i);
        if (ca as u32) < (cb as u32) {
            return true;
        }
        if (ca as u32) > (cb as u32) {
            return false;
        }
        proof {
            assert(a@.skip(i as int).drop_first() =~= a@.skip(i as int + 1));
            assert(b@.skip(i as int).drop_first() =~= b@.skip(i as int + 1));
        }
        i = i + 1;
    }
}

/// `needle` occurs somewhere in `hay` as a contiguous run.
pub open spec fn contains_sub(hay: Seq<char>, needle: Seq<char>) -> bool {
    exists|i: int|
        0 <= i <= hay.len() - needle.len() && #[trigger] hay.subrange(i, i + needle.len() as int)
            == needle
}

fn match_at(hay: &str, needle: &str, at: usize) -> (r: bool)
    requires
        at + needle@.len() <= hay@.len(),
    ensures
        r == (hay@.subrange(at as int, at + needle@.len() as int) == needle@),
{
    let hl = hay.unicode_len();
    let nl = needle.unicode_len();
    let mut k: usize = 0;
    while k < nl
        invariant
            k <= nl,
            hl == hay@.len(),
            nl == needle@.len(),
            at + nl <= hl,
            forall|j: int| 0 <= j < k ==> hay@[at + j] == needle@[j],
        decreases nl - k,
    {
        let hc = hay.get_char(at + k);
        let nc = needle.get_char(k);
        if hc != nc {
            proof {
                assert(hay@.subrange(at as int, at + nl as int)[k as int] == hay@[at + k]);
            }
            return false;
        }
        k = k + 1;
    }
    proof {
        assert(hay@.subrange(at as int, at + nl as int) =~= needle@);
    }
    true
}

/// Decides whether `needle` occurs in `hay` as a literal substring.
pub fn str_contains(hay: &str, needle: &str) -> (r: bool)
    ensures
        r == contains_sub(hay@, needle@),
{
    let hl = hay.unicode_len();
    let nl = needle.unicode_len();
    if nl > hl {
        return false;
    }
    if nl == 0 {
        proof {
            assert(hay@.subrange(0, 0 + needle@.len() as int) =~= needle@);
        }
        return true;
    }
    let mut i: usize = 0;
    while i <= hl - nl
        invariant
            0 < nl <= hl,
            hl == hay@.len(),
            nl == needle@.len(),
            i <= hl - nl + 1,
            forall|j: int|
                0 <= j < i ==> #[trigger] hay@.subrange(j, j + nl as int) != needle@,
        decreases hl - i,
    {
        if match_at(hay, needle, i) {
            proof {
                assert(hay@.subrange(i as int, i + nl as int) == needle@);
            }
            return true;
        }
        i = i + 1;
    }
    false
}

/// The views of a sequence of owned strings.
pub open spec fn str_views(v: Seq<String>) -> Seq<Seq<char>> {
    v.map_values(|s: String| s@)
}

/// The fields of `s` split on the tab character.  An empty input gives one
/// empty field, as splitting a string on a delimiter does.
pub open spec fn split_tabs(s: Seq<char>) -> Seq<Seq<char>>
    decreases s.len(),
{
    if s.len() == 0 {
        seq![Seq::<char>::empty()]
    } else if s[0] == '\t' {
        seq![Seq::<char>::empty()] + split_tabs(s.drop_first())
    } else {
        let rest = split_tabs(s.drop_first());
        seq![seq![s[0]] + rest[0]] + rest.drop_first()
    }
}

pub proof fn lemma_split_tabs_len(s: Seq<char>)
    ensures
        split_tabs(s).len() >= 1,
    decreases s.len(),
{
    if s.len() > 0 {
        lemma_split_tabs_len(s.drop_first());
    }
}

/// How one more character extends the split of a line.
pub proof fn lemma_split_tabs_push(s: Seq<char>, c: char)
    ensures
        c == '\t' ==> split_tabs(s.push(c)) == split_tabs(s).push(Seq::<char>::empty()),
        c != '\t' ==> split_tabs(s.push(c)) == split_tabs(s).update(
            split_tabs(s).len() - 1,
            split_tabs(s).last().push(c),
        ),
    decreases s.len(),
{
    lemma_split_tabs_len(s);
    if s.len() == 0 {
        assert(s.push(c).drop_first() =~= s);
        if c == '\t' {
            assert(seq![Seq::<char>::empty()] + split_tabs(s) =~= split_tabs(s).push(
                Seq::<char>::empty(),
            ));
        } else {
            assert(seq![c] + split_tabs(s)[0] =~= split_tabs(s).last().push(c));
            assert(seq![seq![c] + split_tabs(s)[0]] + split_tabs(s).drop_first() =~= split_tabs(
                s,
            ).update(split_tabs(s).len() - 1, split_tabs(s).last().push(c)));
        }
    } else {
        let t = s.drop_first();
        lemma_split_tabs_len(t);
        assert(s.push(c).drop_first() =~= t.push(c));
        lemma_split_tabs_push(t, c);
        if s[0] == '\t' {
            if c == '\t' {
                assert(seq![Seq::<char>::empty()] + split_tabs(t).push(Seq::<char>::empty())
                    =~= (seq![Seq::<char>::empty()] + split_tabs(t)).push(Seq::<char>::empty()));
            } else {
                let n = split_tabs(t).len();
                assert(split_tabs(t).update(n - 1, split_tabs(t).last().push(c)).len() == n);
                assert(seq![Seq::<char>::empty()] + split_tabs(t).update(
                    n - 1,
                    split_tabs(t).last().push(c),
                ) =~= (seq![Seq::<char>::empty()] + split_tabs(t)).update(
                    n as int,
                    (seq![Seq::<char>::empty()] + split_tabs(t)).last().push(c),
                ));
            }
        } else {
            let rest = split_tabs(t);
            let n = rest.len();
            if c == '\t' {
                assert(rest.push(Seq::<char>::empty())[0] == rest[0]);
                assert(seq![seq![s[0]] + rest[0]] + rest.push(Seq::<char>::empty()).drop_first()
                    =~= (seq![seq![s[0]] + rest[0]] + rest.drop_first()).push(
                    Seq::<char>::empty(),
                ));
            } else {
                let rest2 = rest.update(n - 1, rest.last().push(c));
                assert(rest2.len() == n);
                if n == 1 {
                    assert(rest2[0] == rest.last().push(c));
                    assert(seq![s[0]] + rest2[0] =~= (seq![s[0]] + rest[0]).push(c));
                    assert(seq![seq![s[0]] + rest2[0]] + rest2.drop_first() =~= (seq![
                        seq![s[0]] + rest[0],
                    ] + rest.drop_first()).update(0, (seq![s[0]] + rest[0]).push(c)));
                    let whole = seq![seq![s[0]] + rest[0]] + rest.drop_first();
                    assert(whole.len() == 1);
                    assert(whole.last() == seq![s[0]] + rest[0]);
                } else {
                    assert(rest2[0] == rest[0]);
                    let whole = seq![seq![s[0]] + rest[0]] + rest.drop_first();
                    assert(whole.last() == rest.last());
                    assert(seq![seq![s[0]] + rest2[0]] + rest2.drop_first() =~= whole.update(
                        whole.len() - 1,
                        whole.last().push(c),
                    ));
                }
            }
        }
    }
}

/// Splits a line on tab characters into owned fields.
pub fn split_tab_line(s: &str) -> (r: Vec<String>)
    ensures
        str_views(r@) == split_tabs(s@),
{
    let n = s.unicode_len();
    let mut out: Vec<String> = Vec::new();
    let mut start: usize = 0;
    let mut i: usize = 0;
    proof {
        assert(s@.take(0) =~= Seq::<char>::empty());
        assert(s@.subrange(0, 0) =~= Seq::<char>::empty());
        assert(str_views(out@).push(s@.subrange(0, 0)) =~= split_tabs(s@.take(0)));
    }
    while i < n
        invariant
            start <= i <= n,
            n == s@.len(),
            split_tabs(s@.take(i as int)) == str_views(out@).push(
                s@.subrange(start as int, i as int),
            ),
        decreases n - i,
    {
        let c = s.get_char(i);
        proof {
            lemma_split_tabs_push(s@.take(i as int), s@[i as int]);
            assert(s@.take(i as int).push(s@[i as int]) =~= s@.take(i as int + 1));
            lemma_split_tabs_len(s@.take(i as int));
        }
        if c == '\t' {
            let field = s.substring_char(start, i).to_owned();
            proof {
                let prev = str_views(out@).push(s@.subrange(start as int, i as int));
                assert(s@.subrange(i as int + 1, i as int + 1) =~= Seq::<char>::empty());
                assert(str_views(out@.push(field)).push(s@.subrange(i as int + 1, i as int + 1))
                    =~= prev.push(Seq::<char>::empty()));
            }
            out.push(field);
            start = i + 1;
        } else {
            proof {
                let prev = str_views(out@).push(s@.subrange(start as int, i as int));
                assert(s@.subrange(start as int, i as int).push(s@[i as int]) =~= s@.subrange(
                    start as int,
                    i as int + 1,
                ));
                assert(prev.last() == s@.subrange(start as int, i as int));
                assert(str_views(out@).push(s@.subrange(start as int, i as int + 1)) =~= prev
                    .update(prev.len() - 1, prev.last().push(s@[i as int])));
            }
        }
        i = i + 1;
    }
    let field = s.substring_char(start, n).to_owned();
    proof {
        assert(s@.take(n as int) =~= s@);
        assert(str_views(out@.push(field)) =~= str_views(out@).push(
            s@.subrange(start as int, n as int),
        ));
    }
    out.push(field);
    out
}

/// The last position of `c` in `s`, or -1 when `c` does not occur.
pub open spec fn last_index_of_char(s: Seq<char>, c: char) -> int
    decreases s.len(),
{
    if s.len() == 0 {
        -1
    } else if s.last() == c {
        s.len() - 1
    } else {
        last_index_of_char(s.drop_last(), c)
    }
}

pub proof fn lemma_last_index_of_char(s: Seq<char>, c: char)
    ensures
        -1 <= last_index_of_char(s, c) < s.len(),
    decreases s.len(),
{
    if s.len() > 0 && s.last() != c {
        lemma_last_index_of_char(s.drop_last(), c);
    }
}

/// Finds the last occurrence of `c` in `s`.
pub fn rfind_char(s: &str, c: char) -> (r: Option<usize>)
    ensures
        match r {
            Some(i) => last_index_of_char(s@, c) == i as int,
            None => last_index_of_char(s@, c) == -1,
        },
{
    let n = s.unicode_len();
    proof {
        assert(s@.take(n as int) =~= s@);
    }
    let mut i: usize = n;
    while i > 0
        invariant
            i <= n,
            n == s@.len(),
            last_index_of_char(s@, c) == last_index_of_char(s@.take(i as int), c),
        decreases i,
    {
        if s.get_char(i - 1) == c {
            proof {
                assert(s@.take(i as int).last() == s@[i - 1]);
            }
            return Some(i - 1);
        }
        proof {
            assert(s@.take(i as int).last() == s@[i - 1]);
            assert(s@.take(i as int).drop_last() =~= s@.take(i as int - 1));
        }
        i = i - 1;
    }
    proof {
        assert(s@.take(0) =~= Seq::<char>::empty());
    }
    None
}

/// The final path component: what follows the last separator.
pub open spec fn file_name_of(p: Seq<char>) -> Seq<char> {
    p.skip(last_index_of_char(p, '/') + 1)
}

/// The extension of a path: what follows the last dot of the file name,
/// unless that dot leads the name or no dot is there.
pub open spec fn ext_of(p: Seq<char>) -> Option<Seq<char>> {
    let name = file_name_of(p);
    let d = last_index_of_char(name, '.');
    if d <= 0 {
        None
    } else {
        Some(name.skip(d + 1))
    }
}

/// The alignment-file suffixes the picker recognizes.
pub open spec fn recognized_ext(p: Seq<char>) -> bool {
    ext_of(p) == Some(seq!['s', 'a', 'm']) || ext_of(p) == Some(seq!['b', 'a', 'm'])
}

/// Decides whether a path carries a recognized alignment-file suffix.
pub fn has_recognized_ext(p: &str) -> (r: bool)
    ensures
        r == recognized_ext(p@),
{
    let n = p.unicode_len();
    proof {
        lemma_last_index_of_char(p@, '/');
    }
    let name_start: usize = match rfind_char(p, '/') {
        Some(i) => i + 1,
        None => 0,
    };
    let name = p.substring_char(name_start, n);
    proof {
        assert(name@ =~= file_name_of(p@));
        lemma_last_index_of_char(name@, '.');
    }
    let d: usize = match rfind_char(name, '.') {
        Some(i) => i,
        None => {
            return false;
        },
    };
    if d == 0 {
        return false;
    }
    let nl = name.unicode_len();
    let ext = name.substring_char(d + 1, nl);
    proof {
        assert(ext@ =~= file_name_of(p@).skip(last_index_of_char(file_name_of(p@), '.') + 1));
    }
    if ext.unicode_len() != 3 {
        proof {
            assert(seq!['s', 'a', 'm'].len() == 3);
            assert(seq!['b', 'a', 'm'].len() == 3);
        }
        return false;
    }
    let c0 = ext.get_char(0);
    let c1 = ext.get_char(1);
    let c2 = ext.get_char(2);
    let r = (c0 == 's' || c0 == 'b') && c1 == 'a' && c2 == 'm';
    proof {
        if r {
            if c0 == 's' {
                assert(ext@ =~= seq!['s', 'a', 'm']);
            } else {
                assert(ext@ =~= seq!['b', 'a', 'm']);
            }
        } else {
            assert(ext@ != seq!['s', 'a', 'm']);
            assert(ext@ != seq!['b', 'a', 'm']);
        }
    }
    r
}

/// What `str::to_lowercase` returns: a function of the characters alone.
pub uninterp spec fn lower_of(s: Seq<char>) -> Seq<char>;

/// Relies on `str::to_lowercase`, whose result depends only on the input
/// characters; the scanner orders entries by this key.
#[verifier::external_body]
pub(crate) fn lower_key(s: &str) -> (r: String)
    ensures
        r@ == lower_of(s@),
{
    s.to_lowercase()
}

/// Relies on `String::push`: appends exactly the one character.
#[verifier::external_body]
pub(crate) fn push_char(s: &mut String, c: char)
    ensures
        final(s)@ == old(s)@.push(c),
{
    s.push(c)
}

} // verus!
