//! Character-level helpers shared by the parsers and the matcher.

use vstd::prelude::*;
use vstd::string::*;

verus! {

/// The characters of `s` after lowering, as `str::to_lowercase` lowers them.
pub uninterp spec fn lower_of(s: Seq<char>) -> Seq<char>;

/// `s` without the white space at its two ends, as `str::trim` cuts it.
pub uninterp spec fn trim_of(s: Seq<char>) -> Seq<char>;

/// Relies on `str::to_lowercase`: the result depends on the characters alone,
/// and the empty string stays empty.
#[verifier::external_body]
pub(crate) fn lowercase(s: &str) -> (r: String)
    ensures
        r@ == lower_of(s@),
        s@.len() == 0 ==> r@.len() == 0,
{
    s.to_lowercase()
}

/// Relies on `str::trim`: the result depends on the characters alone.
#[verifier::external_body]
pub(crate) fn trim(s: &str) -> (r: &str)
    ensures
        r@ == trim_of(s@),
{
    s.trim()
}

/// `suffix` is the tail of `s`.
pub open spec fn ends_with(s: Seq<char>, suffix: Seq<char>) -> bool {
    suffix.len() <= s.len() && s.subrange(s.len() - suffix.len(), s.len() as int) == suffix
}

/// The characters of `s`, one per element.
pub fn chars_of(s: &str) -> (r: Vec<char>)
    ensures
        r@ == s@,
{
    let n = s.unicode_len();
    let mut r: Vec<char> = Vec::new();
    let mut i: usize = 0;
    while i < n
        invariant
            n == s@.len(),
            i <= n,
            r@ == s@.subrange(0, i as int),
        decreases n - i,
    {
        r.push(s.get_char(i));
        i = i + 1;
        assert(r@ =~= s@.subrange(0, i as int));
    }
    assert(r@ =~= s@);
    r
}

/// Whether `a` and `b` hold the same characters.
pub fn same_chars(a: &Vec<char>, b: &Vec<char>) -> (r: bool)
    ensures
        r == (a@ == b@),
{
    if a.len() != b.len() {
        return false;
    }
    let mut i: usize = 0;
    while i < a.len()
        invariant
            a@.len() == b@.len(),
            i <= a@.len(),
            forall|k: int| 0 <= k < i ==> a@[k] == b@[k],
        decreases a@.len() - i,
    {
        if a[i] != b[i] {
            return false;
        }
        i = i + 1;
    }
    assert(a@ =~= b@);
    true
}

/// Whether `a` and `b` hold the same text.
pub fn same_text(a: &str, b: &str) -> (r: bool)
    ensures
        r == (a@ == b@),
{
    same_chars(&chars_of(a), &chars_of(b))
}

/// Whether `c` occurs in `s`.
pub fn has_char(s: &Vec<char>, c: char) -> (r: bool)
    ensures
        r == s@.contains(c),
{
    let mut i: usize = 0;
    while i < s.len()
        invariant
            i <= s@.len(),
            forall|k: int| 0 <= k < i ==> s@[k] != c,
        decreases s@.len() - i,
    {
        if s[i] == c {
            return true;
        }
        i = i + 1;
    }
    false
}

/// Whether `suffix` is the tail of `s`.
pub fn chars_end_with(s: &Vec<char>, suffix: &Vec<char>) -> (r: bool)
    ensures
        r == ends_with(s@, suffix@),
{
    if suffix.len() > s.len() {
        return false;
    }
    let n = s.len();
    let off = n - suffix.len();
    let mut i: usize = 0;
    while i < suffix.len()
        invariant
            n == s@.len(),
            off + suffix@.len() == n,
            i <= suffix@.len(),
            forall|k: int| 0 <= k < i ==> s@[off + k] == suffix@[k],
        decreases suffix@.len() - i,
    {
        if s[off + i] != suffix[i] {
            assert(s@.subrange(off as int, s@.len() as int)[i as int] != suffix@[i as int]);
            return false;
        }
        i = i + 1;
    }
    assert(s@.subrange(off as int, s@.len() as int) =~= suffix@);
    true
}

/// The texts that `v` holds.
pub open spec fn views_of(v: Seq<String>) -> Seq<Seq<char>> {
    v.map_values(|x: String| x@)
}

/// The pieces of `s` between the characters of `seps`, as `str::split`
/// cuts them: one more piece than there are separators, empty ones kept.
pub open spec fn split_seq(s: Seq<char>, seps: Seq<char>) -> Seq<Seq<char>>
    decreases s.len(),
{
    if s.len() == 0 {
        seq![Seq::<char>::empty()]
    } else {
        let init = split_seq(s.drop_last(), seps);
        if seps.contains(s.last()) {
            init.push(Seq::<char>::empty())
        } else {
            init.update(init.len() - 1, init.last().push(s.last()))
        }
    }
}

/// `split_seq` never yields an empty list.
pub proof fn lemma_split_seq_nonempty(s: Seq<char>, seps: Seq<char>)
    ensures
        split_seq(s, seps).len() >= 1,
    decreases s.len(),
{
    if s.len() > 0 {
        lemma_split_seq_nonempty(s.drop_last(), seps);
    }
}

/// Each piece trimmed and lowered; where `drop_empty` holds, pieces that
/// trim to nothing are left out.
pub open spec fn cleaned(pieces: Seq<Seq<char>>, drop_empty: bool) -> Seq<Seq<char>>
    decreases pieces.len(),
{
    if pieces.len() == 0 {
        Seq::<Seq<char>>::empty()
    } else {
        let init = cleaned(pieces.drop_last(), drop_empty);
        let t = trim_of(pieces.last());
        if drop_empty && t.len() == 0 {
            init
        } else {
            init.push(lower_of(t))
        }
    }
}

/// Cuts `s` at every character of `seps`.
pub fn split_text(s: &str, seps: &Vec<char>) -> (r: Vec<String>)
    ensures
        views_of(r@) == split_seq(s@, seps@),
{
    let cs = chars_of(s);
    let mut pieces: Vec<String> = Vec::new();
    let mut start: usize = 0;
    let mut i: usize = 0;
    assert(s@.subrange(0, 0) =~= Seq::<char>::empty());
    assert(views_of(pieces@).push(s@.subrange(0, 0)) =~= seq![Seq::<char>::empty()]);
    while i < cs.len()
        invariant
            cs@ == s@,
            start <= i <= cs@.len(),
            split_seq(s@.subrange(0, i as int), seps@) == views_of(pieces@).push(
                s@.subrange(start as int, i as int),
            ),
        decreases cs@.len() - i,
    {
        let ghost prev = s@.subrange(0, i as int);
        let ghost old_views = views_of(pieces@);
        assert(s@.subrange(0, i + 1).drop_last() =~= prev);
        assert(s@.subrange(0, i + 1).last() == s@[i as int]);
        if has_char(seps, cs[i]) {
            let piece = s.substring_char(start, i).to_owned();
            pieces.push(piece);
            assert(views_of(pieces@) =~= old_views.push(s@.subrange(start as int, i as int)));
            start = i + 1;
            assert(s@.subrange(start as int, start as int) =~= Seq::<char>::empty());
        } else {
            assert(s@.subrange(start as int, i + 1) =~= s@.subrange(start as int, i as int).push(s@[i as int]));
            assert(old_views.push(s@.subrange(start as int, i as int)).update(
                old_views.len() as int,
                s@.subrange(start as int, i + 1),
            ) =~= old_views.push(s@.subrange(start as int, i + 1)));
        }
        i = i + 1;
    }
    let last = s.substring_char(start, cs.len()).to_owned();
    let ghost old_views = views_of(pieces@);
    pieces.push(last);
    assert(views_of(pieces@) =~= old_views.push(s@.subrange(start as int, cs@.len() as int)));
    assert(s@.subrange(0, cs@.len() as int) =~= s@);
    pieces
}

/// Cuts `s` at every character of `seps`, then trims and lowers each
/// piece; where `drop_empty` holds, pieces that trim to nothing are left out.
pub fn list_entries(s: &str, seps: &Vec<char>, drop_empty: bool) -> (r: Vec<String>)
    ensures
        views_of(r@) == cleaned(split_seq(s@, seps@), drop_empty),
{
    let pieces = split_text(s, seps);
    let mut out: Vec<String> = Vec::new();
    let mut i: usize = 0;
    assert(views_of(pieces@).subrange(0, 0) =~= Seq::<Seq<char>>::empty());
    assert(views_of(out@) =~= Seq::<Seq<char>>::empty());
    while i < pieces.len()
        invariant
            i <= pieces@.len(),
            views_of(out@) == cleaned(views_of(pieces@).subrange(0, i as int), drop_empty),
        decreases pieces@.len() - i,
    {
        let ghost vs = views_of(pieces@);
        assert(vs.subrange(0, i + 1).drop_last() =~= vs.subrange(0, i as int));
        assert(vs.subrange(0, i + 1).last() == pieces@[i as int]@);
        let t = trim(pieces[i].as_str());
        if !(drop_empty && t.unicode_len() == 0) {
            let ghost old_views = views_of(out@);
            out.push(lowercase(t));
            assert(views_of(out@) =~= old_views.push(lower_of(t@)));
        }
        i = i + 1;
    }
    assert(views_of(pieces@).subrange(0, pieces@.len() as int) =~= views_of(pieces@));
    out
}

} // verus!
