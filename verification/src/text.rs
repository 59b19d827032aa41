//! Character-level text operations used by the editor: padding, substring
//! search, placeholder replacement and file-extension handling.

use vstd::prelude::*;

verus! {

/// A sequence of `n` spaces.
pub open spec fn spaces(n: nat) -> Seq<char> {
    Seq::new(n, |_i: int| ' ')
}

/// `pat` occurs in `s` starting at position `i`.
pub open spec fn occurs_at(s: Seq<char>, pat: Seq<char>, i: int) -> bool {
    0 <= i && i + pat.len() <= s.len() && s.subrange(i, i + pat.len()) == pat
}

/// `pat` occurs somewhere in `s` (the empty pattern occurs everywhere).
pub open spec fn contains_seq(s: Seq<char>, pat: Seq<char>) -> bool {
    exists|i: int| occurs_at(s, pat, i)
}

/// `s` with every match of `pat` replaced by `rep`, matches taken from the
/// left and not overlapping; an empty pattern matches before every
/// character and at the end.
pub open spec fn replaced(s: Seq<char>, pat: Seq<char>, rep: Seq<char>) -> Seq<char>
    decreases s.len(),
{
    if pat.len() == 0 {
        if s.len() == 0 {
            rep
        } else {
            rep + seq![s[0]] + replaced(s.drop_first(), pat, rep)
        }
    } else if s.len() < pat.len() {
        s
    } else if s.take(pat.len() as int) == pat {
        rep + replaced(s.skip(pat.len() as int), pat, rep)
    } else {
        seq![s[0]] + replaced(s.drop_first(), pat, rep)
    }
}

/// `s` with `ext` added at the end unless `ext` already occurs in it.
pub open spec fn with_extension(s: Seq<char>, ext: Seq<char>) -> Seq<char> {
    if contains_seq(s, ext) {
        s
    } else {
        s + ext
    }
}

/// A string of `tab_spaces_times` spaces.
pub fn tab_spaces(tab_spaces_times: u16) -> (tab_spaces: String)
    ensures
        tab_spaces@ == spaces(tab_spaces_times as nat),
{
    let mut tab_spaces = String::new();
    let mut i: u16 = 0;
    while i < tab_spaces_times
        invariant
            i <= tab_spaces_times,
            tab_spaces@ == spaces(i as nat),
        decreases tab_spaces_times - i,
    {
        proof {
            reveal_strlit(" ");
        }
        tab_spaces.append(" ");
        assert(tab_spaces@ =~= spaces((i + 1) as nat));
        i += 1;
    }
    tab_spaces
}

/// Whether `pat` occurs in `s` at position `i`, for a position where it fits.
pub(crate) fn matches_at(s: &str, pat: &str, i: usize) -> (b: bool)
    requires
        i + pat@.len() <= s@.len(),
        s@.len() <= usize::MAX,
    ensures
        b == (s@.subrange(i as int, i + pat@.len()) == pat@),
{
    let m = pat.unicode_len();
    let mut j: usize = 0;
    while j < m
        invariant
            m == pat@.len(),
            i + m <= s@.len(),
            s@.len() <= usize::MAX,
            j <= m,
            forall|k: int| 0 <= k < j ==> s@[i + k] == pat@[k],
        decreases m - j,
    {
        if s.get_char(i + j) != pat.get_char(j) {
            assert(s@.subrange(i as int, i + m)[j as int] != pat@[j as int]);
            return false;
        }
        j += 1;
    }
    assert(s@.subrange(i as int, i + m) =~= pat@);
    true
}

/// Whether two strings hold the same characters.
pub fn str_equal(a: &str, b: &str) -> (same: bool)
    ensures
        same == (a@ == b@),
{
    let n = a.unicode_len();
    let m = b.unicode_len();
    if n != m {
        return false;
    }
    let mut i: usize = 0;
    while i < n
        invariant
            n == a@.len(),
            n == b@.len(),
            i <= n,
            forall|k: int| 0 <= k < i ==> a@[k] == b@[k],
        decreases n - i,
    {
        if a.get_char(i) != b.get_char(i) {
            return false;
        }
        i += 1;
    }
    assert(a@ =~= b@);
    true
}

/// Whether `pat` occurs anywhere in `s`.
pub fn contains(s: &str, pat: &str) -> (found: bool)
    ensures
        found == contains_seq(s@, pat@),
{
    let n = s.unicode_len();
    let m = pat.unicode_len();
    if m == 0 {
        assert(s@.subrange(0, 0) =~= pat@);
        assert(occurs_at(s@, pat@, 0));
        return true;
    }
    if m > n {
        assert forall|i: int| !occurs_at(s@, pat@, i) by {}
        return false;
    }
    let mut i: usize = 0;
    while i <= n - m
        invariant
            n == s@.len(),
            m == pat@.len(),
            0 < m <= n,
            i <= n - m + 1,
            forall|k: int| 0 <= k < i ==> !occurs_at(s@, pat@, k),
        decreases n - m + 1 - i,
    {
        if matches_at(s, pat, i) {
            assert(occurs_at(s@, pat@, i as int));
            return true;
        }
        i += 1;
    }
    assert forall|k: int| !occurs_at(s@, pat@, k) by {
        if 0 <= k < i {
        }
    }
    false
}

/// One unfolding step of `replaced` at a position where `pat` does not occur.
proof fn lemma_replaced_skip_one(s: Seq<char>, pat: Seq<char>, rep: Seq<char>, i: int)
    requires
        pat.len() > 0,
        0 <= i,
        i + pat.len() <= s.len(),
        s.subrange(i, i + pat.len()) != pat,
    ensures
        replaced(s.skip(i), pat, rep) == seq![s[i]] + replaced(s.skip(i + 1), pat, rep),
{
    let t = s.skip(i);
    assert(t.take(pat.len() as int) =~= s.subrange(i, i + pat.len()));
    assert(t.drop_first() =~= s.skip(i + 1));
}

/// One unfolding step of `replaced` at a position where `pat` occurs.
proof fn lemma_replaced_match(s: Seq<char>, pat: Seq<char>, rep: Seq<char>, i: int)
    requires
        pat.len() > 0,
        0 <= i,
        i + pat.len() <= s.len(),
        s.subrange(i, i + pat.len()) == pat,
    ensures
        replaced(s.skip(i), pat, rep) == rep + replaced(s.skip(i + pat.len()), pat, rep),
{
    let t = s.skip(i);
    assert(t.take(pat.len() as int) =~= s.subrange(i, i + pat.len()));
    assert(t.skip(pat.len() as int) =~= s.skip(i + pat.len()));
}

/// `s` with every match of `pat` replaced by `rep`, as `str::replace` does.
pub fn replace_all(s: &str, pat: &str, rep: &str) -> (out: String)
    ensures
        out@ == replaced(s@, pat@, rep@),
{
    let n = s.unicode_len();
    let m = pat.unicode_len();
    if m == 0 {
        let mut out = String::new();
        let mut i: usize = 0;
        assert(s@.skip(0) =~= s@);
        while i < n
            invariant
                n == s@.len(),
                pat@.len() == 0,
                i <= n,
                replaced(s@, pat@, rep@) == out@ + replaced(s@.skip(i as int), pat@, rep@),
            decreases n - i,
        {
            let ghost t = s@.skip(i as int);
            assert(t.drop_first() =~= s@.skip(i + 1));
            assert(t[0] == s@[i as int]);
            let c = s.substring_char(i, i + 1);
            assert(c@ =~= seq![s@[i as int]]);
            out.append(rep);
            out.append(c);
            assert(replaced(s@, pat@, rep@) =~= out@ + replaced(s@.skip(i + 1), pat@, rep@));
            i += 1;
        }
        assert(s@.skip(n as int).len() == 0);
        out.append(rep);
        assert(out@ =~= replaced(s@, pat@, rep@));
        return out;
    }
    if m > n {
        return String::from_str(s);
    }
    let mut out = String::new();
    let mut seg: usize = 0;
    let mut i: usize = 0;
    assert(s@.skip(0) =~= s@);
    assert(s@.subrange(0, 0) =~= Seq::<char>::empty());
    while i <= n - m
        invariant
            n == s@.len(),
            m == pat@.len(),
            0 < m <= n,
            seg <= i <= n,
            replaced(s@, pat@, rep@) == out@ + s@.subrange(seg as int, i as int) + replaced(
                s@.skip(i as int),
                pat@,
                rep@,
            ),
        decreases n - i,
    {
        if matches_at(s, pat, i) {
            proof {
                lemma_replaced_match(s@, pat@, rep@, i as int);
            }
            let piece = s.substring_char(seg, i);
            out.append(piece);
            out.append(rep);
            i += m;
            seg = i;
            assert(s@.subrange(seg as int, i as int) =~= Seq::<char>::empty());
            assert(replaced(s@, pat@, rep@) =~= out@ + s@.subrange(seg as int, i as int) + replaced(
                s@.skip(i as int),
                pat@,
                rep@,
            ));
        } else {
            proof {
                lemma_replaced_skip_one(s@, pat@, rep@, i as int);
            }
            assert(s@.subrange(seg as int, i as int) + seq![s@[i as int]] =~= s@.subrange(
                seg as int,
                i + 1,
            ));
            i += 1;
        }
    }
    assert(replaced(s@.skip(i as int), pat@, rep@) == s@.skip(i as int));
    let rest = s.substring_char(seg, n);
    out.append(rest);
    assert(s@.subrange(seg as int, i as int) + s@.skip(i as int) =~= s@.subrange(seg as int, n as int));
    assert(out@ =~= replaced(s@, pat@, rep@));
    out
}

/// Replacing a pattern that does not occur leaves the text as it is.
pub proof fn lemma_replaced_absent(s: Seq<char>, pat: Seq<char>, rep: Seq<char>)
    requires
        pat.len() > 0,
        !contains_seq(s, pat),
    ensures
        replaced(s, pat, rep) == s,
    decreases s.len(),
{
    if s.len() >= pat.len() {
        assert(!occurs_at(s, pat, 0));
        assert(s.take(pat.len() as int) =~= s.subrange(0, pat.len() as int));
        let t = s.drop_first();
        assert forall|i: int| !occurs_at(t, pat, i) by {
            if occurs_at(t, pat, i) {
                assert(s.subrange(i + 1, i + 1 + pat.len()) =~= t.subrange(i, i + pat.len()));
                assert(occurs_at(s, pat, i + 1));
            }
        }
        lemma_replaced_absent(t, pat, rep);
        assert(seq![s[0]] + t =~= s);
    }
}

/// Adds `ext` to the end of `path` unless `ext` already occurs in it.
pub fn add_file_extension(path: &mut String, ext: &str)
    ensures
        final(path)@ == with_extension(old(path)@, ext@),
{
    if !contains(path.as_str(), ext) {
        path.append(ext);
    }
}

/// After adding an extension the path contains it, and adding it again
/// changes nothing.
pub proof fn lemma_with_extension_idempotent(s: Seq<char>, ext: Seq<char>)
    ensures
        contains_seq(with_extension(s, ext), ext),
        with_extension(with_extension(s, ext), ext) == with_extension(s, ext),
{
    if !contains_seq(s, ext) {
        let t = s + ext;
        assert(t.subrange(s.len() as int, s.len() + ext.len() as int) =~= ext);
        assert(occurs_at(t, ext, s.len() as int));
    }
}

} // verus!
