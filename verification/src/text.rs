//! Character-sequence utilities shared by the codec, the sanitizer and the
//! guard: conversions between `&str` and `Vec<char>`, searching, trimming,
//! line splitting and joining, and decimal parsing/formatting.

use vstd::prelude::*;

verus! {

/// Collects the characters of a string slice into a vector.
pub fn chars_of(s: &str) -> (r: Vec<char>)
    ensures
        r@ == s@,
{
    let n = s.unicode_len();
    let mut r: Vec<char> = Vec::new();
    let mut i: usize = 0;
    while i < n
        invariant
            n == s@.len(),
            i <= n,
            r@ == s@.take(i as int),
        decreases n - i,
    {
        r.push(s.get_char(i));
        i = i + 1;
        proof {
            assert(r@ =~= s@.take(i as int));
        }
    }
    proof {
        assert(r@ =~= s@);
    }
    r
}

/// Builds a `String` whose characters are exactly the given vector.
///
/// Relies on `String`'s `FromIterator<char>` implementation: collecting
/// characters yields a string whose character sequence is the input.
#[verifier::external_body]
pub fn string_from_chars(v: &Vec<char>) -> (r: String)
    ensures
        r@ == v@,
{
    v.iter().collect()
}

/// Copies the characters of `v` between `lo` (inclusive) and `hi` (exclusive).
pub fn sub_vec(v: &Vec<char>, lo: usize, hi: usize) -> (r: Vec<char>)
    requires
        lo <= hi <= v@.len(),
    ensures
        r@ == v@.subrange(lo as int, hi as int),
{
    let mut r: Vec<char> = Vec::new();
    let mut i: usize = lo;
    while i < hi
        invariant
            lo <= i <= hi <= v@.len(),
            r@ == v@.subrange(lo as int, i as int),
        decreases hi - i,
    {
        r.push(v[i]);
        i = i + 1;
        proof {
            assert(r@ =~= v@.subrange(lo as int, i as int));
        }
    }
    r
}

/// Compares two character vectors for equality of their sequences.
pub fn chars_eq(a: &Vec<char>, b: &Vec<char>) -> (r: bool)
    ensures
        r == (a@ == b@),
{
    if a.len() != b.len() {
        return false;
    }
    let mut i: usize = 0;
    while i < a.len()
        invariant
            a@.len() == b@.len(),
            i <= a@.len(),
            forall|j: int| 0 <= j < i ==> a@[j] == b@[j],
        decreases a@.len() - i,
    {
        if a[i] != b[i] {
            return false;
        }
        i = i + 1;
    }
    proof {
        assert(a@ =~= b@);
    }
    true
}

/// The whitespace characters that trimming removes.
pub open spec fn is_space(c: char) -> bool {
    c == ' ' || c == '\t' || c == '\n' || c == '\r' || c == '\u{b}' || c == '\u{c}'
}

/// Checks whether a character counts as whitespace for trimming.
pub fn is_space_char(c: char) -> (r: bool)
    ensures
        r == is_space(c),
{
    c == ' ' || c == '\t' || c == '\n' || c == '\r' || c == '\u{b}' || c == '\u{c}'
}

/// The sequence with leading whitespace removed.
pub open spec fn trim_front(s: Seq<char>) -> Seq<char>
    decreases s.len(),
{
    if s.len() > 0 && is_space(s[0]) {
        trim_front(s.drop_first())
    } else {
        s
    }
}

/// The sequence with trailing whitespace removed.
pub open spec fn trim_back(s: Seq<char>) -> Seq<char>
    decreases s.len(),
{
    if s.len() > 0 && is_space(s[s.len() - 1]) {
        trim_back(s.drop_last())
    } else {
        s
    }
}

/// The sequence with whitespace removed from both ends.
pub open spec fn spec_trim(s: Seq<char>) -> Seq<char> {
    trim_back(trim_front(s))
}

proof fn lemma_trim_front_skip(s: Seq<char>, i: int)
    requires
        0 <= i <= s.len(),
        forall|j: int| 0 <= j < i ==> is_space(s[j]),
        i == s.len() || !is_space(s[i]),
    ensures
        trim_front(s) == s.skip(i),
    decreases i,
{
    if i == 0 {
        assert(s.skip(0) =~= s);
    } else {
        lemma_trim_front_skip(s.drop_first(), i - 1);
        assert(s.drop_first().skip(i - 1) =~= s.skip(i));
    }
}

proof fn lemma_trim_back_take(s: Seq<char>, k: int)
    requires
        0 <= k <= s.len(),
        forall|j: int| k <= j < s.len() ==> is_space(s[j]),
        k == 0 || !is_space(s[k - 1]),
    ensures
        trim_back(s) == s.take(k),
    decreases s.len() - k,
{
    if k == s.len() {
        assert(s.take(k) =~= s);
    } else {
        lemma_trim_back_take(s.drop_last(), k);
        assert(s.drop_last().take(k) =~= s.take(k));
    }
}

/// Removes leading and trailing whitespace characters.
pub fn trim_chars(v: &Vec<char>) -> (r: Vec<char>)
    ensures
        r@ == spec_trim(v@),
{
    let n = v.len();
    let mut lo: usize = 0;
    while lo < n && is_space_char(v[lo])
        invariant
            n == v@.len(),
            lo <= n,
            forall|j: int| 0 <= j < lo ==> is_space(v@[j]),
        decreases n - lo,
    {
        lo = lo + 1;
    }
    proof {
        lemma_trim_front_skip(v@, lo as int);
    }
    let mut hi: usize = n;
    while hi > lo && is_space_char(v[hi - 1])
        invariant
            n == v@.len(),
            lo <= hi <= n,
            forall|j: int| hi <= j < n ==> is_space(v@[j]),
        decreases hi,
    {
        hi = hi - 1;
    }
    proof {
        let t = v@.skip(lo as int);
        let k = hi - lo;
        assert(forall|j: int| k <= j < t.len() ==> is_space(#[trigger] t[j]));
        if k > 0 {
            assert(t[k - 1] == v@[hi - 1]);
        }
        lemma_trim_back_take(t, k as int);
        assert(trim_back(t) == t.take(k as int));
        assert(t.take(k as int) =~= v@.subrange(lo as int, hi as int));
    }
    sub_vec(v, lo, hi)
}

/// Compares two string slices by their character sequences.
pub fn str_eq(a: &str, b: &str) -> (r: bool)
    ensures
        r == (a@ == b@),
{
    let na = a.unicode_len();
    let nb = b.unicode_len();
    if na != nb {
        proof {
            assert(a@ != b@);
        }
        return false;
    }
    let mut i: usize = 0;
    while i < na
        invariant
            na == a@.len(),
            na == b@.len(),
            i <= na,
            forall|j: int| 0 <= j < i ==> a@[j] == b@[j],
        decreases na - i,
    {
        if a.get_char(i) != b.get_char(i) {
            proof {
                assert(a@[i as int] != b@[i as int]);
            }
            return false;
        }
        i = i + 1;
    }
    proof {
        assert(a@ =~= b@);
    }
    true
}

/// `n` occurs in `h` starting at index `i`.
pub open spec fn occurs_at(h: Seq<char>, n: Seq<char>, i: int) -> bool {
    0 <= i && i + n.len() <= h.len() && h.subrange(i, i + n.len()) == n
}

/// `n` occurs somewhere in `h`.
pub open spec fn contains_seq(h: Seq<char>, n: Seq<char>) -> bool {
    exists|i: int| occurs_at(h, n, i)
}

/// Checks whether `n` occurs in `h` starting at `i`.
fn matches_at(h: &Vec<char>, n: &Vec<char>, i: usize) -> (r: bool)
    requires
        i + n@.len() <= h@.len(),
    ensures
        r == occurs_at(h@, n@, i as int),
{
    let hlen = h.len();
    let nlen = n.len();
    let mut j: usize = 0;
    while j < nlen
        invariant
            hlen == h@.len(),
            nlen == n@.len(),
            i + nlen <= hlen,
            j <= nlen,
            forall|k: int| 0 <= k < j ==> h@[i + k] == n@[k],
        decreases nlen - j,
    {
        if h[i + j] != n[j] {
            proof {
                assert(h@.subrange(i as int, i + n@.len())[j as int] == h@[i + j]);
                assert(h@.subrange(i as int, i + n@.len()) != n@);
            }
            return false;
        }
        j = j + 1;
    }
    proof {
        assert(h@.subrange(i as int, i + n@.len()) =~= n@);
    }
    true
}

/// Checks whether `n` occurs anywhere in `h`.
pub fn contains_chars(h: &Vec<char>, n: &Vec<char>) -> (r: bool)
    ensures
        r == contains_seq(h@, n@),
{
    if n.len() > h.len() {
        proof {
            assert(forall|i: int| !occurs_at(h@, n@, i));
        }
        return false;
    }
    if n.len() == 0 {
        proof {
            assert(h@.subrange(0, 0) =~= n@);
            assert(occurs_at(h@, n@, 0));
        }
        return true;
    }
    let hl = h.len();
    let last = hl - n.len();
    let mut i: usize = 0;
    while i <= last
        invariant
            0 < n@.len() <= h@.len(),
            hl == h@.len(),
            last == h@.len() - n@.len(),
            i <= last + 1,
            forall|k: int| 0 <= k < i ==> !occurs_at(h@, n@, k),
        decreases last + 1 - i,
    {
        if matches_at(h, n, i) {
            return true;
        }
        i = i + 1;
    }
    proof {
        assert(forall|k: int| occurs_at(h@, n@, k) ==> 0 <= k <= last);
    }
    false
}

/// Replacement of every leftmost, non-overlapping occurrence of `n` in `h`
/// by `r`, scanning left to right.  An empty needle leaves `h` unchanged.
pub open spec fn spec_replace(h: Seq<char>, n: Seq<char>, r: Seq<char>) -> Seq<char>
    decreases h.len(),
{
    if n.len() == 0 {
        h
    } else if h.len() < n.len() {
        h
    } else if h.subrange(0, n.len() as int) == n {
        r + spec_replace(h.skip(n.len() as int), n, r)
    } else {
        h.take(1) + spec_replace(h.skip(1), n, r)
    }
}

proof fn lemma_replace_step_match(h: Seq<char>, n: Seq<char>, r: Seq<char>, i: int)
    requires
        n.len() > 0,
        occurs_at(h, n, i),
    ensures
        spec_replace(h.skip(i), n, r) == r + spec_replace(h.skip(i + n.len()), n, r),
{
    let rem = h.skip(i);
    assert(rem.subrange(0, n.len() as int) =~= h.subrange(i, i + n.len()));
    assert(rem.skip(n.len() as int) =~= h.skip(i + n.len()));
}

proof fn lemma_replace_step_char(h: Seq<char>, n: Seq<char>, r: Seq<char>, i: int)
    requires
        n.len() > 0,
        0 <= i < h.len(),
        !occurs_at(h, n, i),
    ensures
        spec_replace(h.skip(i), n, r) == seq![h[i]] + spec_replace(h.skip(i + 1), n, r),
{
    let rem = h.skip(i);
    assert(rem.take(1) =~= seq![h[i]]);
    assert(rem.skip(1) =~= h.skip(i + 1));
    if rem.len() >= n.len() {
        assert(rem.subrange(0, n.len() as int) =~= h.subrange(i, i + n.len()));
        assert(rem.subrange(0, n.len() as int) != n);
    } else {
        assert(spec_replace(rem, n, r) == rem);
        assert(spec_replace(rem.skip(1), n, r) == rem.skip(1));
        assert(rem =~= rem.take(1) + rem.skip(1));
    }
}

/// Replaces every leftmost occurrence of `n` in `h` by `r`.
pub fn replace_chars(h: &Vec<char>, n: &Vec<char>, r: &Vec<char>) -> (out: Vec<char>)
    ensures
        out@ == spec_replace(h@, n@, r@),
{
    if n.len() == 0 {
        let mut out: Vec<char> = Vec::new();
        let mut i: usize = 0;
        while i < h.len()
            invariant
                i <= h@.len(),
                out@ == h@.take(i as int),
            decreases h@.len() - i,
        {
            out.push(h[i]);
            i = i + 1;
            proof {
                assert(out@ =~= h@.take(i as int));
            }
        }
        proof {
            assert(out@ =~= h@);
        }
        return out;
    }
    let mut out: Vec<char> = Vec::new();
    proof {
        assert(h@.skip(0) =~= h@);
        assert(Seq::<char>::empty() + spec_replace(h@, n@, r@) =~= spec_replace(h@, n@, r@));
    }
    let mut i: usize = 0;
    while i < h.len()
        invariant
            n@.len() > 0,
            i <= h@.len(),
            spec_replace(h@, n@, r@) == out@ + spec_replace(h@.skip(i as int), n@, r@),
        decreases h@.len() - i,
    {
        let ghost old_out = out@;
        if n.len() <= h.len() - i && matches_at(h, n, i) {
            proof {
                lemma_replace_step_match(h@, n@, r@, i as int);
            }
            let ghost tail = spec_replace(h@.skip(i + n@.len()), n@, r@);
            let mut j: usize = 0;
            while j < r.len()
                invariant
                    j <= r@.len(),
                    out@ == old_out + r@.take(j as int),
                decreases r@.len() - j,
            {
                out.push(r[j]);
                j = j + 1;
                proof {
                    assert(out@ =~= old_out + r@.take(j as int));
                }
            }
            proof {
                assert(out@ =~= old_out + r@);
                assert((old_out + r@) + tail =~= old_out + (r@ + tail));
            }
            i = i + n.len();
        } else {
            proof {
                lemma_replace_step_char(h@, n@, r@, i as int);
                let tail = spec_replace(h@.skip(i + 1), n@, r@);
                assert(old_out.push(h@[i as int]) =~= old_out + seq![h@[i as int]]);
                assert((old_out + seq![h@[i as int]]) + tail =~= old_out + (seq![h@[i as int]]
                    + tail));
            }
            out.push(h[i]);
            i = i + 1;
        }
    }
    proof {
        assert(h@.skip(i as int) =~= Seq::<char>::empty());
        assert(out@ + Seq::<char>::empty() =~= out@);
    }
    out
}

/// No character of `r` occurs anywhere in `n`.
pub open spec fn disjoint_chars(r: Seq<char>, n: Seq<char>) -> bool {
    forall|i: int, j: int| 0 <= i < r.len() && 0 <= j < n.len() ==> r[i] != n[j]
}

proof fn lemma_occurs_index(s: Seq<char>, n: Seq<char>, i: int)
    requires
        occurs_at(s, n, i),
    ensures
        forall|j: int| 0 <= j < n.len() ==> s[i + j] == n[j],
{
    assert forall|j: int| 0 <= j < n.len() implies s[i + j] == n[j] by {
        assert(s.subrange(i, i + n.len())[j] == s[i + j]);
    }
}

proof fn lemma_occurs_build(s: Seq<char>, n: Seq<char>, i: int)
    requires
        0 <= i,
        i + n.len() <= s.len(),
        forall|j: int| 0 <= j < n.len() ==> s[i + j] == n[j],
    ensures
        occurs_at(s, n, i),
{
    assert(s.subrange(i, i + n.len()) =~= n);
}

proof fn lemma_occurs_in_concat_right(p: Seq<char>, s: Seq<char>, n: Seq<char>, i: int)
    requires
        occurs_at(p + s, n, i),
        i >= p.len(),
    ensures
        occurs_at(s, n, i - p.len()),
{
    lemma_occurs_index(p + s, n, i);
    assert forall|j: int| 0 <= j < n.len() implies s[i - p.len() + j] == n[j] by {
        assert((p + s)[i + j] == n[j]);
    }
    lemma_occurs_build(s, n, i - p.len());
}

/// After replacing `n` by `r`, the needle `n` no longer occurs, provided the
/// replacement is non-empty and shares no character with the needle.  The
/// second conclusion is the strengthening that carries the induction: a
/// proper suffix of `n` can begin the result only if it began the input.
pub proof fn lemma_replace_free(h: Seq<char>, n: Seq<char>, r: Seq<char>)
    requires
        n.len() > 0,
        r.len() > 0,
        disjoint_chars(r, n),
    ensures
        !contains_seq(spec_replace(h, n, r), n),
        forall|k: int|
            1 <= k < n.len() && #[trigger] occurs_at(spec_replace(h, n, r), n.skip(k), 0)
                ==> occurs_at(h, n.skip(k), 0),
    decreases h.len(),
{
    let res = spec_replace(h, n, r);
    if h.len() < n.len() {
        assert forall|i: int| !(#[trigger] occurs_at(res, n, i)) by {
            if occurs_at(res, n, i) {
                assert(i + n.len() <= h.len());
            }
        }
    } else if h.subrange(0, n.len() as int) == n {
        let rest = spec_replace(h.skip(n.len() as int), n, r);
        lemma_replace_free(h.skip(n.len() as int), n, r);
        assert(res == r + rest);
        assert forall|i: int| !(#[trigger] occurs_at(res, n, i)) by {
            if occurs_at(res, n, i) {
                lemma_occurs_index(res, n, i);
                if i < r.len() {
                    assert(res[i + 0] == n[0]);
                    assert(res[i] == r[i]);
                    assert(false);
                } else {
                    lemma_occurs_in_concat_right(r, rest, n, i);
                    assert(contains_seq(rest, n));
                    assert(false);
                }
            }
        }
        assert forall|k: int|
            1 <= k < n.len() && #[trigger] occurs_at(res, n.skip(k), 0) implies occurs_at(
            h,
            n.skip(k),
            0,
        ) by {
            lemma_occurs_index(res, n.skip(k), 0);
            assert(res[0] == n.skip(k)[0]);
            assert(res[0] == r[0]);
            assert(n.skip(k)[0] == n[k]);
            assert(false);
        }
    } else {
        let rest = spec_replace(h.skip(1), n, r);
        lemma_replace_free(h.skip(1), n, r);
        assert(res == h.take(1) + rest);
        assert(res.len() == 1 + rest.len());
        assert forall|j: int| 0 <= j < rest.len() implies res[1 + j] == rest[j] by {
            assert((h.take(1) + rest)[1 + j] == rest[j]);
        }
        assert(res[0] == h[0]);
        assert forall|i: int| !(#[trigger] occurs_at(res, n, i)) by {
            if occurs_at(res, n, i) {
                if i >= 1 {
                    lemma_occurs_in_concat_right(h.take(1), rest, n, i);
                    assert(contains_seq(rest, n));
                    assert(false);
                } else {
                    lemma_occurs_index(res, n, 0);
                    assert(h[0] == n[0]);
                    if n.len() == 1 {
                        assert(h.subrange(0, 1) =~= n);
                        assert(false);
                    } else {
                        assert forall|j: int| 0 <= j < n.len() - 1 implies rest[j] == n.skip(
                            1,
                        )[j] by {
                            assert(res[1 + j] == n[1 + j]);
                        }
                        lemma_occurs_build(rest, n.skip(1), 0);
                        assert(occurs_at(h.skip(1), n.skip(1), 0));
                        lemma_occurs_index(h.skip(1), n.skip(1), 0);
                        assert forall|j: int| 0 <= j < n.len() implies h[j] == n[j] by {
                            if j >= 1 {
                                assert(h.skip(1)[j - 1] == n.skip(1)[j - 1]);
                            }
                        }
                        assert(h.subrange(0, n.len() as int) =~= n);
                        assert(false);
                    }
                }
            }
        }
        assert forall|k: int|
            1 <= k < n.len() && #[trigger] occurs_at(res, n.skip(k), 0) implies occurs_at(
            h,
            n.skip(k),
            0,
        ) by {
            lemma_occurs_index(res, n.skip(k), 0);
            assert(res[0] == n.skip(k)[0]);
            assert(h[0] == n[k]);
            if k + 1 == n.len() {
                assert forall|j: int| 0 <= j < n.skip(k).len() implies h[j] == n.skip(k)[j] by {
                    assert(j == 0);
                }
                lemma_occurs_build(h, n.skip(k), 0);
            } else {
                assert forall|j: int| 0 <= j < n.len() - k - 1 implies rest[j] == n.skip(
                    k + 1,
                )[j] by {
                    assert(res[1 + j] == n.skip(k)[1 + j]);
                    assert(n.skip(k)[1 + j] == n[k + 1 + j]);
                }
                assert(rest.len() >= n.len() - k - 1) by {
                    assert(n.skip(k).len() <= res.len());
                }
                lemma_occurs_build(rest, n.skip(k + 1), 0);
                assert(occurs_at(rest, n.skip(k + 1), 0));
                assert(occurs_at(h.skip(1), n.skip(k + 1), 0));
                lemma_occurs_index(h.skip(1), n.skip(k + 1), 0);
                assert forall|j: int| 0 <= j < n.skip(k).len() implies h[j] == n.skip(k)[j] by {
                    if j >= 1 {
                        assert(h.skip(1)[j - 1] == n.skip(k + 1)[j - 1]);
                        assert(n.skip(k + 1)[j - 1] == n[k + j]);
                    }
                }
                lemma_occurs_build(h, n.skip(k), 0);
            }
        }
    }
}

/// ASCII lowercase folding of a single character; other characters are kept.
pub open spec fn lower_char(c: char) -> char {
    match c {
        'A' => 'a',
        'B' => 'b',
        'C' => 'c',
        'D' => 'd',
        'E' => 'e',
        'F' => 'f',
        'G' => 'g',
        'H' => 'h',
        'I' => 'i',
        'J' => 'j',
        'K' => 'k',
        'L' => 'l',
        'M' => 'm',
        'N' => 'n',
        'O' => 'o',
        'P' => 'p',
        'Q' => 'q',
        'R' => 'r',
        'S' => 's',
        'T' => 't',
        'U' => 'u',
        'V' => 'v',
        'W' => 'w',
        'X' => 'x',
        'Y' => 'y',
        'Z' => 'z',
        _ => c,
    }
}

/// ASCII lowercase folding of a character sequence.
pub open spec fn lower_seq(s: Seq<char>) -> Seq<char> {
    s.map_values(|c: char| lower_char(c))
}

/// Folds one character to ASCII lowercase.
pub fn to_lower_char(c: char) -> (r: char)
    ensures
        r == lower_char(c),
{
    match c {
        'A' => 'a',
        'B' => 'b',
        'C' => 'c',
        'D' => 'd',
        'E' => 'e',
        'F' => 'f',
        'G' => 'g',
        'H' => 'h',
        'I' => 'i',
        'J' => 'j',
        'K' => 'k',
        'L' => 'l',
        'M' => 'm',
        'N' => 'n',
        'O' => 'o',
        'P' => 'p',
        'Q' => 'q',
        'R' => 'r',
        'S' => 's',
        'T' => 't',
        'U' => 'u',
        'V' => 'v',
        'W' => 'w',
        'X' => 'x',
        'Y' => 'y',
        'Z' => 'z',
        _ => c,
    }
}

/// Folds a character vector to ASCII lowercase.
pub fn lower_chars(v: &Vec<char>) -> (r: Vec<char>)
    ensures
        r@ == lower_seq(v@),
{
    let mut r: Vec<char> = Vec::new();
    let mut i: usize = 0;
    while i < v.len()
        invariant
            i <= v@.len(),
            r@.len() == i,
            forall|j: int| 0 <= j < i ==> r@[j] == lower_char(v@[j]),
        decreases v@.len() - i,
    {
        r.push(to_lower_char(v[i]));
        i = i + 1;
    }
    proof {
        assert(r@ =~= lower_seq(v@));
    }
    r
}

/// Appends all characters of `v` to `out`.
pub fn push_all(out: &mut Vec<char>, v: &Vec<char>)
    ensures
        final(out)@ == old(out)@ + v@,
{
    let mut i: usize = 0;
    while i < v.len()
        invariant
            i <= v@.len(),
            out@ == old(out)@ + v@.take(i as int),
        decreases v@.len() - i,
    {
        out.push(v[i]);
        i = i + 1;
        proof {
            assert(out@ =~= old(out)@ + v@.take(i as int));
        }
    }
    proof {
        assert(out@ =~= old(out)@ + v@);
    }
}

/// Appends the characters of a string slice to `out`.
pub fn push_str_chars(out: &mut Vec<char>, s: &str)
    ensures
        final(out)@ == old(out)@ + s@,
{
    let v = chars_of(s);
    push_all(out, &v);
}

/// A decimal digit.
pub open spec fn is_digit(c: char) -> bool {
    48 <= (c as u32) <= 57
}

/// All characters of `s` are decimal digits.
pub open spec fn all_digits(s: Seq<char>) -> bool {
    forall|i: int| 0 <= i < s.len() ==> is_digit(#[trigger] s[i])
}

/// The digit character for a value between 0 and 9.
pub open spec fn digit_char(d: int) -> char {
    if d == 0 {
        '0'
    } else if d == 1 {
        '1'
    } else if d == 2 {
        '2'
    } else if d == 3 {
        '3'
    } else if d == 4 {
        '4'
    } else if d == 5 {
        '5'
    } else if d == 6 {
        '6'
    } else if d == 7 {
        '7'
    } else if d == 8 {
        '8'
    } else {
        '9'
    }
}

/// The numeric value of a digit string, most significant digit first.
pub open spec fn dec_value(s: Seq<char>) -> int
    decreases s.len(),
{
    if s.len() == 0 {
        0
    } else {
        dec_value(s.drop_last()) * 10 + ((s.last() as u32) - 48)
    }
}

/// The canonical decimal digit string of a non-negative number.
pub open spec fn dec_digits(n: int) -> Seq<char>
    decreases n,
{
    if n < 0 {
        Seq::empty()
    } else if n < 10 {
        seq![digit_char(n)]
    } else {
        dec_digits(n / 10) + seq![digit_char(n % 10)]
    }
}

/// The result of parsing `s` as a decimal `u16`: an optional leading `+`,
/// then one or more digits whose value fits.
pub open spec fn spec_parse_u16(s: Seq<char>) -> Option<u16> {
    let d = if s.len() > 0 && s[0] == '+' {
        s.drop_first()
    } else {
        s
    };
    if d.len() > 0 && all_digits(d) && dec_value(d) <= 65535 {
        Some(dec_value(d) as u16)
    } else {
        None
    }
}

proof fn lemma_dec_value_take_step(s: Seq<char>, i: int)
    requires
        0 <= i < s.len(),
    ensures
        dec_value(s.take(i + 1)) == dec_value(s.take(i)) * 10 + ((s[i] as u32) - 48),
{
    assert(s.take(i + 1).drop_last() =~= s.take(i));
    assert(s.take(i + 1).last() == s[i]);
}

proof fn lemma_dec_value_nonneg(s: Seq<char>)
    requires
        all_digits(s),
    ensures
        dec_value(s) >= 0,
    decreases s.len(),
{
    if s.len() > 0 {
        assert(all_digits(s.drop_last()));
        lemma_dec_value_nonneg(s.drop_last());
    }
}

proof fn lemma_dec_value_overflow(s: Seq<char>, k: int)
    requires
        all_digits(s),
        0 <= k <= s.len(),
        dec_value(s.take(k)) > 65535,
    ensures
        dec_value(s) > 65535,
    decreases s.len() - k,
{
    if k == s.len() {
        assert(s.take(k) =~= s);
    } else {
        lemma_dec_value_take_step(s, k);
        assert(all_digits(s.take(k)));
        lemma_dec_value_nonneg(s.take(k));
        lemma_dec_value_overflow(s, k + 1);
    }
}

/// Parses a decimal `u16`, accepting an optional leading `+`.
pub fn parse_u16_chars(v: &Vec<char>) -> (r: Option<u16>)
    ensures
        r == spec_parse_u16(v@),
{
    let start: usize = if v.len() > 0 && v[0] == '+' {
        1
    } else {
        0
    };
    let ghost d = if v@.len() > 0 && v@[0] == '+' {
        v@.drop_first()
    } else {
        v@
    };
    proof {
        assert(d =~= v@.subrange(start as int, v@.len() as int));
    }
    if v.len() == start {
        return None;
    }
    let mut acc: u32 = 0;
    let mut i: usize = start;
    while i < v.len()
        invariant
            start <= i <= v@.len(),
            start < v@.len(),
            d == (if v@.len() > 0 && v@[0] == '+' {
                v@.drop_first()
            } else {
                v@
            }),
            d == v@.subrange(start as int, v@.len() as int),
            all_digits(d.take(i - start)),
            acc == dec_value(d.take(i - start)),
            acc <= 65535,
        decreases v@.len() - i,
    {
        let c = v[i];
        let u = c as u32;
        if u < 48 || u > 57 {
            proof {
                assert(d[i - start] == c);
                assert(!is_digit(d[i - start]));
                assert(!all_digits(d));
            }
            return None;
        }
        proof {
            assert(d[i - start] == c);
            lemma_dec_value_take_step(d, i - start);
            assert(all_digits(d.take(i - start + 1)));
        }
        acc = acc * 10 + (u - 48);
        i = i + 1;
        if acc > 65535 {
            proof {
                if all_digits(d) {
                    lemma_dec_value_overflow(d, i - start);
                }
            }
            return None;
        }
    }
    proof {
        assert(d.take(v@.len() - start) =~= d);
    }
    Some(acc as u16)
}

/// Formats a `u16` as its canonical decimal digit string.
pub fn u16_to_chars(x: u16) -> (r: Vec<char>)
    ensures
        r@ == dec_digits(x as int),
    decreases x,
{
    let d = x % 10;
    let c: char = if d == 0 {
        '0'
    } else if d == 1 {
        '1'
    } else if d == 2 {
        '2'
    } else if d == 3 {
        '3'
    } else if d == 4 {
        '4'
    } else if d == 5 {
        '5'
    } else if d == 6 {
        '6'
    } else if d == 7 {
        '7'
    } else if d == 8 {
        '8'
    } else {
        '9'
    };
    if x < 10 {
        let mut r: Vec<char> = Vec::new();
        r.push(c);
        proof {
            assert(r@ =~= seq![digit_char(x as int)]);
        }
        r
    } else {
        let mut r = u16_to_chars(x / 10);
        r.push(c);
        proof {
            assert(r@ =~= dec_digits((x / 10) as int) + seq![digit_char((x % 10) as int)]);
        }
        r
    }
}

/// Copies a character vector.
pub fn copy_vec(v: &Vec<char>) -> (r: Vec<char>)
    ensures
        r@ == v@,
{
    let n = v.len();
    let r = sub_vec(v, 0, n);
    proof {
        assert(v@.subrange(0, v@.len() as int) =~= v@);
    }
    r
}

/// Finds the first occurrence of a character, as `find_ch` specifies.
pub fn find_char(v: &Vec<char>, c: char) -> (r: Option<usize>)
    ensures
        match r {
            Some(i) => find_ch(v@, c) == i as int,
            None => find_ch(v@, c) == -1,
        },
{
    let mut i: usize = 0;
    while i < v.len()
        invariant
            i <= v@.len(),
            forall|j: int| 0 <= j < i ==> v@[j] != c,
        decreases v@.len() - i,
    {
        if v[i] == c {
            proof {
                lemma_find_ch_at(v@, c, i as int);
            }
            return Some(i);
        }
        i = i + 1;
    }
    proof {
        lemma_find_ch(v@, c);
        if find_ch(v@, c) >= 0 {
            assert(v@[find_ch(v@, c)] != c);
            assert(false);
        }
    }
    None
}

/// Formats a `u32` as its canonical decimal digit string.
pub fn u32_to_chars(x: u32) -> (r: Vec<char>)
    ensures
        r@ == dec_digits(x as int),
    decreases x,
{
    let d = x % 10;
    let c: char = if d == 0 {
        '0'
    } else if d == 1 {
        '1'
    } else if d == 2 {
        '2'
    } else if d == 3 {
        '3'
    } else if d == 4 {
        '4'
    } else if d == 5 {
        '5'
    } else if d == 6 {
        '6'
    } else if d == 7 {
        '7'
    } else if d == 8 {
        '8'
    } else {
        '9'
    };
    if x < 10 {
        let mut r: Vec<char> = Vec::new();
        r.push(c);
        proof {
            assert(r@ =~= seq![digit_char(x as int)]);
        }
        r
    } else {
        let mut r = u32_to_chars(x / 10);
        r.push(c);
        proof {
            assert(r@ =~= dec_digits((x / 10) as int) + seq![digit_char((x % 10) as int)]);
        }
        r
    }
}

/// The decimal digit string of a signed number, with a leading minus for
/// a negative one.
pub open spec fn dec_i32(n: int) -> Seq<char> {
    if n < 0 {
        seq!['-'] + dec_digits(-n)
    } else {
        dec_digits(n)
    }
}

/// Formats an `i32` as its canonical decimal digit string.
pub fn i32_to_chars(x: i32) -> (r: Vec<char>)
    ensures
        r@ == dec_i32(x as int),
{
    if x >= 0 {
        let r = u32_to_chars(x as u32);
        r
    } else {
        let wide: i64 = x as i64;
        let mag: u32 = (-wide) as u32;
        let mut r: Vec<char> = Vec::new();
        r.push('-');
        let digits = u32_to_chars(mag);
        push_all(&mut r, &digits);
        proof {
            assert(r@ =~= seq!['-'] + dec_digits(mag as int));
        }
        r
    }
}

/// Trimming is the identity on a sequence without whitespace at either end.
pub proof fn lemma_trim_noop(s: Seq<char>)
    requires
        s.len() == 0 || (!is_space(s[0]) && !is_space(s[s.len() - 1])),
    ensures
        spec_trim(s) == s,
{
}

pub proof fn lemma_trim_front_len(s: Seq<char>)
    ensures
        trim_front(s).len() <= s.len(),
        trim_front(s).len() == s.len() ==> trim_front(s) == s,
    decreases s.len(),
{
    if s.len() > 0 && is_space(s[0]) {
        lemma_trim_front_len(s.drop_first());
    }
}

pub proof fn lemma_trim_back_len(s: Seq<char>)
    ensures
        trim_back(s).len() <= s.len(),
        trim_back(s).len() == s.len() ==> trim_back(s) == s,
    decreases s.len(),
{
    if s.len() > 0 && is_space(s[s.len() - 1]) {
        lemma_trim_back_len(s.drop_last());
    }
}

/// A trim-stable, non-empty sequence has no whitespace at either end.
pub proof fn lemma_trim_stable_ends(v: Seq<char>)
    requires
        spec_trim(v) == v,
        v.len() > 0,
    ensures
        !is_space(v[0]),
        !is_space(v[v.len() - 1]),
{
    lemma_trim_front_len(v);
    lemma_trim_back_len(trim_front(v));
    assert(trim_front(v).len() == v.len());
    assert(trim_front(v) == v);
    if is_space(v[0]) {
        assert(trim_front(v) == trim_front(v.drop_first()));
        lemma_trim_front_len(v.drop_first());
        assert(false);
    }
    assert(trim_back(v) == v);
    if is_space(v[v.len() - 1]) {
        assert(trim_back(v) == trim_back(v.drop_last()));
        lemma_trim_back_len(v.drop_last());
        assert(false);
    }
}

/// The canonical digits of a number up to 65535 are non-empty digits
/// that parse back to the number.
pub proof fn lemma_dec_digits_parse(n: int)
    requires
        0 <= n <= 65535,
    ensures
        all_digits(dec_digits(n)),
        dec_digits(n).len() > 0,
        dec_value(dec_digits(n)) == n,
        spec_parse_u16(dec_digits(n)) == Some(n as u16),
    decreases n,
{
    let s = dec_digits(n);
    if n < 10 {
        assert(s =~= seq![digit_char(n)]);
        assert(is_digit(digit_char(n)));
        assert(s.drop_last() =~= Seq::<char>::empty());
        assert((digit_char(n) as u32) == 48 + n);
        assert(dec_value(Seq::<char>::empty()) == 0);
        assert(s.last() == digit_char(n));
        assert(dec_value(s) == n);
    } else {
        lemma_dec_digits_parse(n / 10);
        assert(s == dec_digits(n / 10) + seq![digit_char(n % 10)]);
        assert(s.drop_last() =~= dec_digits(n / 10));
        assert(s.last() == digit_char(n % 10));
        assert(is_digit(digit_char(n % 10)));
        assert forall|i: int| 0 <= i < s.len() implies is_digit(#[trigger] s[i]) by {
            if i < s.len() - 1 {
                assert(s[i] == dec_digits(n / 10)[i]);
            }
        }
        assert(dec_value(s) == dec_value(dec_digits(n / 10)) * 10 + ((digit_char(n % 10) as u32)
            - 48));
        assert(dec_value(s) == (n / 10) * 10 + n % 10);
    }
    assert(s[0] != '+');
}

/// Digit strings are trim-stable lines: no digit is whitespace or a
/// newline.
pub proof fn lemma_digits_plain(n: int)
    requires
        0 <= n <= 65535,
    ensures
        spec_trim(dec_digits(n)) == dec_digits(n),
        forall|i: int| 0 <= i < dec_digits(n).len() ==> dec_digits(n)[i] != '\n',
        forall|i: int| 0 <= i < dec_digits(n).len() ==> !is_space(#[trigger] dec_digits(n)[i]),
        forall|i: int| 0 <= i < dec_digits(n).len() ==> dec_digits(n)[i] != '=',
{
    lemma_dec_digits_parse(n);
    let s = dec_digits(n);
    assert forall|i: int| 0 <= i < s.len() implies !is_space(#[trigger] s[i]) && s[i] != '\n'
        && s[i] != '=' by {
        assert(is_digit(s[i]));
    }
    lemma_trim_noop(s);
}

/// The index of the first occurrence of `c` in `s`, or `-1` when absent.
pub open spec fn find_ch(s: Seq<char>, c: char) -> int
    decreases s.len(),
{
    if s.len() == 0 {
        -1
    } else if s[0] == c {
        0
    } else if find_ch(s.drop_first(), c) < 0 {
        -1
    } else {
        1 + find_ch(s.drop_first(), c)
    }
}

pub proof fn lemma_find_ch(s: Seq<char>, c: char)
    ensures
        find_ch(s, c) == -1 || (0 <= find_ch(s, c) < s.len()),
        find_ch(s, c) == -1 ==> forall|i: int| 0 <= i < s.len() ==> s[i] != c,
        find_ch(s, c) >= 0 ==> s[find_ch(s, c)] == c,
        find_ch(s, c) >= 0 ==> forall|i: int| 0 <= i < find_ch(s, c) ==> s[i] != c,
    decreases s.len(),
{
    if s.len() > 0 && s[0] != c {
        lemma_find_ch(s.drop_first(), c);
        assert(forall|i: int| 1 <= i < s.len() ==> s[i] == s.drop_first()[i - 1]);
    }
}

/// The first occurrence index is pinned by its characterization.
pub proof fn lemma_find_ch_at(s: Seq<char>, c: char, j: int)
    requires
        0 <= j < s.len(),
        s[j] == c,
        forall|i: int| 0 <= i < j ==> s[i] != c,
    ensures
        find_ch(s, c) == j,
{
    lemma_find_ch(s, c);
    let f = find_ch(s, c);
    if f == -1 {
        assert(s[j] != c);
        assert(false);
    } else if f < j {
        assert(s[f] != c);
        assert(false);
    } else if f > j {
        assert(s[j] != c);
        assert(false);
    }
}

/// Removes one trailing carriage return, as line splitting does.
pub open spec fn strip_cr(l: Seq<char>) -> Seq<char> {
    if l.len() > 0 && l[l.len() - 1] == '\r' {
        l.drop_last()
    } else {
        l
    }
}

/// The lines of `s`: split at `\n`, dropping one `\r` before each split
/// point, with no final empty line after a trailing `\n`.
pub open spec fn split_lines(s: Seq<char>) -> Seq<Seq<char>>
    decreases s.len(),
{
    if s.len() == 0 {
        Seq::empty()
    } else {
        let i = find_ch(s, '\n');
        if 0 <= i < s.len() {
            seq![strip_cr(s.take(i))] + split_lines(s.skip(i + 1))
        } else {
            seq![s]
        }
    }
}

/// The views of a sequence of character vectors.
pub open spec fn views_of(ls: Seq<Vec<char>>) -> Seq<Seq<char>> {
    ls.map_values(|l: Vec<char>| l@)
}

proof fn lemma_split_lines_step(s: Seq<char>, j: int)
    requires
        0 <= j < s.len(),
        s[j] == '\n',
        forall|i: int| 0 <= i < j ==> s[i] != '\n',
    ensures
        split_lines(s) == seq![strip_cr(s.take(j))] + split_lines(s.skip(j + 1)),
{
    lemma_find_ch_at(s, '\n', j);
}

proof fn lemma_split_lines_nolf(s: Seq<char>)
    requires
        s.len() > 0,
        forall|i: int| 0 <= i < s.len() ==> s[i] != '\n',
    ensures
        split_lines(s) == seq![s],
{
    lemma_find_ch(s, '\n');
    let f = find_ch(s, '\n');
    if 0 <= f < s.len() {
        assert(s[f] != '\n');
        assert(false);
    }
}

/// Splits a character vector into its lines.
pub fn split_lines_chars(v: &Vec<char>) -> (r: Vec<Vec<char>>)
    ensures
        views_of(r@) == split_lines(v@),
{
    let n = v.len();
    let mut r: Vec<Vec<char>> = Vec::new();
    let mut start: usize = 0;
    let mut i: usize = 0;
    proof {
        assert(v@.skip(0) =~= v@);
        assert(views_of(r@) =~= Seq::<Seq<char>>::empty());
        assert(Seq::<Seq<char>>::empty() + split_lines(v@) =~= split_lines(v@));
    }
    while i < n
        invariant
            start <= i <= n,
            n == v@.len(),
            views_of(r@) + split_lines(v@.skip(start as int)) == split_lines(v@),
            forall|k: int| start <= k < i ==> v@[k] != '\n',
        decreases n - i,
    {
        if v[i] == '\n' {
            let mut line = sub_vec(v, start, i);
            if line.len() > 0 && line[line.len() - 1] == '\r' {
                let _ = line.pop();
            }
            let ghost rem = v@.skip(start as int);
            proof {
                let j = i - start;
                assert(rem[j] == v@[i as int]);
                assert(forall|k: int| 0 <= k < j ==> rem[k] == v@[start + k]);
                lemma_split_lines_step(rem, j);
                assert(rem.take(j) =~= v@.subrange(start as int, i as int));
                assert(rem.skip(j + 1) =~= v@.skip(i + 1));
                assert(line@ == strip_cr(rem.take(j)));
            }
            r.push(line);
            proof {
                assert(views_of(r@) =~= views_of(r@.drop_last()) + seq![line@]);
                assert((views_of(r@.drop_last()) + seq![line@]) + split_lines(v@.skip(i + 1))
                    =~= views_of(r@.drop_last()) + (seq![line@] + split_lines(v@.skip(i + 1))));
            }
            start = i + 1;
        }
        i = i + 1;
    }
    let ghost rem = v@.skip(start as int);
    if start < n {
        let line = sub_vec(v, start, n);
        proof {
            assert(forall|k: int| 0 <= k < rem.len() ==> rem[k] == v@[start + k]);
            lemma_split_lines_nolf(rem);
            assert(line@ =~= rem);
        }
        r.push(line);
        proof {
            assert(views_of(r@) =~= views_of(r@.drop_last()) + seq![line@]);
            assert((views_of(r@.drop_last()) + seq![line@]) =~= views_of(r@.drop_last()) + seq![
                rem,
            ]);
        }
    } else {
        proof {
            assert(rem =~= Seq::<char>::empty());
            assert(views_of(r@) + split_lines(rem) =~= views_of(r@));
        }
    }
    r
}

/// The lines joined with a `\n` terminator after each line.
pub open spec fn join_term(ls: Seq<Seq<char>>) -> Seq<char>
    decreases ls.len(),
{
    if ls.len() == 0 {
        Seq::empty()
    } else {
        ls[0] + seq!['\n'] + join_term(ls.drop_first())
    }
}

/// The lines joined with a `\n` separator between lines.
pub open spec fn join_sep(ls: Seq<Seq<char>>) -> Seq<char>
    decreases ls.len(),
{
    if ls.len() == 0 {
        Seq::empty()
    } else if ls.len() == 1 {
        ls[0]
    } else {
        ls[0] + seq!['\n'] + join_sep(ls.drop_first())
    }
}

pub proof fn lemma_join_term_push(ls: Seq<Seq<char>>, l: Seq<char>)
    ensures
        join_term(ls.push(l)) == join_term(ls) + l + seq!['\n'],
    decreases ls.len(),
{
    if ls.len() == 0 {
        assert(ls.push(l)[0] == l);
        assert(ls.push(l).drop_first() =~= Seq::<Seq<char>>::empty());
        assert(join_term(ls.push(l)) == l + seq!['\n'] + join_term(Seq::<Seq<char>>::empty()));
        assert(join_term(Seq::<Seq<char>>::empty()) == Seq::<char>::empty());
        assert(l + seq!['\n'] + Seq::<char>::empty() =~= join_term(ls) + l + seq!['\n']);
    } else {
        assert(ls.push(l).drop_first() =~= ls.drop_first().push(l));
        lemma_join_term_push(ls.drop_first(), l);
        assert(ls.push(l)[0] == ls[0]);
        assert(ls[0] + seq!['\n'] + (join_term(ls.drop_first()) + l + seq!['\n']) =~= (ls[0]
            + seq!['\n'] + join_term(ls.drop_first())) + l + seq!['\n']);
    }
}

pub proof fn lemma_join_sep_push(ls: Seq<Seq<char>>, l: Seq<char>)
    requires
        ls.len() > 0,
    ensures
        join_sep(ls.push(l)) == join_sep(ls) + seq!['\n'] + l,
    decreases ls.len(),
{
    if ls.len() == 1 {
        assert(ls.push(l)[0] == ls[0]);
        assert(ls.push(l).drop_first() =~= seq![l]);
        assert(join_sep(seq![l]) == l);
        assert(ls[0] + seq!['\n'] + l =~= join_sep(ls) + seq!['\n'] + l);
    } else {
        assert(ls.push(l).drop_first() =~= ls.drop_first().push(l));
        lemma_join_sep_push(ls.drop_first(), l);
        assert(ls.push(l)[0] == ls[0]);
        assert(ls[0] + seq!['\n'] + (join_sep(ls.drop_first()) + seq!['\n'] + l) =~= (ls[0]
            + seq!['\n'] + join_sep(ls.drop_first())) + seq!['\n'] + l);
    }
}

/// Joins lines, writing a newline after each line.
pub fn join_term_chars(lines: &Vec<Vec<char>>) -> (r: Vec<char>)
    ensures
        r@ == join_term(views_of(lines@)),
{
    let mut r: Vec<char> = Vec::new();
    let mut i: usize = 0;
    proof {
        assert(views_of(lines@).take(0) =~= Seq::<Seq<char>>::empty());
    }
    while i < lines.len()
        invariant
            i <= lines@.len(),
            r@ == join_term(views_of(lines@).take(i as int)),
        decreases lines@.len() - i,
    {
        push_all(&mut r, &lines[i]);
        r.push('\n');
        proof {
            let vs = views_of(lines@);
            lemma_join_term_push(vs.take(i as int), vs[i as int]);
            assert(vs.take(i + 1) =~= vs.take(i as int).push(vs[i as int]));
            assert(r@ =~= join_term(vs.take(i as int)) + vs[i as int] + seq!['\n']);
        }
        i = i + 1;
    }
    proof {
        assert(views_of(lines@).take(lines@.len() as int) =~= views_of(lines@));
    }
    r
}

/// Joins lines with a newline between lines.
pub fn join_sep_chars(lines: &Vec<Vec<char>>) -> (r: Vec<char>)
    ensures
        r@ == join_sep(views_of(lines@)),
{
    let mut r: Vec<char> = Vec::new();
    if lines.len() == 0 {
        return r;
    }
    push_all(&mut r, &lines[0]);
    proof {
        let vs = views_of(lines@);
        assert(vs.take(1) =~= seq![vs[0]]);
        assert(join_sep(seq![vs[0]]) == vs[0]);
        assert(r@ == join_sep(vs.take(1)));
    }
    let mut i: usize = 1;
    while i < lines.len()
        invariant
            1 <= i <= lines@.len(),
            r@ == join_sep(views_of(lines@).take(i as int)),
        decreases lines@.len() - i,
    {
        r.push('\n');
        push_all(&mut r, &lines[i]);
        proof {
            let vs = views_of(lines@);
            lemma_join_sep_push(vs.take(i as int), vs[i as int]);
            assert(vs.take(i + 1) =~= vs.take(i as int).push(vs[i as int]));
            assert(r@ =~= join_sep(vs.take(i as int)) + seq!['\n'] + vs[i as int]);
        }
        i = i + 1;
    }
    proof {
        assert(views_of(lines@).take(lines@.len() as int) =~= views_of(lines@));
    }
    r
}

/// A line that line-splitting reproduces exactly: it holds no newline and
/// does not end in a carriage return.
pub open spec fn line_ok(l: Seq<char>) -> bool {
    (forall|i: int| 0 <= i < l.len() ==> l[i] != '\n') && (l.len() == 0 || l[l.len() - 1] != '\r')
}

/// Splitting the newline-terminated join of well-formed lines yields the
/// lines back.
pub proof fn lemma_split_join_term(ls: Seq<Seq<char>>)
    requires
        forall|k: int| 0 <= k < ls.len() ==> line_ok(#[trigger] ls[k]),
    ensures
        split_lines(join_term(ls)) == ls,
    decreases ls.len(),
{
    if ls.len() == 0 {
        assert(split_lines(join_term(ls)) =~= ls);
    } else {
        let l0 = ls[0];
        let rest = join_term(ls.drop_first());
        let s = join_term(ls);
        assert(s == l0 + seq!['\n'] + rest);
        let j = l0.len() as int;
        assert(s.len() == l0.len() + 1 + rest.len());
        assert forall|k: int| 0 <= k < j implies s[k] != '\n' by {
            assert(s[k] == l0[k]);
            assert(line_ok(l0));
        }
        assert(s[j] == '\n');
        lemma_split_lines_step(s, j);
        assert(s.take(j) =~= l0);
        assert(strip_cr(l0) == l0);
        assert(s.skip(j + 1) =~= rest);
        assert(forall|k: int| 0 <= k < ls.drop_first().len() ==> line_ok(
            #[trigger] ls.drop_first()[k],
        ));
        lemma_split_join_term(ls.drop_first());
        assert(seq![l0] + ls.drop_first() =~= ls);
    }
}

} // verus!
