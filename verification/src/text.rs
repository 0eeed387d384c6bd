//! Verified text primitives over character sequences: substring search,
//! prefix and suffix tests, digit parsing, decimal formatting, global
//! replacement, and path-segment extraction.

use vstd::prelude::*;

verus! {

/// `p` occurs in `s` starting at position `i`.
pub open spec fn spec_match_at(s: Seq<char>, p: Seq<char>, i: int) -> bool {
    &&& 0 <= i
    &&& i + p.len() <= s.len()
    &&& s.subrange(i, i + p.len() as int) == p
}

/// `p` occurs somewhere in `s`.
pub open spec fn spec_contains(s: Seq<char>, p: Seq<char>) -> bool {
    exists|i: int| spec_match_at(s, p, i)
}

/// Position of the first occurrence of `p` in `s` at or after `i`.
pub open spec fn spec_find_from(s: Seq<char>, p: Seq<char>, i: int) -> Option<int>
    decreases s.len() - i + 1,
{
    if i + p.len() > s.len() {
        Option::None
    } else if spec_match_at(s, p, i) {
        Option::Some(i)
    } else {
        spec_find_from(s, p, i + 1)
    }
}

/// Position of the first occurrence of `p` in `s`.
pub open spec fn spec_find(s: Seq<char>, p: Seq<char>) -> Option<int> {
    spec_find_from(s, p, 0)
}

/// What `spec_find_from` returns: the first match at or after `i`,
/// or nothing when no position at or after `i` matches.
pub proof fn lemma_find_from_props(s: Seq<char>, p: Seq<char>, i: int)
    ensures
        match spec_find_from(s, p, i) {
            Option::Some(k) => {
                &&& i <= k
                &&& spec_match_at(s, p, k)
                &&& forall|j: int| i <= j < k ==> !spec_match_at(s, p, j)
            },
            Option::None => forall|j: int| i <= j ==> !spec_match_at(s, p, j),
        },
    decreases s.len() - i + 1,
{
    if i + p.len() > s.len() {
        assert forall|j: int| i <= j implies !spec_match_at(s, p, j) by {}
    } else if spec_match_at(s, p, i) {
    } else {
        lemma_find_from_props(s, p, i + 1);
    }
}

/// A successful find is exactly what containment means.
pub proof fn lemma_find_contains(s: Seq<char>, p: Seq<char>)
    ensures
        spec_contains(s, p) <==> spec_find(s, p) is Some,
{
    lemma_find_from_props(s, p, 0);
    if spec_contains(s, p) {
        let w = choose|i: int| spec_match_at(s, p, i);
        assert(0 <= w);
        if spec_find(s, p) is None {
            assert(!spec_match_at(s, p, w));
        }
    }
}

/// Whether `c` is an ASCII decimal digit.
pub open spec fn spec_is_digit(c: char) -> bool {
    48 <= c as u32 <= 57
}

/// Numeric value of an ASCII decimal digit.
pub open spec fn spec_digit_val(c: char) -> nat {
    (c as u32 - 48) as nat
}

/// Value of a sequence of ASCII decimal digits, most significant first.
pub open spec fn spec_dec_val(s: Seq<char>) -> nat
    decreases s.len(),
{
    if s.len() == 0 {
        0
    } else {
        spec_dec_val(s.drop_last()) * 10 + spec_digit_val(s.last())
    }
}

/// First position at or after `i` whose character is not an ASCII digit.
pub open spec fn spec_digit_run_end(s: Seq<char>, i: int) -> int
    decreases s.len() - i + 1,
{
    if 0 <= i < s.len() && spec_is_digit(s[i]) {
        spec_digit_run_end(s, i + 1)
    } else {
        i
    }
}

/// Every digit sequence is worth at least as much as any of its prefixes.
pub proof fn lemma_dec_val_prefix_le(s: Seq<char>, k: int)
    requires
        0 <= k <= s.len(),
    ensures
        spec_dec_val(s.take(k)) <= spec_dec_val(s),
    decreases s.len() - k,
{
    if k == s.len() {
        assert(s.take(k) == s);
    } else {
        lemma_dec_val_prefix_le(s, k + 1);
        assert(s.take(k + 1).drop_last() == s.take(k));
        assert(spec_dec_val(s.take(k)) * 10 >= spec_dec_val(s.take(k)) * 1) by (nonlinear_arith);
    }
}

/// Largest value that fits the ratchet's integer width.
pub open spec fn spec_u32_max() -> nat {
    0xffff_ffff
}

/// Result of parsing a non-empty ASCII digit run as a 32-bit number:
/// nothing when the value overflows.
pub open spec fn spec_parse_u32(s: Seq<char>) -> Option<u32> {
    if spec_dec_val(s) > spec_u32_max() {
        Option::None
    } else {
        Option::Some(spec_dec_val(s) as u32)
    }
}

/// Compares two strings character by character.
pub fn str_eq(a: &str, b: &str) -> (r: bool)
    ensures
        r == (a@ == b@),
{
    let n: usize = a.unicode_len();
    let m: usize = b.unicode_len();
    if n != m {
        assert(a@ != b@) by {
            assert(a@.len() != b@.len());
        }
        return false;
    }
    let mut i: usize = 0;
    while i < n
        invariant
            n == a@.len(),
            n == b@.len(),
            0 <= i <= n,
            forall|k: int| 0 <= k < i ==> a@[k] == b@[k],
        decreases n - i,
    {
        if a.get_char(i) != b.get_char(i) {
            assert(a@ != b@) by {
                assert(a@[i as int] != b@[i as int]);
            }
            return false;
        }
        i += 1;
    }
    proof {
        assert(a@ =~= b@);
    }
    true
}

/// Tests whether `p` occurs in `s` at position `i`.
pub fn match_at(s: &str, p: &str, i: usize) -> (r: bool)
    ensures
        r == spec_match_at(s@, p@, i as int),
{
    let n: usize = s.unicode_len();
    let m: usize = p.unicode_len();
    if i > n || m > n - i {
        assert(!spec_match_at(s@, p@, i as int));
        return false;
    }
    let mut j: usize = 0;
    while j < m
        invariant
            n == s@.len(),
            m == p@.len(),
            i + m <= n,
            0 <= j <= m,
            forall|k: int| 0 <= k < j ==> s@[i + k] == p@[k],
        decreases m - j,
    {
        if s.get_char(i + j) != p.get_char(j) {
            assert(!spec_match_at(s@, p@, i as int)) by {
                assert(s@.subrange(i as int, i + m) != p@) by {
                    assert(s@.subrange(i as int, i + m)[j as int] != p@[j as int]);
                }
            }
            return false;
        }
        j += 1;
    }
    proof {
        assert(s@.subrange(i as int, i + m) =~= p@);
    }
    true
}

/// Position of the first occurrence of `p` in `s`, if any.
pub fn find_sub(s: &str, p: &str) -> (r: Option<usize>)
    ensures
        match r {
            Option::Some(k) => spec_find(s@, p@) == Option::Some(k as int),
            Option::None => spec_find(s@, p@) is None,
        },
{
    let n: usize = s.unicode_len();
    let m: usize = p.unicode_len();
    if m > n {
        return None;
    }
    if m == 0 {
        proof {
            assert(spec_match_at(s@, p@, 0)) by {
                assert(s@.subrange(0, 0) =~= p@);
            }
        }
        return Some(0);
    }
    let mut i: usize = 0;
    while i <= n - m
        invariant
            n == s@.len(),
            m == p@.len(),
            0 < m <= n,
            0 <= i <= n - m + 1,
            spec_find(s@, p@) == spec_find_from(s@, p@, i as int),
        decreases n - m - i + 1,
    {
        if match_at(s, p, i) {
            return Some(i);
        }
        i += 1;
    }
    None
}

/// Tests whether `p` occurs anywhere in `s`.
pub fn contains_sub(s: &str, p: &str) -> (r: bool)
    ensures
        r == spec_contains(s@, p@),
{
    proof {
        lemma_find_contains(s@, p@);
    }
    match find_sub(s, p) {
        Option::Some(_) => true,
        Option::None => false,
    }
}

/// Tests whether `s` starts with `p`.
pub fn starts_with_lit(s: &str, p: &str) -> (r: bool)
    ensures
        r == p@.is_prefix_of(s@),
{
    let r = match_at(s, p, 0);
    proof {
        if r {
            assert(p@.is_prefix_of(s@));
        } else {
            if p@.is_prefix_of(s@) {
                assert(spec_match_at(s@, p@, 0)) by {
                    assert(s@.subrange(0, p@.len() as int) =~= p@);
                }
            }
        }
    }
    r
}

/// Tests whether `s` ends with `p`.
pub fn ends_with_lit(s: &str, p: &str) -> (r: bool)
    ensures
        r == p@.is_suffix_of(s@),
{
    let n: usize = s.unicode_len();
    let m: usize = p.unicode_len();
    if m > n {
        return false;
    }
    let r = match_at(s, p, n - m);
    proof {
        if r {
            assert(p@.is_suffix_of(s@)) by {
                assert(s@.subrange(n - m, n as int) == p@);
            }
        } else {
            if p@.is_suffix_of(s@) {
                assert(spec_match_at(s@, p@, n - m)) by {
                    assert(s@.subrange(n - m, n as int) =~= p@);
                }
            }
        }
    }
    r
}

/// Global replacement of `pat` by `rep`, scanning left to right over
/// non-overlapping occurrences.
pub open spec fn spec_replace(s: Seq<char>, pat: Seq<char>, rep: Seq<char>) -> Seq<char>
    decreases s.len(),
{
    if pat.len() == 0 || s.len() == 0 {
        s
    } else if pat.is_prefix_of(s) {
        rep + spec_replace(s.skip(pat.len() as int), pat, rep)
    } else {
        seq![s[0]] + spec_replace(s.skip(1), pat, rep)
    }
}

/// Replaces every occurrence of `pat` in `s` by `rep`.
pub fn replace_all(s: &str, pat: &str, rep: &str) -> (r: String)
    requires
        pat@.len() > 0,
    ensures
        r@ == spec_replace(s@, pat@, rep@),
{
    let n: usize = s.unicode_len();
    let m: usize = pat.unicode_len();
    let mut out: String = String::new();
    let mut i: usize = 0;
    proof {
        assert(s@.skip(0) =~= s@);
        assert(Seq::<char>::empty() + spec_replace(s@, pat@, rep@) =~= spec_replace(
            s@,
            pat@,
            rep@,
        ));
    }
    while i < n
        invariant
            n == s@.len(),
            m == pat@.len(),
            m > 0,
            0 <= i <= n,
            spec_replace(s@, pat@, rep@) == out@ + spec_replace(
                s@.skip(i as int),
                pat@,
                rep@,
            ),
        decreases n - i,
    {
        if match_at(s, pat, i) {
            proof {
                assert(pat@.is_prefix_of(s@.skip(i as int))) by {
                    assert(s@.skip(i as int).subrange(0, m as int) =~= s@.subrange(
                        i as int,
                        i + m,
                    ));
                }
                assert(s@.skip(i as int).skip(m as int) =~= s@.skip(i + m));
            }
            out.append(rep);
            i += m;
        } else {
            proof {
                assert(s@.skip(i as int).len() > 0);
                if pat@.is_prefix_of(s@.skip(i as int)) {
                    assert(spec_match_at(s@, pat@, i as int)) by {
                        assert(s@.subrange(i as int, i + m) =~= s@.skip(i as int).subrange(
                            0,
                            m as int,
                        ));
                    }
                }
                assert(s@.skip(i as int).skip(1) =~= s@.skip(i + 1));
                assert(seq![s@.skip(i as int)[0]] =~= s@.subrange(i as int, i + 1));
            }
            let piece = s.substring_char(i, i + 1);
            out.append(piece);
            i += 1;
        }
    }
    proof {
        assert(s@.skip(n as int) =~= Seq::<char>::empty());
        assert(spec_replace(Seq::<char>::empty(), pat@, rep@) =~= Seq::<char>::empty());
        assert(out@ + Seq::<char>::empty() =~= out@);
    }
    out
}

/// The part of `s` after its last `/`, or all of `s` when it has none.
pub open spec fn spec_last_segment(s: Seq<char>) -> Seq<char>
    decreases s.len(),
{
    if s.len() == 0 {
        s
    } else if s.last() == '/' {
        Seq::empty()
    } else {
        spec_last_segment(s.drop_last()).push(s.last())
    }
}

/// The last segment is the subrange that starts just after the last
/// slash (or at the front when there is none).
pub proof fn lemma_last_segment_subrange(s: Seq<char>, k: int)
    requires
        0 <= k <= s.len(),
        forall|j: int| k <= j < s.len() ==> s[j] != '/',
        k == 0 || s[k - 1] == '/',
    ensures
        spec_last_segment(s) == s.subrange(k, s.len() as int),
    decreases s.len(),
{
    if s.len() == 0 {
        assert(s.subrange(0, 0) =~= s);
    } else if s.last() == '/' {
        assert(k == s.len());
        assert(s.subrange(k, s.len() as int) =~= Seq::<char>::empty());
    } else {
        assert(k < s.len());
        lemma_last_segment_subrange(s.drop_last(), k);
        assert(s.subrange(k, s.len() as int) =~= s.drop_last().subrange(
            k,
            s.len() - 1,
        ).push(s.last()));
    }
}

/// Returns the part of `s` after its last `/`, or all of `s` when it
/// has none.
pub fn last_segment(s: &str) -> (r: String)
    ensures
        r@ == spec_last_segment(s@),
{
    let n: usize = s.unicode_len();
    let mut i: usize = 0;
    let mut start: usize = 0;
    while i < n
        invariant
            n == s@.len(),
            0 <= start <= i <= n,
            forall|j: int| start <= j < i ==> s@[j] != '/',
            start == 0 || s@[start - 1] == '/',
        decreases n - i,
    {
        if s.get_char(i) == '/' {
            start = i + 1;
        }
        i += 1;
    }
    proof {
        lemma_last_segment_subrange(s@, start as int);
    }
    let seg = s.substring_char(start, n);
    seg.to_owned()
}

/// Decimal digit character for a value below ten.
pub open spec fn spec_digit_char(d: nat) -> char {
    "0123456789"@[d as int]
}

/// Decimal rendering of `n`, most significant digit first.
pub open spec fn spec_dec_str(n: nat) -> Seq<char>
    decreases n,
{
    if n < 10 {
        seq![spec_digit_char(n)]
    } else {
        spec_dec_str(n / 10).push(spec_digit_char(n % 10))
    }
}

/// One-character string for a digit value.
fn digit_literal(d: u16) -> (r: &'static str)
    requires
        d < 10,
    ensures
        r@ == seq![spec_digit_char(d as nat)],
{
    proof {
        reveal_strlit("0123456789");
        reveal_strlit("0");
        reveal_strlit("1");
        reveal_strlit("2");
        reveal_strlit("3");
        reveal_strlit("4");
        reveal_strlit("5");
        reveal_strlit("6");
        reveal_strlit("7");
        reveal_strlit("8");
        reveal_strlit("9");
    }
    let r = match d {
        0u16 => "0",
        1u16 => "1",
        2u16 => "2",
        3u16 => "3",
        4u16 => "4",
        5u16 => "5",
        6u16 => "6",
        7u16 => "7",
        8u16 => "8",
        _ => "9",
    };
    proof {
        assert(r@ =~= seq![spec_digit_char(d as nat)]);
    }
    r
}

/// Appends the decimal rendering of `n` to `out`.
pub fn append_u16_dec(out: &mut String, n: u16)
    ensures
        final(out)@ == old(out)@ + spec_dec_str(n as nat),
    decreases n,
{
    if n >= 10 {
        append_u16_dec(out, n / 10);
    }
    out.append(digit_literal(n % 10));
    proof {
        if n < 10 {
            assert(old(out)@ + seq![spec_digit_char((n % 10) as nat)] =~= old(out)@
                + spec_dec_str(n as nat));
        } else {
            assert((old(out)@ + spec_dec_str((n / 10) as nat)) + seq![
                spec_digit_char((n % 10) as nat),
            ] =~= old(out)@ + spec_dec_str(n as nat));
        }
    }
}

} // verus!
