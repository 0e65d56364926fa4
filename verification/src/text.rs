//! Verified plain-text helpers: placeholder substitution for the sponsor's
//! templated texts and decimal rendering of numbers for spoken prompts.

use vstd::prelude::*;

verus! {

/// Leftmost-first replacement of every occurrence of `pat` in `s` by `sub`.
/// An empty pattern leaves the text unchanged.
pub open spec fn spec_replace(s: Seq<char>, pat: Seq<char>, sub: Seq<char>) -> Seq<char>
    decreases s.len(),
{
    if pat.len() == 0 || s.len() < pat.len() {
        s
    } else if s.subrange(0, pat.len() as int) == pat {
        sub + spec_replace(s.skip(pat.len() as int), pat, sub)
    } else {
        seq![s[0]] + spec_replace(s.skip(1), pat, sub)
    }
}

/// The decimal digits of `n`, most significant first.
pub open spec fn dec_digits(n: nat) -> Seq<char>
    decreases n,
{
    if n < 10 {
        seq![((48 + n) as u8) as char]
    } else {
        dec_digits(n / 10).push(((48 + n % 10) as u8) as char)
    }
}

/// The decimal rendering of a possibly negative number.
pub open spec fn dec_int(n: int) -> Seq<char> {
    if n < 0 {
        seq!['-'] + dec_digits((-n) as nat)
    } else {
        dec_digits(n as nat)
    }
}

/// Relies on String::push: appends exactly the one character.
#[verifier::external_body]
pub(crate) fn push_char(s: &mut String, c: char)
    ensures
        final(s)@ == old(s)@.push(c),
{
    s.push(c);
}

/// Whether `pat` occurs in `s` starting at character position `at`.
fn matches_at(s: &str, pat: &str, at: usize) -> (b: bool)
    requires
        at + pat@.len() <= s@.len(),
        s@.len() <= usize::MAX,
    ensures
        b == (s@.subrange(at as int, at + pat@.len()) == pat@),
{
    let m: usize = pat.unicode_len();
    let mut j: usize = 0;
    while j < m
        invariant
            j <= m,
            m == pat@.len(),
            at + m <= s@.len(),
            s@.len() <= usize::MAX,
            forall|k: int| 0 <= k < j ==> s@[at + k] == pat@[k],
        decreases m - j,
    {
        if s.get_char(at + j) != pat.get_char(j) {
            assert(s@.subrange(at as int, at + pat@.len())[j as int] != pat@[j as int]);
            return false;
        }
        j += 1;
    }
    assert(s@.subrange(at as int, at + pat@.len()) =~= pat@);
    true
}

/// Replaces every occurrence of `pat` in `s` by `sub`, leftmost first.
pub fn replace_all(s: &str, pat: &str, sub: &str) -> (r: String)
    ensures
        r@ == spec_replace(s@, pat@, sub@),
{
    let n: usize = s.unicode_len();
    let m: usize = pat.unicode_len();
    if m == 0 {
        return s.to_owned();
    }
    let mut out = String::new();
    let mut i: usize = 0;
    assert(s@.skip(0) =~= s@);
    assert(out@ + spec_replace(s@, pat@, sub@) =~= spec_replace(s@, pat@, sub@));
    while n - i >= m
        invariant
            i <= n,
            1 <= m == pat@.len(),
            n == s@.len(),
            spec_replace(s@, pat@, sub@) == out@ + spec_replace(s@.skip(i as int), pat@, sub@),
        decreases n - i,
    {
        let ghost rest = s@.skip(i as int);
        if matches_at(s, pat, i) {
            assert(rest.subrange(0, pat@.len() as int) =~= s@.subrange(
                i as int,
                i + pat@.len(),
            ));
            out.append(sub);
            i += m;
            assert(rest.skip(m as int) =~= s@.skip(i as int));
        } else {
            assert(rest.subrange(0, pat@.len() as int) =~= s@.subrange(
                i as int,
                i + pat@.len(),
            ));
            let c = s.get_char(i);
            push_char(&mut out, c);
            i += 1;
            assert(seq![rest[0]] =~= seq![s@[i - 1]]);
            assert(rest.skip(1) =~= s@.skip(i as int));
            assert(out@ + spec_replace(s@.skip(i as int), pat@, sub@) == spec_replace(
                s@,
                pat@,
                sub@,
            ));
        }
    }
    let tail = s.substring_char(i, n);
    out.append(tail);
    assert(s@.skip(i as int) =~= s@.subrange(i as int, n as int));
    out
}

/// Character-for-character equality of two text slices.
pub fn str_eq(a: &str, b: &str) -> (r: bool)
    ensures
        r == (a@ == b@),
{
    let n: usize = a.unicode_len();
    let m: usize = b.unicode_len();
    if n != m {
        assert(a@ != b@);
        return false;
    }
    let mut i: usize = 0;
    while i < n
        invariant
            i <= n,
            n == a@.len(),
            n == b@.len(),
            forall|k: int| 0 <= k < i ==> a@[k] == b@[k],
        decreases n - i,
    {
        if a.get_char(i) != b.get_char(i) {
            return false;
        }
        i += 1;
    }
    assert(a@ =~= b@);
    true
}

/// The decimal text of an unsigned number.
pub fn u64_to_string(n: u64) -> (r: String)
    ensures
        r@ == dec_digits(n as nat),
    decreases n,
{
    if n < 10 {
        let mut out = String::new();
        push_char(&mut out, (48 + n as u8) as char);
        assert(out@ =~= dec_digits(n as nat));
        out
    } else {
        let mut out = u64_to_string(n / 10);
        push_char(&mut out, (48 + (n % 10) as u8) as char);
        out
    }
}

/// The decimal text of a signed number, with a leading minus sign when negative.
pub fn i64_to_string(n: i64) -> (r: String)
    ensures
        r@ == dec_int(n as int),
{
    if n >= 0 {
        u64_to_string(n as u64)
    } else {
        let magnitude: u64 = ((-(n + 1)) as u64) + 1;
        let mut out = String::new();
        push_char(&mut out, '-');
        let digits = u64_to_string(magnitude);
        out.append(digits.as_str());
        assert(out@ =~= seq!['-'] + dec_digits(magnitude as nat));
        out
    }
}

} // verus!
