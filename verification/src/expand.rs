//! Placeholder expansion: textual replacement of the `$APPLICATIONS` and
//! `$HOME` tokens inside an installation path.

use vstd::prelude::*;

verus! {

/// The token that expansion replaces with the application-install directory.
pub open spec fn applications_token() -> Seq<char> {
    seq!['$', 'A', 'P', 'P', 'L', 'I', 'C', 'A', 'T', 'I', 'O', 'N', 'S']
}

/// The token that expansion replaces with the user's home directory.
pub open spec fn home_token() -> Seq<char> {
    seq!['$', 'H', 'O', 'M', 'E']
}

/// `pat` occurs in `s` starting at position `i`.
pub open spec fn occurs_at(s: Seq<char>, pat: Seq<char>, i: int) -> bool {
    0 <= i && i + pat.len() <= s.len() && s.subrange(i, i + pat.len() as int) == pat
}

/// `pat` occurs somewhere in `s`.
pub open spec fn occurs(s: Seq<char>, pat: Seq<char>) -> bool {
    exists|i: int| occurs_at(s, pat, i)
}

/// Replacement of every occurrence of `pat` in `s` by `to`, scanning left to
/// right and never rescanning replaced text, as `str::replace` does.
pub open spec fn spec_replace(s: Seq<char>, pat: Seq<char>, to: Seq<char>) -> Seq<char>
    decreases s.len(),
{
    if pat.len() == 0 || s.len() < pat.len() {
        s
    } else if s.subrange(0, pat.len() as int) == pat {
        to + spec_replace(s.skip(pat.len() as int), pat, to)
    } else {
        seq![s[0]] + spec_replace(s.skip(1), pat, to)
    }
}

/// Expansion of a path template: every `$APPLICATIONS` becomes the
/// application-install directory, then every `$HOME` becomes the home
/// directory.
pub open spec fn spec_expand(s: Seq<char>, app_dir: Seq<char>, home: Seq<char>) -> Seq<char> {
    spec_replace(spec_replace(s, applications_token(), app_dir), home_token(), home)
}

/// A text without occurrences of `pat` is left unchanged by replacement.
pub proof fn lemma_replace_no_occurrence(s: Seq<char>, pat: Seq<char>, to: Seq<char>)
    requires
        pat.len() > 0,
        !occurs(s, pat),
    ensures
        spec_replace(s, pat, to) == s,
    decreases s.len(),
{
    if s.len() < pat.len() {
    } else if s.subrange(0, pat.len() as int) == pat {
        assert(occurs_at(s, pat, 0));
        assert(false);
    } else {
        assert forall|i: int| !occurs_at(s.skip(1), pat, i) by {
            if occurs_at(s.skip(1), pat, i) {
                assert(s.subrange(i + 1, i + 1 + pat.len() as int) =~= s.skip(1).subrange(
                    i,
                    i + pat.len() as int,
                ));
                assert(occurs_at(s, pat, i + 1));
            }
        }
        lemma_replace_no_occurrence(s.skip(1), pat, to);
        assert(seq![s[0]] + s.skip(1) =~= s);
    }
}

/// Expansion returns a path without placeholder tokens unchanged.
///
/// This is the idempotence of expansion on token-free inputs: expanding such
/// a path a second time, with any directories, gives it back as it is.
pub proof fn lemma_expand_no_tokens(s: Seq<char>, app_dir: Seq<char>, home: Seq<char>)
    requires
        !occurs(s, applications_token()),
        !occurs(s, home_token()),
    ensures
        spec_expand(s, app_dir, home) == s,
{
    assert(applications_token().len() == 13);
    assert(home_token().len() == 5);
    lemma_replace_no_occurrence(s, applications_token(), app_dir);
    lemma_replace_no_occurrence(s, home_token(), home);
}

/// Whether `pat` occurs in `s` at position `i`, decided by comparing the
/// characters one by one.
fn matches_at(s: &Vec<char>, pat: &Vec<char>, i: usize) -> (b: bool)
    requires
        i + pat@.len() <= s@.len(),
    ensures
        b == occurs_at(s@, pat@, i as int),
{
    let ghost m = pat@.len() as int;
    let n = s.len();
    let mut j: usize = 0;
    while j < pat.len()
        invariant
            n == s@.len(),
            i + pat@.len() <= s@.len(),
            j <= pat@.len(),
            m == pat@.len(),
            forall|k: int| 0 <= k < j ==> s@[i + k] == pat@[k],
        decreases pat@.len() - j,
    {
        if s[i + j] != pat[j] {
            proof {
                let sub = s@.subrange(i as int, i + m);
                assert(sub[j as int] == s@[i + j]);
                assert(sub != pat@) by {
                    if sub == pat@ {
                        assert(sub[j as int] == pat@[j as int]);
                    }
                }
            }
            return false;
        }
        j += 1;
    }
    proof {
        assert(s@.subrange(i as int, i + m) =~= pat@);
    }
    true
}

/// Replaces every occurrence of `pat` in `s` by `to`, scanning left to right.
pub fn replace_all(s: &Vec<char>, pat: &Vec<char>, to: &Vec<char>) -> (r: Vec<char>)
    requires
        pat@.len() > 0,
    ensures
        r@ == spec_replace(s@, pat@, to@),
{
    let ghost m = pat@.len() as int;
    let mut out: Vec<char> = Vec::new();
    let mut i: usize = 0;
    proof {
        assert(s@.skip(0) =~= s@);
        assert(out@ + spec_replace(s@, pat@, to@) =~= spec_replace(s@, pat@, to@));
    }
    while i < s.len()
        invariant
            pat@.len() > 0,
            m == pat@.len(),
            i <= s@.len(),
            spec_replace(s@, pat@, to@) == out@ + spec_replace(s@.skip(i as int), pat@, to@),
        decreases s@.len() - i,
    {
        let ghost rest = s@.skip(i as int);
        if pat.len() <= s.len() - i && matches_at(s, pat, i) {
            proof {
                assert(rest.subrange(0, m) =~= s@.subrange(i as int, i + m));
                assert(rest.subrange(0, m) == pat@);
                assert(rest.skip(m) =~= s@.skip(i + m));
            }
            let mut j: usize = 0;
            let ghost out_before = out@;
            while j < to.len()
                invariant
                    j <= to@.len(),
                    out@ == out_before + to@.subrange(0, j as int),
                decreases to@.len() - j,
            {
                out.push(to[j]);
                proof {
                    assert(out_before + to@.subrange(0, j as int).push(to@[j as int])
                        =~= out_before + to@.subrange(0, j as int + 1));
                }
                j += 1;
            }
            proof {
                assert(to@.subrange(0, to@.len() as int) =~= to@);
            }
            i += pat.len();
        } else {
            proof {
                if rest.len() >= m {
                    // No match at this position, so the head character is copied.
                    assert(rest.subrange(0, m) =~= s@.subrange(i as int, i + m));
                    assert(rest.subrange(0, m) != pat@);
                }
                assert(rest[0] == s@[i as int]);
                assert(rest.skip(1) =~= s@.skip(i as int + 1));
                if rest.len() < m {
                    // Near the end the remainder is shorter than the pattern and
                    // is returned whole; copying it one character at a time
                    // builds the same text.
                    assert(spec_replace(rest, pat@, to@) == rest);
                    assert(spec_replace(rest.skip(1), pat@, to@) == rest.skip(1));
                    assert(rest =~= seq![rest[0]] + rest.skip(1));
                }
            }
            out.push(s[i]);
            i += 1;
        }
        proof {
            assert(out@ + spec_replace(s@.skip(i as int), pat@, to@) == spec_replace(
                s@,
                pat@,
                to@,
            )) by {
                if rest.len() >= m && rest.subrange(0, m) == pat@ {
                    assert(spec_replace(rest, pat@, to@) == to@ + spec_replace(
                        rest.skip(m),
                        pat@,
                        to@,
                    ));
                } else if rest.len() >= m {
                    assert(spec_replace(rest, pat@, to@) == seq![rest[0]] + spec_replace(
                        rest.skip(1),
                        pat@,
                        to@,
                    ));
                }
            }
        }
    }
    proof {
        assert(s@.skip(s@.len() as int) =~= Seq::<char>::empty());
        assert(spec_replace(Seq::<char>::empty(), pat@, to@) == Seq::<char>::empty());
        assert(out@ + Seq::<char>::empty() =~= out@);
    }
    out
}

/// The characters of a string, in order, as a vector.
pub fn str_to_chars(s: &str) -> (r: Vec<char>)
    ensures
        r@ == s@,
{
    let n = s.unicode_len();
    let mut r: Vec<char> = Vec::new();
    let mut i: usize = 0;
    while i < n
        invariant
            n == s@.len(),
            i <= n,
            r@ == s@.subrange(0, i as int),
        decreases n - i,
    {
        let c = s.get_char(i);
        r.push(c);
        proof {
            assert(s@.subrange(0, i as int).push(s@[i as int]) =~= s@.subrange(0, i as int + 1));
        }
        i += 1;
    }
    proof {
        assert(s@.subrange(0, n as int) =~= s@);
    }
    r
}

/// Relies on `Iterator::collect` for `String`: concatenating the characters
/// of the vector, in order, yields a string with exactly those characters.
#[verifier::external_body]
pub(crate) fn chars_to_string(v: &Vec<char>) -> (r: String)
    ensures
        r@ == v@,
{
    v.iter().collect()
}

/// The `$APPLICATIONS` token as a character vector.
fn applications_token_vec() -> (v: Vec<char>)
    ensures
        v@ == applications_token(),
{
    let mut v: Vec<char> = Vec::new();
    v.push('$');
    v.push('A');
    v.push('P');
    v.push('P');
    v.push('L');
    v.push('I');
    v.push('C');
    v.push('A');
    v.push('T');
    v.push('I');
    v.push('O');
    v.push('N');
    v.push('S');
    proof {
        assert(v@ =~= applications_token());
    }
    v
}

/// The `$HOME` token as a character vector.
fn home_token_vec() -> (v: Vec<char>)
    ensures
        v@ == home_token(),
{
    let mut v: Vec<char> = Vec::new();
    v.push('$');
    v.push('H');
    v.push('O');
    v.push('M');
    v.push('E');
    proof {
        assert(v@ =~= home_token());
    }
    v
}

/// Expands both placeholder tokens in `path`: every `$APPLICATIONS` becomes
/// `app_dir`, then every `$HOME` becomes `home`.
pub fn expand(path: &str, app_dir: &str, home: &str) -> (r: String)
    ensures
        r@ == spec_expand(path@, app_dir@, home@),
{
    let chars = str_to_chars(path);
    let app_tok = applications_token_vec();
    let home_tok = home_token_vec();
    let app_val = str_to_chars(app_dir);
    let home_val = str_to_chars(home);
    let step1 = replace_all(&chars, &app_tok, &app_val);
    let step2 = replace_all(&step1, &home_tok, &home_val);
    chars_to_string(&step2)
}

} // verus!
