//! Command templates and the substitution of their placeholders.
//!
//! A template is plain text in which `{path}` stands for the file to run and
//! `{dir}` for the directory that holds it. Substitution is literal text
//! replacement: first every `{path}`, then every `{dir}` in what that gave.

use vstd::prelude::*;
use crate::text::{chars_of, string_of};

verus! {

/// The placeholder `{path}`.
pub open spec fn path_placeholder() -> Seq<char> {
    seq!['{', 'p', 'a', 't', 'h', '}']
}

/// The placeholder `{dir}`.
pub open spec fn dir_placeholder() -> Seq<char> {
    seq!['{', 'd', 'i', 'r', '}']
}

/// `pat` stands in `s` at position `i`.
pub open spec fn occurs_at(s: Seq<char>, i: int, pat: Seq<char>) -> bool {
    0 <= i && i + pat.len() <= s.len() && s.subrange(i, i + pat.len()) == pat
}

/// `pat` stands somewhere in `s`.
pub open spec fn occurs_in(s: Seq<char>, pat: Seq<char>) -> bool {
    exists|i: int| occurs_at(s, i, pat)
}

/// `s` with every occurrence of the non-empty text `pat` replaced by `to`,
/// reading from the left; occurrences do not overlap.
pub open spec fn replace_all(s: Seq<char>, pat: Seq<char>, to: Seq<char>) -> Seq<char>
    decreases s.len(),
{
    if pat.len() == 0 || s.len() < pat.len() {
        s
    } else if s.subrange(0, pat.len() as int) == pat {
        to + replace_all(s.skip(pat.len() as int), pat, to)
    } else {
        seq![s[0]] + replace_all(s.skip(1), pat, to)
    }
}

/// What a template becomes for a given path and directory.
pub open spec fn substituted(template: Seq<char>, path: Seq<char>, dir: Seq<char>) -> Seq<char> {
    replace_all(replace_all(template, path_placeholder(), path), dir_placeholder(), dir)
}

fn matches_at(s: &Vec<char>, i: usize, pat: &Vec<char>) -> (r: bool)
    requires
        i <= s.len(),
    ensures
        r == occurs_at(s@, i as int, pat@),
{
    if pat.len() > s.len() - i {
        return false;
    }
    let mut j: usize = 0;
    while j < pat.len()
        invariant
            i + pat.len() <= s.len(),
            j <= pat.len(),
            forall|k: int| 0 <= k < j ==> s@[i + k] == pat@[k],
        decreases pat.len() - j,
    {
        if s[i + j] != pat[j] {
            assert(s@.subrange(i as int, i + pat.len())[j as int] != pat@[j as int]);
            return false;
        }
        j += 1;
    }
    assert(s@.subrange(i as int, i + pat.len()) =~= pat@);
    true
}

fn append_chars(out: &mut Vec<char>, src: &Vec<char>)
    ensures
        final(out)@ == old(out)@ + src@,
{
    let mut k: usize = 0;
    while k < src.len()
        invariant
            k <= src.len(),
            out@ == old(out)@ + src@.take(k as int),
        decreases src.len() - k,
    {
        out.push(src[k]);
        assert(src@.take(k + 1) =~= src@.take(k as int).push(src@[k as int]));
        assert(out@ =~= old(out)@ + src@.take(k + 1));
        k += 1;
    }
    assert(src@.take(src.len() as int) =~= src@);
}

fn replace_chars(s: &Vec<char>, pat: &Vec<char>, to: &Vec<char>) -> (out: Vec<char>)
    requires
        pat.len() > 0,
    ensures
        out@ == replace_all(s@, pat@, to@),
{
    let mut out: Vec<char> = Vec::new();
    let mut i: usize = 0;
    assert(s@.skip(0) =~= s@);
    assert(out@ + replace_all(s@, pat@, to@) =~= replace_all(s@, pat@, to@));
    while i < s.len()
        invariant
            i <= s.len(),
            pat.len() > 0,
            out@ + replace_all(s@.skip(i as int), pat@, to@) == replace_all(s@, pat@, to@),
        decreases s.len() - i,
    {
        let ghost rest = s@.skip(i as int);
        let ghost before = out@;
        if matches_at(s, i, pat) {
            append_chars(&mut out, to);
            proof {
                assert(rest.subrange(0, pat.len() as int) =~= s@.subrange(i as int, i + pat.len()));
                assert(rest.skip(pat.len() as int) =~= s@.skip(i + pat.len()));
                assert(out@ + replace_all(s@.skip(i + pat.len()), pat@, to@) =~= before
                    + replace_all(rest, pat@, to@));
            }
            i += pat.len();
        } else {
            out.push(s[i]);
            proof {
                assert(rest.skip(1) =~= s@.skip(i + 1));
                assert(rest[0] == s@[i as int]);
                if rest.len() < pat.len() {
                    assert(rest =~= seq![rest[0]] + rest.skip(1));
                } else {
                    assert(rest.subrange(0, pat.len() as int) =~= s@.subrange(
                        i as int,
                        i + pat.len(),
                    ));
                }
                assert(out@ + replace_all(s@.skip(i + 1), pat@, to@) =~= before + replace_all(
                    rest,
                    pat@,
                    to@,
                ));
            }
            i += 1;
        }
    }
    assert(s@.skip(s.len() as int) =~= Seq::<char>::empty());
    assert(out@ + Seq::<char>::empty() =~= out@);
    out
}

/// Fills a template in: every `{path}` becomes `path`, then every `{dir}`
/// becomes `dir`. Nothing is escaped or quoted.
pub fn substitute(template: &str, path: &str, dir: &str) -> (r: String)
    ensures
        r@ == substituted(template@, path@, dir@),
{
    let t = chars_of(template);
    let p = chars_of(path);
    let d = chars_of(dir);
    let path_mark: Vec<char> = vec!['{', 'p', 'a', 't', 'h', '}'];
    let dir_mark: Vec<char> = vec!['{', 'd', 'i', 'r', '}'];
    assert(path_mark@ =~= path_placeholder());
    assert(dir_mark@ =~= dir_placeholder());
    let first = replace_chars(&t, &path_mark, &p);
    let second = replace_chars(&first, &dir_mark, &d);
    string_of(&second)
}

/// Replacing a text that does not occur changes nothing.
pub proof fn lemma_replace_absent(s: Seq<char>, pat: Seq<char>, to: Seq<char>)
    requires
        !occurs_in(s, pat),
    ensures
        replace_all(s, pat, to) == s,
    decreases s.len(),
{
    if pat.len() == 0 || s.len() < pat.len() {
    } else {
        assert(!occurs_at(s, 0, pat));
        let rest = s.skip(1);
        assert forall|i: int| !occurs_at(rest, i, pat) by {
            if occurs_at(rest, i, pat) {
                assert(rest.subrange(i, i + pat.len()) =~= s.subrange(i + 1, i + 1 + pat.len()));
                assert(occurs_at(s, i + 1, pat));
            }
        }
        lemma_replace_absent(rest, pat, to);
        assert(seq![s[0]] + rest =~= s);
    }
}

/// A template without placeholders is its own substitution.
pub proof fn lemma_plain_template_unchanged(template: Seq<char>, path: Seq<char>, dir: Seq<char>)
    requires
        !occurs_in(template, path_placeholder()),
        !occurs_in(template, dir_placeholder()),
    ensures
        substituted(template, path, dir) == template,
{
    lemma_replace_absent(template, path_placeholder(), path);
    lemma_replace_absent(template, dir_placeholder(), dir);
}

/// The text holds no opening brace.
pub open spec fn no_brace(s: Seq<char>) -> bool {
    forall|i: int| 0 <= i < s.len() ==> s[i] != '{'
}

/// Every opening brace of the text opens the placeholder `pat`.
pub open spec fn braces_open(s: Seq<char>, pat: Seq<char>) -> bool {
    forall|i: int| 0 <= i < s.len() && s[i] == '{' ==> occurs_at(s, i, pat)
}

/// Every opening brace of the text opens `{path}` or `{dir}`.
pub open spec fn braces_open_placeholders(s: Seq<char>) -> bool {
    forall|i: int|
        0 <= i < s.len() && s[i] == '{' ==> occurs_at(s, i, path_placeholder()) || occurs_at(
            s,
            i,
            dir_placeholder(),
        )
}

proof fn lemma_occurrence_shifts(s: Seq<char>, k: int, i: int, pat: Seq<char>)
    requires
        0 <= k <= s.len(),
        0 <= i,
    ensures
        occurs_at(s, i + k, pat) == occurs_at(s.skip(k), i, pat),
{
    if i + k + pat.len() <= s.len() {
        assert(s.skip(k).subrange(i, i + pat.len()) =~= s.subrange(i + k, i + k + pat.len()));
    }
}

proof fn lemma_braces_after_skip(s: Seq<char>, k: int)
    requires
        0 <= k <= s.len(),
    ensures
        braces_open_placeholders(s) ==> braces_open_placeholders(s.skip(k)),
        braces_open(s, dir_placeholder()) ==> braces_open(s.skip(k), dir_placeholder()),
{
    let rest = s.skip(k);
    assert forall|i: int| 0 <= i < rest.len() implies occurs_at(s, i + k, path_placeholder())
        == occurs_at(rest, i, path_placeholder()) && occurs_at(s, i + k, dir_placeholder())
        == occurs_at(rest, i, dir_placeholder()) && rest[i] == s[i + k] by {
        lemma_occurrence_shifts(s, k, i, path_placeholder());
        lemma_occurrence_shifts(s, k, i, dir_placeholder());
    }
}

/// A first character that does not open the pattern is kept as it is.
proof fn lemma_replace_keeps_first(s: Seq<char>, pat: Seq<char>, to: Seq<char>)
    requires
        pat.len() > 0,
        s.len() > 0,
        s[0] != pat[0],
    ensures
        replace_all(s, pat, to) == seq![s[0]] + replace_all(s.skip(1), pat, to),
{
    if s.len() < pat.len() {
        assert(s =~= seq![s[0]] + s.skip(1));
    } else {
        assert(s.subrange(0, pat.len() as int)[0] == s[0]);
    }
}

/// After `{path}` is filled in with a text without braces, every brace that
/// is left opens `{dir}`.
proof fn lemma_path_stage(s: Seq<char>, path: Seq<char>)
    requires
        braces_open_placeholders(s),
        no_brace(path),
    ensures
        braces_open(replace_all(s, path_placeholder(), path), dir_placeholder()),
    decreases s.len(),
{
    let pp = path_placeholder();
    let dp = dir_placeholder();
    let r = replace_all(s, pp, path);
    if s.len() < pp.len() {
        assert forall|i: int| 0 <= i < r.len() && r[i] == '{' implies occurs_at(r, i, dp) by {
            assert(occurs_at(s, i, pp) || occurs_at(s, i, dp));
        }
    } else if s.subrange(0, pp.len() as int) == pp {
        let rest = s.skip(pp.len() as int);
        lemma_braces_after_skip(s, pp.len() as int);
        lemma_path_stage(rest, path);
        let tail = replace_all(rest, pp, path);
        assert(r == path + tail);
        assert forall|i: int| 0 <= i < r.len() && r[i] == '{' implies occurs_at(r, i, dp) by {
            if i < path.len() {
                assert(r[i] == path[i]);
            } else {
                let j = i - path.len();
                assert(tail[j] == r[i]);
                assert(occurs_at(tail, j, dp));
                assert(r.subrange(i, i + dp.len()) =~= tail.subrange(j, j + dp.len()));
            }
        }
    } else {
        let rest = s.skip(1);
        lemma_braces_after_skip(s, 1);
        lemma_path_stage(rest, path);
        let tail = replace_all(rest, pp, path);
        assert(r == seq![s[0]] + tail);
        assert forall|i: int| 0 <= i < r.len() && r[i] == '{' implies occurs_at(r, i, dp) by {
            if i == 0 {
                assert(occurs_at(s, 0, pp) || occurs_at(s, 0, dp));
                assert(occurs_at(s, 0, dp));
                let head = s.subrange(0, dp.len() as int);
                assert(head[1] == 'd' && head[2] == 'i' && head[3] == 'r' && head[4] == '}');
                assert(s[1] == 'd' && s[2] == 'i' && s[3] == 'r' && s[4] == '}');
                assert(s.skip(1).skip(1) =~= s.skip(2));
                assert(s.skip(2).skip(1) =~= s.skip(3));
                assert(s.skip(3).skip(1) =~= s.skip(4));
                assert(s.skip(4).skip(1) =~= s.skip(5));
                lemma_replace_keeps_first(s.skip(1), pp, path);
                lemma_replace_keeps_first(s.skip(2), pp, path);
                lemma_replace_keeps_first(s.skip(3), pp, path);
                lemma_replace_keeps_first(s.skip(4), pp, path);
                assert(r.subrange(0, dp.len() as int) =~= dp);
            } else {
                let j = i - 1;
                assert(tail[j] == r[i]);
                assert(occurs_at(tail, j, dp));
                assert(r.subrange(i, i + dp.len()) =~= tail.subrange(j, j + dp.len()));
            }
        }
    }
}

/// Where every brace opens `{dir}`, filling `{dir}` in with a text without
/// braces leaves no brace.
proof fn lemma_dir_stage(s: Seq<char>, dir: Seq<char>)
    requires
        braces_open(s, dir_placeholder()),
        no_brace(dir),
    ensures
        no_brace(replace_all(s, dir_placeholder(), dir)),
    decreases s.len(),
{
    let dp = dir_placeholder();
    let r = replace_all(s, dp, dir);
    if s.len() < dp.len() {
        assert forall|i: int| 0 <= i < r.len() implies r[i] != '{' by {
            if s[i] == '{' {
                assert(occurs_at(s, i, dp));
            }
        }
    } else if s.subrange(0, dp.len() as int) == dp {
        let rest = s.skip(dp.len() as int);
        lemma_braces_after_skip(s, dp.len() as int);
        lemma_dir_stage(rest, dir);
        assert(r == dir + replace_all(rest, dp, dir));
    } else {
        let rest = s.skip(1);
        lemma_braces_after_skip(s, 1);
        lemma_dir_stage(rest, dir);
        assert(r == seq![s[0]] + replace_all(rest, dp, dir));
        if s[0] == '{' {
            assert(occurs_at(s, 0, dp));
        }
    }
}

/// A text without braces holds no placeholder.
pub proof fn lemma_no_brace_no_placeholder(s: Seq<char>)
    requires
        no_brace(s),
    ensures
        !occurs_in(s, path_placeholder()),
        !occurs_in(s, dir_placeholder()),
{
    assert forall|i: int| !occurs_at(s, i, path_placeholder()) by {
        if occurs_at(s, i, path_placeholder()) {
            assert(s.subrange(i, i + path_placeholder().len())[0] == '{');
        }
    }
    assert forall|i: int| !occurs_at(s, i, dir_placeholder()) by {
        if occurs_at(s, i, dir_placeholder()) {
            assert(s.subrange(i, i + dir_placeholder().len())[0] == '{');
        }
    }
}

/// Substituting twice is substituting once: where every opening brace of the
/// template opens a placeholder, and neither the path nor the directory
/// holds one, the result holds no opening brace, and substituting into it
/// again, with the same path and directory, gives it back.
pub proof fn lemma_substitution_idempotent(template: Seq<char>, path: Seq<char>, dir: Seq<char>)
    requires
        braces_open_placeholders(template),
        no_brace(path),
        no_brace(dir),
    ensures
        no_brace(substituted(template, path, dir)),
        substituted(substituted(template, path, dir), path, dir) == substituted(
            template,
            path,
            dir,
        ),
{
    lemma_path_stage(template, path);
    lemma_dir_stage(replace_all(template, path_placeholder(), path), dir);
    lemma_no_brace_no_placeholder(substituted(template, path, dir));
    lemma_plain_template_unchanged(substituted(template, path, dir), path, dir);
}

} // verus!
