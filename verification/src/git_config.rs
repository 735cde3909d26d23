//! Lightweight parsing of git's own files.
//!
//! These functions read the text of `.git/config`, of
//! `.git/refs/remotes/origin/HEAD` and of a worktree's `.git` file, without
//! spawning git.

use vstd::prelude::*;
use crate::text::{
    trim_seq, trim_start_seq, trim_end_seq, is_ws, has_prefix, first_index_of, chars_of, trim, starts_with, str_eq, strip_prefix,
    split_once_char, lemma_first_index_of,
};
use crate::generate::{split_once_seq, lemma_split_once_after};

verus! {

/// The value of a `key = value` line: all the text after the first `=`,
/// trimmed; `None` without `=`.
pub open spec fn assignment_value(line: Seq<char>) -> Option<Seq<char>> {
    match split_once_seq(line, '=') {
        Some((_, rest)) => Some(trim_seq(rest)),
        None => None,
    }
}

/// The first line of `s` (up to the first newline).
pub open spec fn first_line(s: Seq<char>) -> Seq<char> {
    match first_index_of(s, '\n') {
        Some(i) => s.take(i),
        None => s,
    }
}

/// Scans the lines of `s` for the `url` of the `[remote "origin"]` section;
/// `in_origin` says whether the scan is inside that section.
pub open spec fn scan_origin_url(s: Seq<char>, in_origin: bool) -> Option<Seq<char>>
    decreases s.len(),
{
    let t = trim_seq(first_line(s));
    let next = match first_index_of(s, '\n') {
        Some(i) => Some(s.skip(i + 1)),
        None => None,
    };
    if has_prefix(t, "["@) {
        match next {
            Some(rest) => if rest.len() < s.len() {
                scan_origin_url(rest, t == "[remote \"origin\"]"@)
            } else {
                None
            },
            None => None,
        }
    } else if in_origin && has_prefix(t, "url"@) {
        assignment_value(t)
    } else {
        match next {
            Some(rest) => if rest.len() < s.len() {
                scan_origin_url(rest, in_origin)
            } else {
                None
            },
            None => None,
        }
    }
}

/// The origin URL named by a git config file.
pub open spec fn spec_origin_url(content: Seq<char>) -> Option<Seq<char>> {
    scan_origin_url(content, false)
}

/// The value of a `key = value` line.
fn line_value(t: &str) -> (r: Option<String>)
    ensures
        match assignment_value(t@) {
            Some(v) => r matches Some(x) && x@ == v,
            None => r is None,
        },
{
    match split_once_char(t, '=') {
        Some((_, rest)) => Some(trim(rest).to_owned()),
        None => None,
    }
}

/// Parses the origin URL from the text of `.git/config`: the `url` of the
/// `[remote "origin"]` section.
///
/// Each line is trimmed; a line starting with `[` starts a section; inside
/// the origin section, the first line starting with `url` gives all the
/// text after its first `=`, trimmed. Returns `None` if there is no origin remote.
pub fn origin_url_from_config(content: &str) -> (r: Option<String>)
    ensures
        match spec_origin_url(content@) {
            Some(v) => r matches Some(x) && x@ == v,
            None => r is None,
        },
{
    let cs = chars_of(content);
    let n = cs.len();
    let mut start: usize = 0;
    let mut in_origin = false;
    assert(content@.skip(0) =~= content@);
    loop
        invariant
            start <= n,
            n == cs@.len(),
            cs@ == content@,
            spec_origin_url(content@) == scan_origin_url(content@.skip(start as int), in_origin),
        decreases n - start,
    {
        let ghost s = content@.skip(start as int);
        let mut end: usize = start;
        while end < n && cs[end] != '\n'
            invariant
                start <= end <= n,
                n == cs@.len(),
                forall|k: int| start <= k < end ==> cs@[k] != '\n',
            decreases n - end,
        {
            end = end + 1;
        }
        proof {
            lemma_first_index_of(s, '\n');
            if end < n {
                assert(s[end - start] == '\n');
                if let Some(k) = first_index_of(s, '\n') {
                    if k < end - start {
                        assert(cs@[start + k] != '\n');
                    }
                }
                assert(first_index_of(s, '\n') == Some(end - start));
            } else {
                if let Some(k) = first_index_of(s, '\n') {
                    assert(cs@[start + k] != '\n');
                }
            }
            assert(first_line(s) == content@.subrange(start as int, end as int));
            if end < n {
                assert(s.skip(end - start + 1) =~= content@.skip(end + 1));
            }
        }
        let line = content.substring_char(start, end);
        let t = trim(line);
        if starts_with(t, "[") {
            in_origin = str_eq(t, "[remote \"origin\"]");
        } else if in_origin && starts_with(t, "url") {
            return line_value(t);
        }
        if end >= n {
            return None;
        }
        start = end + 1;
    }
}

/// The branch named by the text of `.git/refs/remotes/origin/HEAD`.
pub open spec fn spec_default_branch(content: Seq<char>) -> Option<Seq<char>> {
    let t = trim_seq(content);
    if has_prefix(t, "ref: refs/remotes/origin/"@) {
        Some(t.skip("ref: refs/remotes/origin/"@.len() as int))
    } else {
        None
    }
}

/// Parses the default branch from the text of
/// `.git/refs/remotes/origin/HEAD` (`ref: refs/remotes/origin/<branch>`).
pub fn default_branch_from_head(content: &str) -> (r: Option<String>)
    ensures
        match spec_default_branch(content@) {
            Some(v) => r matches Some(x) && x@ == v,
            None => r is None,
        },
{
    match strip_prefix(trim(content), "ref: refs/remotes/origin/") {
        Some(b) => Some(b.to_owned()),
        None => None,
    }
}

/// The git directory named by the text of a worktree's `.git` file
/// (`gitdir: <path>`).
pub open spec fn spec_gitdir(content: Seq<char>) -> Option<Seq<char>> {
    let t = trim_seq(content);
    if has_prefix(t, "gitdir: "@) {
        Some(t.skip("gitdir: "@.len() as int))
    } else {
        None
    }
}

/// Parses the git directory from the text of a worktree's `.git` file; the
/// path may be absolute or relative to the file's directory.
pub fn gitdir_from_dot_git(content: &str) -> (r: Option<String>)
    ensures
        match spec_gitdir(content@) {
            Some(v) => r matches Some(x) && x@ == v,
            None => r is None,
        },
{
    match strip_prefix(trim(content), "gitdir: ") {
        Some(p) => Some(p.to_owned()),
        None => None,
    }
}

/// Trimming a line `t` + newline, where `t` starts and ends without
/// whitespace, leaves `t`.
proof fn lemma_trim_line(t: Seq<char>)
    requires
        t.len() > 0,
        !is_ws(t[0]),
        !is_ws(t.last()),
    ensures
        trim_seq(t + seq!['\n']) == t,
{
    let s = t + seq!['\n'];
    assert(s[0] == t[0]);
    assert(trim_start_seq(s) == s);
    assert(is_ws(s.last()));
    assert(s.drop_last() =~= t);
    assert(trim_end_seq(t) == t);
}

/// A HEAD file naming branch `b` (empty, or ending without whitespace)
/// gives `b` back.
pub proof fn lemma_default_branch_roundtrip(b: Seq<char>)
    requires
        b.len() == 0 || !is_ws(b.last()),
    ensures
        spec_default_branch("ref: refs/remotes/origin/"@ + b + "\n"@) == Some(b),
{
    broadcast use vstd::string::group_string_axioms;
    reveal_strlit("ref: refs/remotes/origin/");
    reveal_strlit("\n");
    let p = "ref: refs/remotes/origin/"@;
    let t = p + b;
    assert(t[0] == 'r');
    if b.len() == 0 {
        assert(t.last() == '/');
    } else {
        assert(t.last() == b.last());
    }
    assert("\n"@ =~= seq!['\n']);
    lemma_trim_line(t);
    assert(t.take(p.len() as int) =~= p);
    assert(t.skip(p.len() as int) =~= b);
}

/// A worktree's `.git` file naming a directory `d` (non-empty, ending
/// without whitespace) gives `d` back.
pub proof fn lemma_gitdir_roundtrip(d: Seq<char>)
    requires
        d.len() > 0,
        !is_ws(d.last()),
    ensures
        spec_gitdir("gitdir: "@ + d + "\n"@) == Some(d),
{
    broadcast use vstd::string::group_string_axioms;
    reveal_strlit("gitdir: ");
    reveal_strlit("\n");
    let p = "gitdir: "@;
    let t = p + d;
    assert(t[0] == 'g');
    assert(t.last() == d.last());
    assert("\n"@ =~= seq!['\n']);
    lemma_trim_line(t);
    assert(t.take(p.len() as int) =~= p);
    assert(t.skip(p.len() as int) =~= d);
}


/// The first `c` of `a + [c] + b`, where `a` holds no `c`, is at the end
/// of `a`.
proof fn lemma_first_index_after(a: Seq<char>, b: Seq<char>, c: char)
    requires
        !a.contains(c),
    ensures
        first_index_of(a + seq![c] + b, c) == Some(a.len() as int),
{
    let s = a + seq![c] + b;
    lemma_first_index_of(s, c);
    assert(s[a.len() as int] == c);
    match first_index_of(s, c) {
        Some(i) => {
            if i < a.len() {
                assert(s[i] == a[i]);
            }
        },
        None => {},
    }
}

/// Leading whitespace does not change what trimming the start leaves.
proof fn lemma_trim_start_skips(p: Seq<char>, x: Seq<char>)
    requires
        forall|i: int| 0 <= i < p.len() ==> is_ws(#[trigger] p[i]),
    ensures
        trim_start_seq(p + x) == trim_start_seq(x),
    decreases p.len(),
{
    if p.len() > 0 {
        assert((p + x)[0] == p[0]);
        assert((p + x).drop_first() =~= p.drop_first() + x);
        lemma_trim_start_skips(p.drop_first(), x);
    } else {
        assert(p + x =~= x);
    }
}

/// A sequence that starts and ends without whitespace is its own trim.
proof fn lemma_trim_fixed(t: Seq<char>)
    requires
        t.len() > 0,
        !is_ws(t[0]),
        !is_ws(t.last()),
    ensures
        trim_seq(t) == t,
{
}

/// The scan moves past the origin section header into the section.
proof fn lemma_scan_origin_header(rest: Seq<char>)
    ensures
        scan_origin_url("[remote \"origin\"]"@ + seq!['\n'] + rest, false) == scan_origin_url(rest, true),
{
    broadcast use vstd::string::group_string_axioms;
    reveal_strlit("[remote \"origin\"]");
    reveal_strlit("[");
    let h = "[remote \"origin\"]"@;
    let s = h + seq!['\n'] + rest;
    assert(!h.contains('\n')) by {
        if h.contains('\n') {
            let i = choose|i: int| 0 <= i < h.len() && h[i] == '\n';
        }
    }
    lemma_first_index_after(h, rest, '\n');
    assert(s.take(h.len() as int) =~= h);
    assert(s.skip(h.len() as int + 1) =~= rest);
    lemma_trim_fixed(h);
    assert(has_prefix(h, "["@)) by {
        assert(h.take(1) =~= "["@);
    }
    assert(first_line(s) == h);
}

/// Inside the origin section, an indented `url = u` line gives `u`.
proof fn lemma_scan_origin_url_line(u: Seq<char>, rest: Seq<char>)
    requires
        u.len() > 0,
        !is_ws(u[0]),
        !is_ws(u.last()),
        !u.contains('\n'),
    ensures
        scan_origin_url("    url = "@ + u + seq!['\n'] + rest, true) == Some(u),
{
    broadcast use vstd::string::group_string_axioms;
    reveal_strlit("    url = ");
    reveal_strlit("[");
    reveal_strlit("url");
    reveal_strlit("url = ");
    let l2 = "    url = "@ + u;
    let r = l2 + seq!['\n'] + rest;
    assert(!l2.contains('\n')) by {
        if l2.contains('\n') {
            let i = choose|i: int| 0 <= i < l2.len() && l2[i] == '\n';
            if i >= 10 {
                assert(u[i - 10] == '\n');
            }
        }
    }
    lemma_first_index_after(l2, rest, '\n');
    assert(r.take(l2.len() as int) =~= l2);
    let t = "url = "@ + u;
    let sp = seq![' ', ' ', ' ', ' '];
    assert(l2 =~= sp + t);
    lemma_trim_start_skips(sp, t);
    assert(t[0] == 'u');
    assert(t.last() == u.last());
    lemma_trim_fixed(t);
    assert(trim_seq(l2) == t);
    assert(has_prefix(t, "url"@)) by {
        assert(t.take(3) =~= "url"@);
    }
    assert(!has_prefix(t, "["@)) by {
        assert(t.take(1)[0] == 'u');
        assert("["@[0] == '[');
    }
    let v = seq![' '] + u;
    assert(t =~= seq!['u', 'r', 'l', ' '] + seq!['='] + v);
    lemma_split_once_after(seq!['u', 'r', 'l', ' '], v, '=');
    lemma_trim_start_skips(seq![' '], u);
    lemma_trim_fixed(u);
    assert(assignment_value(t) == Some(u));
    assert(first_line(r) == l2);
}

/// A line that is neither a section header nor a `url` line: after
/// trimming it starts with neither `[` nor `url`.
pub open spec fn is_other_line(l: Seq<char>) -> bool {
    &&& !l.contains('\n')
    &&& !has_prefix(trim_seq(l), "["@)
    &&& !has_prefix(trim_seq(l), "url"@)
}

/// Lines, each followed by a newline.
pub open spec fn lines_text(ls: Seq<Seq<char>>) -> Seq<char>
    decreases ls.len(),
{
    if ls.len() == 0 {
        Seq::empty()
    } else {
        ls[0] + seq!['\n'] + lines_text(ls.drop_first())
    }
}

/// Such a line changes nothing: the scan stays in (or out of) the section.
proof fn lemma_scan_skips_line(l: Seq<char>, rest: Seq<char>, in_origin: bool)
    requires
        is_other_line(l),
    ensures
        scan_origin_url(l + seq!['\n'] + rest, in_origin) == scan_origin_url(rest, in_origin),
{
    let s = l + seq!['\n'] + rest;
    lemma_first_index_after(l, rest, '\n');
    assert(s.take(l.len() as int) =~= l);
    assert(s.skip(l.len() as int + 1) =~= rest);
    assert(first_line(s) == l);
}

/// Any number of such lines change nothing.
proof fn lemma_scan_skips_lines(ls: Seq<Seq<char>>, rest: Seq<char>, in_origin: bool)
    requires
        forall|i: int| 0 <= i < ls.len() ==> is_other_line(#[trigger] ls[i]),
    ensures
        scan_origin_url(lines_text(ls) + rest, in_origin) == scan_origin_url(rest, in_origin),
    decreases ls.len(),
{
    if ls.len() == 0 {
        assert(lines_text(ls) + rest =~= rest);
    } else {
        let tail = ls.drop_first();
        assert forall|i: int| 0 <= i < tail.len() implies is_other_line(#[trigger] tail[i]) by {
            assert(tail[i] == ls[i + 1]);
        }
        lemma_scan_skips_lines(tail, rest, in_origin);
        assert(is_other_line(ls[0]));
        assert(lines_text(ls) + rest =~= ls[0] + seq!['\n'] + (lines_text(tail) + rest));
        lemma_scan_skips_line(ls[0], lines_text(tail) + rest, in_origin);
    }
}

/// A config whose first line opens the `[remote "origin"]` section and
/// whose next line, indented, is `url = u` names `u` as the origin URL
/// (`u` non-empty, without newline, starting and ending without
/// whitespace; it may hold `=`).
pub proof fn lemma_origin_url_roundtrip(u: Seq<char>)
    requires
        u.len() > 0,
        !is_ws(u[0]),
        !is_ws(u.last()),
        !u.contains('\n'),
    ensures
        spec_origin_url("[remote \"origin\"]"@ + "\n"@ + "    url = "@ + u + "\n"@) == Some(u),
{
    lemma_origin_url_after_other_lines(Seq::empty(), u, Seq::empty());
    assert(lines_text(Seq::<Seq<char>>::empty()) =~= Seq::<char>::empty());
    assert("[remote \"origin\"]"@ + "\n"@ + lines_text(Seq::<Seq<char>>::empty()) + "    url = "@ + u + "\n"@
        + Seq::<char>::empty() =~= "[remote \"origin\"]"@ + "\n"@ + "    url = "@ + u + "\n"@);
}

/// Lines that are neither section headers nor `url` lines (such as
/// `fetch = ...`) do not end the `[remote "origin"]` section: its first
/// `url = u` line after them names `u`, whatever follows.
pub proof fn lemma_origin_url_after_other_lines(ls: Seq<Seq<char>>, u: Seq<char>, after: Seq<char>)
    requires
        forall|i: int| 0 <= i < ls.len() ==> is_other_line(#[trigger] ls[i]),
        u.len() > 0,
        !is_ws(u[0]),
        !is_ws(u.last()),
        !u.contains('\n'),
    ensures
        spec_origin_url(
            "[remote \"origin\"]"@ + "\n"@ + lines_text(ls) + "    url = "@ + u + "\n"@ + after,
        ) == Some(u),
{
    broadcast use vstd::string::group_string_axioms;
    reveal_strlit("\n");
    assert("\n"@ =~= seq!['\n']);
    let url_part = "    url = "@ + u + seq!['\n'] + after;
    let rest = lines_text(ls) + url_part;
    assert("[remote \"origin\"]"@ + "\n"@ + lines_text(ls) + "    url = "@ + u + "\n"@ + after
        =~= "[remote \"origin\"]"@ + seq!['\n'] + rest);
    lemma_scan_origin_header(rest);
    lemma_scan_skips_lines(ls, url_part, true);
    lemma_scan_origin_url_line(u, after);
}

} // verus!
