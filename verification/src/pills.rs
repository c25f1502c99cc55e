//! Header pills: the git branch and the Kubernetes context, read from files and command
//! output that the caller fetched.
use vstd::prelude::*;
use crate::text::{
    chars_of, concat_chars, lines_chars, lines_seq, split_chars, split_on, starts_with_seq,
    string_of, sub_vec, trim_chars, trim_seq, trim_start_chars, trim_start_seq, views,
};

verus! {

/// `s` starts with `p`; what follows it.
pub open spec fn strip_prefix_seq(s: Seq<char>, p: Seq<char>) -> Option<Seq<char>> {
    if starts_with_seq(s, p) {
        Some(s.skip(p.len() as int))
    } else {
        None
    }
}

/// `str::strip_prefix`.
pub fn strip_prefix_chars(s: &[char], p: &str) -> (r: Option<Vec<char>>)
    ensures
        match r {
            Some(v) => strip_prefix_seq(s@, p@) == Some(v@),
            None => strip_prefix_seq(s@, p@) is None,
        },
{
    let pv = chars_of(p);
    if pv.len() > s.len() {
        return None;
    }
    let mut i: usize = 0;
    while i < pv.len()
        invariant
            pv@ == p@,
            pv@.len() <= s@.len(),
            0 <= i <= pv@.len(),
            forall|k: int| 0 <= k < i ==> s@[k] == pv@[k],
        decreases pv.len() - i,
    {
        if s[i] != pv[i] {
            assert(s@.subrange(0, pv@.len() as int)[i as int] != p@[i as int]);
            return None;
        }
        i = i + 1;
    }
    assert(s@.subrange(0, pv@.len() as int) =~= p@);
    let rest = sub_vec(s, pv.len(), s.len());
    assert(rest@ =~= s@.skip(p@.len() as int));
    Some(rest)
}

pub open spec fn is_hex_digit(c: char) -> bool {
    ('0' <= c && c <= '9') || ('a' <= c && c <= 'f') || ('A' <= c && c <= 'F')
}

/// Index of the first line that is not blank.
pub open spec fn first_nonblank(ls: Seq<Seq<char>>) -> Option<int> {
    if exists|i: int| 0 <= i < ls.len() && trim_seq(ls[i]).len() > 0 {
        Some(
            choose|i: int|
                0 <= i < ls.len() && trim_seq(ls[i]).len() > 0 && forall|k: int|
                    0 <= k < i ==> trim_seq(ls[k]).len() == 0,
        )
    } else {
        None
    }
}

/// The branch label of a `.git/HEAD` line (already trimmed): the branch of
/// `ref: refs/heads/<name>`, the last path piece of another `ref: `, or the first seven
/// characters of a detached commit id.
pub open spec fn head_label(line: Seq<char>) -> Option<Seq<char>> {
    match strip_prefix_seq(line, "ref: refs/heads/"@) {
        Some(rest) => if trim_seq(rest).len() > 0 {
            Some(trim_seq(rest))
        } else {
            None
        },
        None => match strip_prefix_seq(line, "ref: "@) {
            Some(rest) => {
                let last = trim_seq(split_on(rest, '/').last());
                if last.len() > 0 {
                    Some(last)
                } else {
                    None
                }
            },
            None => if line.len() >= 7 && forall|i: int| 0 <= i < line.len() ==> is_hex_digit(
                #[trigger] line[i],
            ) {
                Some(line.take(7))
            } else {
                None
            },
        },
    }
}

/// The branch label from the text of `.git/HEAD`: its first non-blank line, trimmed.
pub open spec fn spec_git_head(contents: Seq<char>) -> Option<Seq<char>> {
    let ls = lines_seq(contents);
    match first_nonblank(ls) {
        Some(i) => head_label(trim_seq(ls[i])),
        None => None,
    }
}

fn first_nonblank_line(ls: &Vec<Vec<char>>) -> (r: Option<usize>)
    ensures
        match r {
            Some(i) => i < ls@.len() && first_nonblank(views(ls@)) == Some(i as int),
            None => first_nonblank(views(ls@)) is None,
        },
{
    let ghost v = views(ls@);
    let mut i: usize = 0;
    while i < ls.len()
        invariant
            v == views(ls@),
            0 <= i <= ls@.len(),
            forall|k: int| 0 <= k < i ==> trim_seq(#[trigger] v[k]).len() == 0,
        decreases ls.len() - i,
    {
        assert(v[i as int] == ls@[i as int]@);
        if trim_chars(ls[i].as_slice()).len() > 0 {
            proof {
                let c = choose|c: int|
                    0 <= c < v.len() && trim_seq(v[c]).len() > 0 && forall|k: int|
                        0 <= k < c ==> trim_seq(v[k]).len() == 0;
                if c < i {
                    assert(trim_seq(v[c]).len() == 0);
                } else if c > i {
                    assert(trim_seq(v[i as int]).len() == 0);
                }
            }
            return Some(i);
        }
        i = i + 1;
    }
    proof {
        if exists|j: int| 0 <= j < v.len() && trim_seq(v[j]).len() > 0 {
            let j = choose|j: int| 0 <= j < v.len() && trim_seq(v[j]).len() > 0;
            assert(trim_seq(v[j]).len() == 0);
        }
    }
    None
}

/// Branch label from the contents of `.git/HEAD`.
pub fn parse_git_head(contents: &str) -> (r: Option<String>)
    ensures
        match r {
            Some(s) => spec_git_head(contents@) == Some(s@),
            None => spec_git_head(contents@) is None,
        },
{
    let cs = chars_of(contents);
    let ls = lines_chars(cs.as_slice());
    let i = match first_nonblank_line(&ls) {
        Some(i) => i,
        None => {
            return None;
        },
    };
    let line = trim_chars(ls[i].as_slice());
    assert(views(ls@)[i as int] == ls@[i as int]@);
    assert(line@ == trim_seq(lines_seq(contents@)[i as int]));
    match strip_prefix_chars(line.as_slice(), "ref: refs/heads/") {
        Some(rest) => {
            let name = trim_chars(rest.as_slice());
            return if name.len() > 0 {
                Some(string_of(name.as_slice()))
            } else {
                None
            };
        },
        None => {},
    }
    match strip_prefix_chars(line.as_slice(), "ref: ") {
        Some(rest) => {
            let pieces = split_chars(rest.as_slice(), '/');
            proof {
                crate::text::lemma_split_on_nonempty(rest@, '/');
            }
            let last = trim_chars(pieces[pieces.len() - 1].as_slice());
            return if last.len() > 0 {
                Some(string_of(last.as_slice()))
            } else {
                None
            };
        },
        None => {},
    }
    if line.len() < 7 {
        return None;
    }
    let mut k: usize = 0;
    while k < line.len()
        invariant
            0 <= k <= line@.len(),
            line@.len() >= 7,
            spec_git_head(contents@) == head_label(line@),
            strip_prefix_seq(line@, "ref: refs/heads/"@) is None,
            strip_prefix_seq(line@, "ref: "@) is None,
            forall|j: int| 0 <= j < k ==> is_hex_digit(#[trigger] line@[j]),
        decreases line.len() - k,
    {
        let c = line[k];
        if !(('0' <= c && c <= '9') || ('a' <= c && c <= 'f') || ('A' <= c && c <= 'F')) {
            assert(!is_hex_digit(line@[k as int]));
            return None;
        }
        k = k + 1;
    }
    let head = sub_vec(line.as_slice(), 0, 7);
    assert(head@ =~= line@.take(7));
    Some(string_of(head.as_slice()))
}

/// First line of a `.git` file (trimmed) of the form `gitdir: <path>` with a non-empty
/// path: that path, trimmed.
pub open spec fn spec_gitdir(text: Seq<char>) -> Option<Seq<char>> {
    let ls = lines_seq(text);
    if exists|i: int| 0 <= i < ls.len() && gitdir_of_line(ls[i]) is Some {
        gitdir_of_line(
            ls[choose|i: int|
                0 <= i < ls.len() && gitdir_of_line(ls[i]) is Some && forall|k: int|
                    0 <= k < i ==> gitdir_of_line(ls[k]) is None],
        )
    } else {
        None
    }
}

pub open spec fn gitdir_of_line(l: Seq<char>) -> Option<Seq<char>> {
    match strip_prefix_seq(trim_seq(l), "gitdir:"@) {
        Some(rest) => if trim_seq(rest).len() > 0 {
            Some(trim_seq(rest))
        } else {
            None
        },
        None => None,
    }
}

fn gitdir_line(l: &[char]) -> (r: Option<Vec<char>>)
    ensures
        match r {
            Some(v) => gitdir_of_line(l@) == Some(v@),
            None => gitdir_of_line(l@) is None,
        },
{
    let t = trim_chars(l);
    match strip_prefix_chars(t.as_slice(), "gitdir:") {
        Some(rest) => {
            let r = trim_chars(rest.as_slice());
            if r.len() > 0 {
                Some(r)
            } else {
                None
            }
        },
        None => None,
    }
}

/// The git directory a `.git` file points at (`gitdir: <path>`), as written.
pub fn gitdir_from_marker(text: &str) -> (r: Option<String>)
    ensures
        match r {
            Some(s) => spec_gitdir(text@) == Some(s@),
            None => spec_gitdir(text@) is None,
        },
{
    let cs = chars_of(text);
    let ls = lines_chars(cs.as_slice());
    let ghost v = views(ls@);
    let mut i: usize = 0;
    while i < ls.len()
        invariant
            v == views(ls@),
            v == lines_seq(text@),
            0 <= i <= ls@.len(),
            forall|k: int| 0 <= k < i ==> gitdir_of_line(#[trigger] v[k]) is None,
        decreases ls.len() - i,
    {
        assert(v[i as int] == ls@[i as int]@);
        match gitdir_line(ls[i].as_slice()) {
            Some(g) => {
                proof {
                    let c = choose|c: int|
                        0 <= c < v.len() && gitdir_of_line(v[c]) is Some && forall|k: int|
                            0 <= k < c ==> gitdir_of_line(v[k]) is None;
                    if c < i {
                        assert(gitdir_of_line(v[c]) is None);
                    } else if c > i {
                        assert(gitdir_of_line(v[i as int]) is None);
                    }
                }
                return Some(string_of(g.as_slice()));
            },
            None => {},
        }
        i = i + 1;
    }
    proof {
        if exists|j: int| 0 <= j < v.len() && gitdir_of_line(v[j]) is Some {
            let j = choose|j: int| 0 <= j < v.len() && gitdir_of_line(v[j]) is Some;
            assert(gitdir_of_line(v[j]) is None);
        }
    }
    None
}

/// `Path::join` on Unix paths: an absolute `b` replaces `a`; otherwise `b` is appended with
/// a `/` between them unless `a` is empty or already ends with one.
pub open spec fn path_join(a: Seq<char>, b: Seq<char>) -> Seq<char> {
    if b.len() > 0 && b[0] == '/' {
        b
    } else if a.len() == 0 || a.last() == '/' {
        a + b
    } else {
        a + "/"@ + b
    }
}

/// `Path::join`.
pub fn join_path(a: &str, b: &str) -> (r: String)
    ensures
        r@ == path_join(a@, b@),
{
    let av = chars_of(a);
    let bv = chars_of(b);
    if bv.len() > 0 && bv[0] == '/' {
        return string_of(bv.as_slice());
    }
    if av.len() == 0 || av[av.len() - 1] == '/' {
        return string_of(concat_chars(av.as_slice(), bv.as_slice()).as_slice());
    }
    let mut with_sep = av;
    with_sep.push('/');
    proof {
        reveal_strlit("/");
    }
    let r = concat_chars(with_sep.as_slice(), bv.as_slice());
    assert(r@ =~= a@ + "/"@ + b@);
    string_of(r.as_slice())
}

/// A shell-style path with `~` (alone, or before `/`) standing for `home` when it is known.
pub open spec fn shell_path(s: Seq<char>, home: Option<Seq<char>>) -> Seq<char> {
    if s == "~"@ {
        match home {
            Some(h) => h,
            None => s,
        }
    } else {
        match (strip_prefix_seq(s, "~/"@), home) {
            (Some(rest), Some(h)) => path_join(h, rest),
            _ => s,
        }
    }
}

/// Expand a leading `~` of a path from the shell.
pub fn leader_path_for_shell(s: &str, home: Option<&str>) -> (r: String)
    ensures
        r@ == shell_path(s@, match home {
            Some(h) => Some(h@),
            None => None,
        }),
{
    let sv = chars_of(s);
    if crate::text::str_eq(s, "~") {
        return match home {
            Some(h) => string_of(chars_of(h).as_slice()),
            None => string_of(sv.as_slice()),
        };
    }
    match strip_prefix_chars(sv.as_slice(), "~/") {
        Some(rest) => match home {
            Some(h) => join_path(h, string_of(rest.as_slice()).as_str()),
            None => string_of(sv.as_slice()),
        },
        None => string_of(sv.as_slice()),
    }
}

/// Output of a command that printed one value: the trimmed text when the command
/// succeeded and printed something.
pub fn cli_line(ok: bool, stdout: &str) -> (r: Option<String>)
    ensures
        match r {
            Some(s) => ok && trim_seq(stdout@).len() > 0 && s@ == trim_seq(stdout@),
            None => !ok || trim_seq(stdout@).len() == 0,
        },
{
    if !ok {
        return None;
    }
    let t = crate::text::trim_str(stdout);
    if t.as_str().unicode_len() == 0 {
        None
    } else {
        Some(t)
    }
}

/// The Kubernetes context pill: none without a kubeconfig; else what `kubectl config
/// current-context` printed, else the `current-context:` of the first kubeconfig file.
pub fn leader_kube_context_display(config_present: bool, kubectl: Option<String>, from_file: Option<String>) -> (r: Option<String>)
    ensures
        r == if !config_present {
            None
        } else {
            match kubectl {
                Some(k) => Some(k),
                None => from_file,
            }
        },
{
    if !config_present {
        return None;
    }
    match kubectl {
        Some(k) => Some(k),
        None => from_file,
    }
}

/// Separator of `KUBECONFIG` entries: `;` on Windows, `:` elsewhere.
pub open spec fn spec_kube_sep(windows: bool) -> char {
    if windows {
        ';'
    } else {
        ':'
    }
}

/// Non-empty pieces, in order.
pub open spec fn nonempty_pieces(ps: Seq<Seq<char>>) -> Seq<Seq<char>>
    decreases ps.len(),
{
    if ps.len() == 0 {
        ps
    } else if ps.last().len() == 0 {
        nonempty_pieces(ps.drop_last())
    } else {
        nonempty_pieces(ps.drop_last()).push(ps.last())
    }
}

/// Kubeconfig files to look at: the non-empty `KUBECONFIG` entries in order, then
/// `<home>/.kube/config`.
pub open spec fn spec_kube_paths(env: Option<Seq<char>>, home: Option<Seq<char>>, windows: bool) -> Seq<Seq<char>> {
    let from_env = match env {
        Some(e) => if e.len() > 0 {
            nonempty_pieces(split_on(e, spec_kube_sep(windows)))
        } else {
            Seq::empty()
        },
        None => Seq::empty(),
    };
    match home {
        Some(h) => from_env.push(path_join(h, ".kube/config"@)),
        None => from_env,
    }
}

/// Paths to check for kubeconfig files, from `KUBECONFIG` and the home directory.
pub fn kubeconfig_search_paths(env: Option<&str>, home: Option<&str>, windows: bool) -> (r: Vec<String>)
    ensures
        r@.map_values(|p: String| p@) == spec_kube_paths(
            match env {
                Some(e) => Some(e@),
                None => None,
            },
            match home {
                Some(h) => Some(h@),
                None => None,
            },
            windows,
        ),
{
    let mut out: Vec<String> = Vec::new();
    let sep = if windows {
        ';'
    } else {
        ':'
    };
    match env {
        Some(e) => {
            let ev = chars_of(e);
            if ev.len() > 0 {
                let pieces = split_chars(ev.as_slice(), sep);
                let ghost pv = views(pieces@);
                let mut i: usize = 0;
                while i < pieces.len()
                    invariant
                        pv == views(pieces@),
                        0 <= i <= pieces@.len(),
                        out@.map_values(|p: String| p@) == nonempty_pieces(pv.take(i as int)),
                    decreases pieces.len() - i,
                {
                    assert(pv.take(i + 1).drop_last() =~= pv.take(i as int));
                    assert(pv.take(i + 1).last() == pieces@[i as int]@);
                    if pieces[i].len() > 0 {
                        let ghost before = out@.map_values(|p: String| p@);
                        out.push(string_of(pieces[i].as_slice()));
                        assert(out@.map_values(|p: String| p@) =~= before.push(pieces@[i as int]@));
                    }
                    i = i + 1;
                }
                assert(pv.take(pieces@.len() as int) =~= pv);
            }
        },
        None => {},
    }
    match home {
        Some(h) => {
            let ghost before = out@.map_values(|p: String| p@);
            out.push(join_path(h, ".kube/config"));
            assert(out@.map_values(|p: String| p@) =~= before.push(path_join(h@, ".kube/config"@)));
        },
        None => {},
    }
    out
}

pub open spec fn is_quote(c: char) -> bool {
    c == '"' || c == '\''
}

/// `s` without leading and trailing quote characters.
pub open spec fn trim_quotes(s: Seq<char>) -> Seq<char>
    decreases s.len(),
{
    if s.len() > 0 && is_quote(s[0]) {
        trim_quotes(s.drop_first())
    } else if s.len() > 0 && is_quote(s.last()) {
        trim_quotes(s.drop_last())
    } else {
        s
    }
}

/// The context named on a kubeconfig line `current-context: <name>` (leading whitespace
/// allowed, the name trimmed and unquoted), when not empty.
pub open spec fn context_of_line(l: Seq<char>) -> Option<Seq<char>> {
    match strip_prefix_seq(trim_start_seq(l), "current-context:"@) {
        Some(rest) => if trim_quotes(trim_seq(rest)).len() > 0 {
            Some(trim_quotes(trim_seq(rest)))
        } else {
            None
        },
        None => None,
    }
}

/// The first context named in a kubeconfig text.
pub open spec fn spec_kube_context(text: Seq<char>) -> Option<Seq<char>> {
    let ls = lines_seq(text);
    if exists|i: int| 0 <= i < ls.len() && context_of_line(ls[i]) is Some {
        context_of_line(
            ls[choose|i: int|
                0 <= i < ls.len() && context_of_line(ls[i]) is Some && forall|k: int|
                    0 <= k < i ==> context_of_line(ls[k]) is None],
        )
    } else {
        None
    }
}

fn trim_quotes_chars(s: &[char]) -> (r: Vec<char>)
    ensures
        r@ == trim_quotes(s@),
{
    let mut lo: usize = 0;
    let mut hi: usize = s.len();
    assert(s@.subrange(0, s@.len() as int) =~= s@);
    while lo < hi && (s[lo] == '"' || s[lo] == '\'')
        invariant
            0 <= lo <= hi == s@.len(),
            trim_quotes(s@) == trim_quotes(s@.subrange(lo as int, hi as int)),
        decreases hi - lo,
    {
        assert(s@.subrange(lo as int, hi as int).drop_first() =~= s@.subrange(lo + 1, hi as int));
        lo = lo + 1;
    }
    while lo < hi && (s[hi - 1] == '"' || s[hi - 1] == '\'')
        invariant
            0 <= lo <= hi <= s@.len(),
            lo < hi ==> !is_quote(s@[lo as int]),
            trim_quotes(s@) == trim_quotes(s@.subrange(lo as int, hi as int)),
        decreases hi - lo,
    {
        assert(s@.subrange(lo as int, hi as int).drop_last() =~= s@.subrange(lo as int, hi - 1));
        hi = hi - 1;
    }
    sub_vec(s, lo, hi)
}

fn context_line(l: &[char]) -> (r: Option<Vec<char>>)
    ensures
        match r {
            Some(v) => context_of_line(l@) == Some(v@),
            None => context_of_line(l@) is None,
        },
{
    let t = trim_start_chars(l);
    match strip_prefix_chars(t.as_slice(), "current-context:") {
        Some(rest) => {
            let r = trim_quotes_chars(trim_chars(rest.as_slice()).as_slice());
            if r.len() > 0 {
                Some(r)
            } else {
                None
            }
        },
        None => None,
    }
}

/// The `current-context:` named in a kubeconfig file's text.
pub fn current_context_from_kubeconfig(text: &str) -> (r: Option<String>)
    ensures
        match r {
            Some(s) => spec_kube_context(text@) == Some(s@),
            None => spec_kube_context(text@) is None,
        },
{
    let cs = chars_of(text);
    let ls = lines_chars(cs.as_slice());
    let ghost v = views(ls@);
    let mut i: usize = 0;
    while i < ls.len()
        invariant
            v == views(ls@),
            v == lines_seq(text@),
            0 <= i <= ls@.len(),
            forall|k: int| 0 <= k < i ==> context_of_line(#[trigger] v[k]) is None,
        decreases ls.len() - i,
    {
        assert(v[i as int] == ls@[i as int]@);
        match context_line(ls[i].as_slice()) {
            Some(g) => {
                proof {
                    let c = choose|c: int|
                        0 <= c < v.len() && context_of_line(v[c]) is Some && forall|k: int|
                            0 <= k < c ==> context_of_line(v[k]) is None;
                    if c < i {
                        assert(context_of_line(v[c]) is None);
                    } else if c > i {
                        assert(context_of_line(v[i as int]) is None);
                    }
                }
                return Some(string_of(g.as_slice()));
            },
            None => {},
        }
        i = i + 1;
    }
    proof {
        if exists|j: int| 0 <= j < v.len() && context_of_line(v[j]) is Some {
            let j = choose|j: int| 0 <= j < v.len() && context_of_line(v[j]) is Some;
            assert(context_of_line(v[j]) is None);
        }
    }
    None
}

/// `ps` with later repeats dropped (first occurrences kept, in order).
pub open spec fn dedup_first(ps: Seq<Seq<char>>) -> Seq<Seq<char>>
    decreases ps.len(),
{
    if ps.len() == 0 {
        ps
    } else {
        let d = dedup_first(ps.drop_last());
        if d.contains(ps.last()) {
            d
        } else {
            d.push(ps.last())
        }
    }
}

/// Append `p` unless it is already listed.
fn push_unique(v: &mut Vec<String>, p: String)
    ensures
        final(v)@.map_values(|s: String| s@) == if old(v)@.map_values(|s: String| s@).contains(p@) {
            old(v)@.map_values(|s: String| s@)
        } else {
            old(v)@.map_values(|s: String| s@).push(p@)
        },
{
    let ghost before = v@.map_values(|s: String| s@);
    let mut i: usize = 0;
    while i < v.len()
        invariant
            before == v@.map_values(|s: String| s@),
            0 <= i <= v@.len(),
            forall|k: int| 0 <= k < i ==> #[trigger] before[k] != p@,
        decreases v.len() - i,
    {
        assert(before[i as int] == v@[i as int]@);
        if crate::text::str_eq(v[i].as_str(), p.as_str()) {
            assert(before.contains(p@)) by {
                assert(before[i as int] == p@);
            }
            return ;
        }
        i = i + 1;
    }
    assert(!before.contains(p@)) by {
        if before.contains(p@) {
            let j = choose|j: int| 0 <= j < before.len() && before[j] == p@;
            assert(before[j] != p@);
        }
    }
    v.push(p);
    assert(v@.map_values(|s: String| s@) =~= before.push(p@));
}

/// Where to look for `git`: `git` on `PATH`, the usual install paths of the platform, then
/// tools under the home directory; repeats dropped.
pub open spec fn spec_git_candidates(macos: bool, home: Option<Seq<char>>) -> Seq<Seq<char>> {
    let sys = if macos {
        seq!["git"@, "/opt/homebrew/bin/git"@, "/usr/local/bin/git"@, "/usr/bin/git"@]
    } else {
        seq!["git"@, "/usr/bin/git"@, "/usr/local/bin/git"@]
    };
    let all = match home {
        Some(h) => sys + seq![
            path_join(h, ".local/share/mise/shims/git"@),
            path_join(h, ".local/bin/git"@),
            path_join(h, ".nix-profile/bin/git"@),
        ],
        None => sys,
    };
    dedup_first(all)
}

/// Candidate `git` executables, in the order they are tried.
pub fn git_executable_candidates(macos: bool, home: Option<&str>) -> (r: Vec<String>)
    ensures
        r@.map_values(|s: String| s@) == spec_git_candidates(
            macos,
            match home {
                Some(h) => Some(h@),
                None => None,
            },
        ),
{
    let mut all: Vec<String> = Vec::new();
    all.push("git".to_owned());
    if macos {
        all.push("/opt/homebrew/bin/git".to_owned());
        all.push("/usr/local/bin/git".to_owned());
        all.push("/usr/bin/git".to_owned());
    } else {
        all.push("/usr/bin/git".to_owned());
        all.push("/usr/local/bin/git".to_owned());
    }
    match home {
        Some(h) => {
            all.push(join_path(h, ".local/share/mise/shims/git"));
            all.push(join_path(h, ".local/bin/git"));
            all.push(join_path(h, ".nix-profile/bin/git"));
        },
        None => {},
    }
    let ghost av = all@.map_values(|s: String| s@);
    assert(av =~= match home {
        Some(h) => (if macos {
            seq!["git"@, "/opt/homebrew/bin/git"@, "/usr/local/bin/git"@, "/usr/bin/git"@]
        } else {
            seq!["git"@, "/usr/bin/git"@, "/usr/local/bin/git"@]
        }) + seq![
            path_join(h@, ".local/share/mise/shims/git"@),
            path_join(h@, ".local/bin/git"@),
            path_join(h@, ".nix-profile/bin/git"@),
        ],
        None => if macos {
            seq!["git"@, "/opt/homebrew/bin/git"@, "/usr/local/bin/git"@, "/usr/bin/git"@]
        } else {
            seq!["git"@, "/usr/bin/git"@, "/usr/local/bin/git"@]
        },
    });
    let mut out: Vec<String> = Vec::new();
    let mut i: usize = 0;
    while i < all.len()
        invariant
            av == all@.map_values(|s: String| s@),
            0 <= i <= all@.len(),
            out@.map_values(|s: String| s@) == dedup_first(av.take(i as int)),
        decreases all.len() - i,
    {
        assert(av.take(i + 1).drop_last() =~= av.take(i as int));
        assert(av.take(i + 1).last() == all@[i as int]@);
        push_unique(&mut out, all[i].clone());
        i = i + 1;
    }
    assert(av.take(all@.len() as int) =~= av);
    out
}

/// Directories to start the branch search from: the shell's directory (with `~`
/// expanded), `$PWD`, then the process's directory; empty ones skipped, repeats dropped.
pub open spec fn spec_branch_bases(
    raw_cwd: Option<Seq<char>>,
    home: Option<Seq<char>>,
    pwd: Option<Seq<char>>,
    cwd: Option<Seq<char>>,
) -> Seq<Seq<char>> {
    let a = match raw_cwd {
        Some(s) => if s.len() > 0 {
            seq![shell_path(s, home)]
        } else {
            Seq::empty()
        },
        None => Seq::empty(),
    };
    let b = match pwd {
        Some(p) => if p.len() > 0 {
            a.push(p)
        } else {
            a
        },
        None => a,
    };
    let c = match cwd {
        Some(d) => b.push(d),
        None => b,
    };
    dedup_first(c)
}

pub open spec fn opt_str(o: Option<&str>) -> Option<Seq<char>> {
    match o {
        Some(s) => Some(s@),
        None => None,
    }
}

/// Where the branch pill looks, in order.
pub fn branch_search_bases(
    raw_cwd: Option<&str>,
    home: Option<&str>,
    pwd: Option<&str>,
    cwd: Option<&str>,
) -> (r: Vec<String>)
    ensures
        r@.map_values(|s: String| s@) == spec_branch_bases(
            opt_str(raw_cwd),
            opt_str(home),
            opt_str(pwd),
            opt_str(cwd),
        ),
{
    let mut all: Vec<String> = Vec::new();
    match raw_cwd {
        Some(s) => {
            if chars_of(s).len() > 0 {
                all.push(leader_path_for_shell(s, home));
            }
        },
        None => {},
    }
    match pwd {
        Some(p) => {
            if chars_of(p).len() > 0 {
                all.push(string_of(chars_of(p).as_slice()));
            }
        },
        None => {},
    }
    match cwd {
        Some(d) => {
            all.push(string_of(chars_of(d).as_slice()));
        },
        None => {},
    }
    let ghost av = all@.map_values(|s: String| s@);
    let ghost a = match raw_cwd {
        Some(s) => if s@.len() > 0 {
            seq![shell_path(s@, opt_str(home))]
        } else {
            Seq::<Seq<char>>::empty()
        },
        None => Seq::<Seq<char>>::empty(),
    };
    let ghost b = match pwd {
        Some(p) => if p@.len() > 0 {
            a.push(p@)
        } else {
            a
        },
        None => a,
    };
    assert(av =~= match cwd {
        Some(d) => b.push(d@),
        None => b,
    });
    let mut out: Vec<String> = Vec::new();
    let mut i: usize = 0;
    while i < all.len()
        invariant
            av == all@.map_values(|s: String| s@),
            0 <= i <= all@.len(),
            out@.map_values(|s: String| s@) == dedup_first(av.take(i as int)),
        decreases all.len() - i,
    {
        assert(av.take(i + 1).drop_last() =~= av.take(i as int));
        assert(av.take(i + 1).last() == all@[i as int]@);
        push_unique(&mut out, all[i].clone());
        i = i + 1;
    }
    assert(av.take(all@.len() as int) =~= av);
    out
}

/// `s` without its trailing `/` characters.
pub open spec fn trim_end_slashes(s: Seq<char>) -> Seq<char>
    decreases s.len(),
{
    if s.len() > 0 && s.last() == '/' {
        trim_end_slashes(s.drop_last())
    } else {
        s
    }
}

/// `str::trim_end_matches('/')`.
pub fn trim_end_slashes_chars(s: &[char]) -> (r: Vec<char>)
    ensures
        r@ == trim_end_slashes(s@),
{
    let mut j: usize = s.len();
    assert(s@.take(s@.len() as int) =~= s@);
    while j > 0 && s[j - 1] == '/'
        invariant
            0 <= j <= s@.len(),
            trim_end_slashes(s@) == trim_end_slashes(s@.take(j as int)),
        decreases j,
    {
        assert(s@.take(j as int).drop_last() =~= s@.take(j - 1));
        j = j - 1;
    }
    let r = sub_vec(s, 0, j);
    assert(r@ =~= s@.take(j as int));
    r
}

/// `git rev-parse --is-inside-work-tree` said yes: it succeeded and printed `true`.
pub fn is_inside_work_tree(ok: bool, stdout: &str) -> (b: bool)
    ensures
        b == (ok && trim_seq(stdout@) == "true"@),
{
    ok && crate::text::str_eq(crate::text::trim_str(stdout).as_str(), "true")
}

/// Theme files to try, in order: `$LEADER_THEME`, then `<home>/.config/<app>/leader_theme.yml`.
pub open spec fn spec_theme_paths(env: Option<Seq<char>>, home: Option<Seq<char>>, app: Seq<char>) -> Seq<Seq<char>> {
    let a = match env {
        Some(p) => seq![p],
        None => Seq::empty(),
    };
    match home {
        Some(h) => a.push(path_join(h, ".config/"@ + app + "/leader_theme.yml"@)),
        None => a,
    }
}

/// Theme files to try (`app` is `tmux` or `kitty`).
pub fn theme_config_paths(env: Option<&str>, home: Option<&str>, app: &str) -> (r: Vec<String>)
    ensures
        r@.map_values(|s: String| s@) == spec_theme_paths(opt_str(env), opt_str(home), app@),
{
    let mut v: Vec<String> = Vec::new();
    match env {
        Some(p) => {
            v.push(string_of(chars_of(p).as_slice()));
        },
        None => {},
    }
    let ghost a = v@.map_values(|s: String| s@);
    match home {
        Some(h) => {
            let rel = crate::text::join_str(".config/", app);
            let rel = crate::text::join_str(rel.as_str(), "/leader_theme.yml");
            v.push(join_path(h, rel.as_str()));
            assert(v@.map_values(|s: String| s@) =~= a.push(path_join(h@, ".config/"@ + app@ + "/leader_theme.yml"@)));
        },
        None => {},
    }
    assert(v@.map_values(|s: String| s@) =~= spec_theme_paths(opt_str(env), opt_str(home), app@));
    v
}

/// `PATH` for `kitten`: `/opt/homebrew/bin` first, then the inherited `PATH` (empty when
/// unset).
pub fn kitten_path(path: Option<&str>) -> (r: String)
    ensures
        r@ == "/opt/homebrew/bin:"@ + match path {
            Some(p) => p@,
            None => Seq::<char>::empty(),
        },
{
    match path {
        Some(p) => crate::text::join_str("/opt/homebrew/bin:", p),
        None => {
            let r = "/opt/homebrew/bin:".to_owned();
            assert(r@ =~= "/opt/homebrew/bin:"@ + Seq::<char>::empty());
            r
        },
    }
}

/// A `.git/HEAD` of the form `ref: refs/heads/<name>` (one line, ended by a line break)
/// labels the branch with the whole name after the prefix, trimmed, slashes and all
/// (`feature/login` stays `feature/login`), whenever that trimmed name is not empty.
pub proof fn lemma_head_branch_whole_name(name: Seq<char>)
    requires
        !name.contains('\n'),
        trim_seq(name).len() > 0,
    ensures
        spec_git_head("ref: refs/heads/"@ + name + "\n"@) == Some(trim_seq(name)),
{
    let p = "ref: refs/heads/"@;
    reveal_strlit("ref: refs/heads/");
    reveal_strlit("\n");
    let line = p + name;
    let e = Seq::<char>::empty();
    assert(name.len() > 0) by {
        if name.len() == 0 {
            assert(trim_seq(name) =~= e);
        }
    }
    assert(!line.contains('\n')) by {
        if line.contains('\n') {
            let j = choose|j: int| 0 <= j < line.len() && line[j] == '\n';
            if j >= p.len() {
                assert(name[j - p.len()] == '\n');
            }
        }
    }
    let contents = p + name + "\n"@;
    assert(contents =~= line + seq!['\n'] + e);
    crate::text::lemma_split_plain(line, '\n');
    crate::text::lemma_split_sep_then_plain(line, e, '\n');
    assert(split_on(contents, '\n') =~= seq![line, e]);
    let m = crate::text::strip_cr(name);
    let x = crate::text::strip_cr(line);
    assert(x =~= p + m);
    assert(lines_seq(contents) =~= seq![x]);
    // the trim of the line keeps the prefix and trims the name's end
    assert(crate::text::trim_start_seq(p + m) == p + m) by {
        assert((p + m)[0] == 'r');
    }
    crate::text::lemma_trim_end_after_solid(p, m);
    assert(trim_seq(x) == p + crate::text::trim_end_seq(m));
    let u = crate::text::trim_end_seq(m);
    assert(trim_seq(x).len() > 0);
    let ls = lines_seq(contents);
    assert(trim_seq(ls[0]).len() > 0);
    assert(first_nonblank(ls) == Some(0int));
    assert(starts_with_seq(p + u, p)) by {
        assert((p + u).subrange(0, p.len() as int) =~= p);
    }
    assert((p + u).skip(p.len() as int) =~= u);
    assert(strip_prefix_seq(p + u, p) == Some(u));
    crate::text::lemma_trim_of_trim_end(m);
    if name.last() == '\r' {
        crate::text::lemma_trim_drop_trailing_ws(name);
        assert(m == name.drop_last());
    } else {
        assert(m == name);
    }
    assert(trim_seq(u) == trim_seq(name));
}

/// A one-line text `p + x + "\n"` is the line `p + x` (less a final `\r`), and dropping
/// that `\r` does not change the trim of `x`.
proof fn lemma_single_line(p: Seq<char>, x: Seq<char>)
    requires
        !p.contains('\n'),
        !x.contains('\n'),
        x.len() > 0,
    ensures
        lines_seq(p + x + "\n"@) == seq![p + crate::text::strip_cr(x)],
        trim_seq(crate::text::strip_cr(x)) == trim_seq(x),
{
    reveal_strlit("\n");
    let e = Seq::<char>::empty();
    let line = p + x;
    assert(!line.contains('\n')) by {
        if line.contains('\n') {
            let j = choose|j: int| 0 <= j < line.len() && line[j] == '\n';
            if j >= p.len() {
                assert(x[j - p.len()] == '\n');
            } else {
                assert(p[j] == '\n');
            }
        }
    }
    assert(p + x + "\n"@ =~= line + seq!['\n'] + e);
    crate::text::lemma_split_plain(line, '\n');
    crate::text::lemma_split_sep_then_plain(line, e, '\n');
    assert(split_on(p + x + "\n"@, '\n') =~= seq![line, e]);
    assert(crate::text::strip_cr(line) =~= p + crate::text::strip_cr(x));
    assert(lines_seq(p + x + "\n"@) =~= seq![p + crate::text::strip_cr(x)]);
    if x.last() == '\r' {
        crate::text::lemma_trim_drop_trailing_ws(x);
    }
}

/// A `.git` file `gitdir:<path>` (one line, ended by a line break) points at the trimmed
/// path, whenever that is not empty.
pub proof fn lemma_gitdir_single_line(path: Seq<char>)
    requires
        !path.contains('\n'),
        trim_seq(path).len() > 0,
    ensures
        spec_gitdir("gitdir:"@ + path + "\n"@) == Some(trim_seq(path)),
{
    let p = "gitdir:"@;
    reveal_strlit("gitdir:");
    assert(path.len() > 0) by {
        if path.len() == 0 {
            assert(trim_seq(path) =~= Seq::<char>::empty());
        }
    }
    assert(!p.contains('\n')) by {
        if p.contains('\n') {
            let j = choose|j: int| 0 <= j < p.len() && p[j] == '\n';
        }
    }
    lemma_single_line(p, path);
    let m = crate::text::strip_cr(path);
    let l = p + m;
    assert(crate::text::trim_start_seq(l) == l) by {
        assert(l[0] == 'g');
    }
    crate::text::lemma_trim_end_after_solid(p, m);
    let u = crate::text::trim_end_seq(m);
    assert(trim_seq(l) == p + u);
    assert(starts_with_seq(p + u, p)) by {
        assert((p + u).subrange(0, p.len() as int) =~= p);
    }
    assert((p + u).skip(p.len() as int) =~= u);
    crate::text::lemma_trim_of_trim_end(m);
    let ls = lines_seq("gitdir:"@ + path + "\n"@);
    assert(ls[0] == l);
    assert(gitdir_of_line(ls[0]) == Some(trim_seq(path)));
}

/// A kubeconfig line `current-context:<name>` (one line, ended by a line break) names the
/// context `name`, trimmed and without surrounding quotes, whenever that is not empty.
pub proof fn lemma_kube_context_single_line(name: Seq<char>)
    requires
        !name.contains('\n'),
        trim_quotes(trim_seq(name)).len() > 0,
    ensures
        spec_kube_context("current-context:"@ + name + "\n"@) == Some(trim_quotes(trim_seq(name))),
{
    let p = "current-context:"@;
    reveal_strlit("current-context:");
    assert(name.len() > 0) by {
        if name.len() == 0 {
            assert(trim_seq(name) =~= Seq::<char>::empty());
            assert(trim_quotes(Seq::<char>::empty()) =~= Seq::<char>::empty());
        }
    }
    assert(!p.contains('\n')) by {
        if p.contains('\n') {
            let j = choose|j: int| 0 <= j < p.len() && p[j] == '\n';
        }
    }
    lemma_single_line(p, name);
    let m = crate::text::strip_cr(name);
    let l = p + m;
    assert(crate::text::trim_start_seq(l) == l) by {
        assert(l[0] == 'c');
    }
    assert(starts_with_seq(l, p)) by {
        assert(l.subrange(0, p.len() as int) =~= p);
    }
    assert(l.skip(p.len() as int) =~= m);
    let ls = lines_seq("current-context:"@ + name + "\n"@);
    assert(ls[0] == l);
    assert(context_of_line(ls[0]) == Some(trim_quotes(trim_seq(name))));
}

} // verus!
