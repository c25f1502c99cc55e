//! The tmux side of the leader: the invocation context (session / window / pane taken from
//! the popup's arguments), and the parsing of `tmux list-*` output.
//!
//! Running `tmux(1)` itself is left to the caller: functions here decide what to run and
//! read what came back.
use vstd::prelude::*;
use crate::text::{
    dec_digits, join_str, u64_str,
    chars_eq, lines_chars, lines_seq, split_chars, split_on, str_eq, trim_str, chars_of, contains_char, contains_chars, contains_seq, parse_u16_chars, parse_u64_chars,
    parse_unsigned, starts_with_char, string_of, sub_vec, trim_chars, trim_seq, views, words,
    words_chars,
};

verus! {

/// What went wrong while reading the popup's arguments.
#[derive(Debug, Clone, Copy, PartialEq, Eq, Structural)]
pub enum ArgvErrorKind {
    /// An argument still holds a `#{…}` format: tmux did not expand it.
    LiteralPlaceholders,
    /// The client width is not a decimal `u16`.
    ClientWidthNotNumber,
    /// The client height is not a decimal `u16`.
    ClientHeightNotNumber,
    /// Width or height is zero.
    ClientSizeTooSmall { width: u16, height: u16 },
    /// The window id is not `@` followed by a decimal `u64`.
    WindowIdNotNumber,
    /// None of the accepted argument shapes has this many arguments.
    ArgumentCount { count: usize },
    /// A single combined argument with fewer than four tokens.
    TooFewTokens { count: usize },
    /// The pane token does not start with `%`.
    PaneIdMalformed,
    /// The window token does not start with `@`.
    WindowIdMalformed,
    /// The session token does not start with `$`.
    SessionIdMalformed,
    /// Session id or pane id is empty.
    EmptyIds,
    /// `LEADER_SID` or `LEADER_PID` is empty.
    EnvIdsEmpty,
    /// `display-message` gave no session id for the popup's pane.
    EmptySessionId,
    /// No active pane could be found for the window (its target is the detail).
    NoActivePane,
}

/// An argument error and the text it is about (empty where none applies).
#[derive(Debug)]
pub struct ArgvError {
    pub kind: ArgvErrorKind,
    pub detail: String,
}

/// Session / window / pane (and optional client size) read from the popup's arguments.
#[derive(Debug, PartialEq, Eq)]
pub struct ParsedArgv {
    pub session_id: String,
    pub window_id: u64,
    pub pane_id: String,
    pub client_size: Option<(u16, u16)>,
}

/// Spec value of a parse: session id, window id, pane id, client size.
pub type ParsedView = (Seq<char>, u64, Seq<char>, Option<(u16, u16)>);

/// Spec value of an error: its kind and its detail text.
pub type ArgvErr = (ArgvErrorKind, Seq<char>);

pub open spec fn argv_view(argv: Seq<String>) -> Seq<Seq<char>> {
    argv.map_values(|s: String| s@)
}

/// Does a parse result agree with its spec value?
pub open spec fn parse_result_is(r: Result<ParsedArgv, ArgvError>, v: Result<ParsedView, ArgvErr>) -> bool {
    match (r, v) {
        (Ok(p), Ok(x)) => p.session_id@ == x.0 && p.window_id == x.1 && p.pane_id@ == x.2
            && p.client_size == x.3,
        (Err(e), Err(x)) => e.kind == x.0 && e.detail@ == x.1,
        _ => false,
    }
}

pub open spec fn err_is<T>(r: Result<T, ArgvError>, x: ArgvErr) -> bool {
    match r {
        Err(e) => e.kind == x.0 && e.detail@ == x.1,
        Ok(_) => false,
    }
}

/// `s` without any leading `c`.
pub open spec fn strip_leading(s: Seq<char>, c: char) -> Seq<char>
    decreases s.len(),
{
    if s.len() > 0 && s[0] == c {
        strip_leading(s.drop_first(), c)
    } else {
        s
    }
}

/// `@n` (any number of leading `@`) read as the decimal window number `n`.
pub open spec fn spec_parse_window_id(raw: Seq<char>) -> Result<u64, ArgvErr> {
    match parse_unsigned(strip_leading(raw, '@'), 0xffff_ffff_ffff_ffff) {
        Some(n) => Ok(n as u64),
        None => Err((ArgvErrorKind::WindowIdNotNumber, raw)),
    }
}

/// Client width and height, each a trimmed decimal `u16`, both at least 1.
pub open spec fn spec_parse_wh(w: Seq<char>, h: Seq<char>) -> Result<(u16, u16), ArgvErr> {
    let tw = trim_seq(w);
    let th = trim_seq(h);
    match parse_unsigned(tw, 0xffff) {
        None => Err((ArgvErrorKind::ClientWidthNotNumber, tw)),
        Some(x) => match parse_unsigned(th, 0xffff) {
            None => Err((ArgvErrorKind::ClientHeightNotNumber, th)),
            Some(y) => if x >= 1 && y >= 1 {
                Ok((x as u16, y as u16))
            } else {
                Err(
                    (
                        ArgvErrorKind::ClientSizeTooSmall { width: x as u16, height: y as u16 },
                        Seq::<char>::empty(),
                    ),
                )
            },
        },
    }
}

/// A token that names the leader binary rather than a tmux id.
pub open spec fn spec_looks_like_binary_path(s: Seq<char>) -> bool {
    let t = trim_seq(s);
    contains_seq(t, "tmux-leader"@) || (t.contains('/') && !(t.len() > 0 && (t[0] == '$' || t[0]
        == '@' || t[0] == '%')))
}

/// The separate-token shapes: trimmed session, window, pane, then an optional size.
pub open spec fn spec_fields(
    s: Seq<char>,
    w: Seq<char>,
    p: Seq<char>,
    size: Option<(Seq<char>, Seq<char>)>,
) -> Result<ParsedView, ArgvErr> {
    match spec_parse_window_id(trim_seq(w)) {
        Err(e) => Err(e),
        Ok(wid) => match size {
            None => Ok((trim_seq(s), wid, trim_seq(p), None)),
            Some(wh) => match spec_parse_wh(wh.0, wh.1) {
                Err(e) => Err(e),
                Ok(sz) => Ok((trim_seq(s), wid, trim_seq(p), Some(sz))),
            },
        },
    }
}

/// One shell-style argument: `/path/tmux-leader $sess @win %pane [w h]`.
pub open spec fn spec_parse_combined(c: Seq<char>) -> Result<ParsedView, ArgvErr> {
    let parts = words(c);
    let len = parts.len();
    if len < 4 {
        Err((ArgvErrorKind::TooFewTokens { count: len as usize }, Seq::<char>::empty()))
    } else {
        let sized = len >= 6 && spec_parse_wh(parts[len - 2], parts[len - 1]) is Ok;
        let n: int = if sized {
            len - 2
        } else {
            len as int
        };
        let size = if sized {
            Some(spec_parse_wh(parts[len - 2], parts[len - 1])->Ok_0)
        } else {
            None
        };
        let pane = trim_seq(parts[n - 1]);
        let win = trim_seq(parts[n - 2]);
        let sess = trim_seq(parts[n - 3]);
        if !(pane.len() > 0 && pane[0] == '%') {
            Err((ArgvErrorKind::PaneIdMalformed, pane))
        } else if !(win.len() > 0 && win[0] == '@') {
            Err((ArgvErrorKind::WindowIdMalformed, win))
        } else if !(sess.len() > 0 && sess[0] == '$') {
            Err((ArgvErrorKind::SessionIdMalformed, sess))
        } else {
            match spec_parse_window_id(win) {
                Err(e) => Err(e),
                Ok(wid) => Ok((sess, wid, pane, size)),
            }
        }
    }
}

pub open spec fn has_placeholder(a: Seq<char>) -> bool {
    contains_seq(a, "#{"@)
}

/// The argument shapes the leader accepts, tried in order.
pub open spec fn spec_parse_shapes(argv: Seq<Seq<char>>) -> Result<ParsedView, ArgvErr> {
    let n = argv.len();
    if n == 1 {
        spec_parse_combined(argv[0])
    } else if n == 6 && spec_looks_like_binary_path(argv[0]) {
        spec_fields(argv[1], argv[2], argv[3], Some((argv[4], argv[5])))
    } else if n == 4 && spec_looks_like_binary_path(argv[0]) {
        spec_fields(argv[1], argv[2], argv[3], None)
    } else if n == 5 && !spec_looks_like_binary_path(argv[0]) {
        spec_fields(argv[0], argv[1], argv[2], Some((argv[3], argv[4])))
    } else if n == 3 {
        spec_fields(argv[0], argv[1], argv[2], None)
    } else {
        Err((ArgvErrorKind::ArgumentCount { count: n as usize }, Seq::<char>::empty()))
    }
}

/// What the popup's arguments mean: refused with `#{` anywhere, else the first matching
/// shape, whose session and pane ids must be non-empty.
pub open spec fn spec_parse_argv(argv: Seq<Seq<char>>) -> Result<ParsedView, ArgvErr> {
    if exists|i: int| 0 <= i < argv.len() && has_placeholder(#[trigger] argv[i]) {
        Err((ArgvErrorKind::LiteralPlaceholders, Seq::<char>::empty()))
    } else {
        match spec_parse_shapes(argv) {
            Err(e) => Err(e),
            Ok(p) => if p.0.len() > 0 && p.2.len() > 0 {
                Ok(p)
            } else {
                Err((ArgvErrorKind::EmptyIds, Seq::<char>::empty()))
            },
        }
    }
}

fn argv_error(kind: ArgvErrorKind, detail: &[char]) -> (e: ArgvError)
    ensures
        e.kind == kind,
        e.detail@ == detail@,
{
    ArgvError { kind, detail: string_of(detail) }
}

fn strip_leading_chars(s: &[char], c: char) -> (r: Vec<char>)
    ensures
        r@ == strip_leading(s@, c),
{
    let mut i: usize = 0;
    assert(s@.subrange(0, s@.len() as int) =~= s@);
    while i < s.len() && s[i] == c
        invariant
            0 <= i <= s@.len(),
            strip_leading(s@, c) == strip_leading(s@.subrange(i as int, s@.len() as int), c),
        decreases s.len() - i,
    {
        assert(s@.subrange(i + 1, s@.len() as int) =~= s@.subrange(
            i as int,
            s@.len() as int,
        ).drop_first());
        i = i + 1;
    }
    assert(s@.subrange(0, s@.len() as int) =~= s@);
    sub_vec(s, i, s.len())
}

/// `raw` with leading `@` removed, read as a decimal `u64`.
pub fn parse_window_id(raw: &[char]) -> (r: Result<u64, ArgvError>)
    ensures
        match (r, spec_parse_window_id(raw@)) {
            (Ok(a), Ok(b)) => a == b,
            (Err(e), Err(x)) => e.kind == x.0 && e.detail@ == x.1,
            _ => false,
        },
{
    let digits = strip_leading_chars(raw, '@');
    match parse_u64_chars(digits.as_slice()) {
        Some(n) => Ok(n),
        None => Err(argv_error(ArgvErrorKind::WindowIdNotNumber, raw)),
    }
}

/// Client width and height from two tokens.
pub fn parse_wh(raw_w: &[char], raw_h: &[char]) -> (r: Result<(u16, u16), ArgvError>)
    ensures
        match (r, spec_parse_wh(raw_w@, raw_h@)) {
            (Ok(a), Ok(b)) => a == b,
            (Err(e), Err(x)) => e.kind == x.0 && e.detail@ == x.1,
            _ => false,
        },
{
    let tw = trim_chars(raw_w);
    let th = trim_chars(raw_h);
    let w = match parse_u16_chars(tw.as_slice()) {
        Some(w) => w,
        None => {
            return Err(argv_error(ArgvErrorKind::ClientWidthNotNumber, tw.as_slice()));
        },
    };
    let h = match parse_u16_chars(th.as_slice()) {
        Some(h) => h,
        None => {
            return Err(argv_error(ArgvErrorKind::ClientHeightNotNumber, th.as_slice()));
        },
    };
    if w >= 1 && h >= 1 {
        Ok((w, h))
    } else {
        let empty: Vec<char> = Vec::new();
        Err(
            argv_error(
                ArgvErrorKind::ClientSizeTooSmall { width: w, height: h },
                empty.as_slice(),
            ),
        )
    }
}

/// Does the token look like the leader binary's path (not `$`, `@` or `%`)?
pub fn looks_like_binary_path(s: &[char]) -> (b: bool)
    ensures
        b == spec_looks_like_binary_path(s@),
{
    let t = trim_chars(s);
    let name = chars_of("tmux-leader");
    if contains_chars(t.as_slice(), name.as_slice()) {
        return true;
    }
    contains_char(t.as_slice(), '/') && !(t.len() > 0 && (t[0] == '$' || t[0] == '@' || t[0]
        == '%'))
}

fn parsed(s: &[char], window_id: u64, p: &[char], client_size: Option<(u16, u16)>) -> (r:
    ParsedArgv)
    ensures
        r.session_id@ == s@,
        r.window_id == window_id,
        r.pane_id@ == p@,
        r.client_size == client_size,
{
    ParsedArgv { session_id: string_of(s), window_id, pane_id: string_of(p), client_size }
}

fn parse_fields(s: &[char], w: &[char], p: &[char], size: Option<(&[char], &[char])>) -> (r:
    Result<ParsedArgv, ArgvError>)
    ensures
        parse_result_is(
            r,
            spec_fields(
                s@,
                w@,
                p@,
                match size {
                    Some(x) => Some((x.0@, x.1@)),
                    None => None,
                },
            ),
        ),
{
    let tw = trim_chars(w);
    let wid = match parse_window_id(tw.as_slice()) {
        Ok(n) => n,
        Err(e) => {
            return Err(e);
        },
    };
    let ts = trim_chars(s);
    let tp = trim_chars(p);
    match size {
        None => Ok(parsed(ts.as_slice(), wid, tp.as_slice(), None)),
        Some((a, b)) => match parse_wh(a, b) {
            Err(e) => Err(e),
            Ok(sz) => Ok(parsed(ts.as_slice(), wid, tp.as_slice(), Some(sz))),
        },
    }
}

/// Last tokens: `$session`, `@window`, `%pane`, optional `width` `height`; leading tokens
/// are the binary path.
pub fn parse_targets_from_combined_e_arg(combined: &[char]) -> (r: Result<ParsedArgv, ArgvError>)
    ensures
        parse_result_is(r, spec_parse_combined(combined@)),
{
    let parts = words_chars(combined);
    let len = parts.len();
    let ghost ps = words(combined@);
    assert(views(parts@) == ps);
    if len < 4 {
        let empty: Vec<char> = Vec::new();
        return Err(argv_error(ArgvErrorKind::TooFewTokens { count: len }, empty.as_slice()));
    }
    let mut n = len;
    let mut client_size: Option<(u16, u16)> = None;
    if len >= 6 {
        assert(parts@[len - 2]@ == ps[len - 2]);
        assert(parts@[len - 1]@ == ps[len - 1]);
        match parse_wh(parts[len - 2].as_slice(), parts[len - 1].as_slice()) {
            Ok(wh) => {
                n = len - 2;
                client_size = Some(wh);
            },
            Err(_) => {},
        }
    }
    assert(parts@[n - 1]@ == ps[n - 1]);
    assert(parts@[n - 2]@ == ps[n - 2]);
    assert(parts@[n - 3]@ == ps[n - 3]);
    let pane = trim_chars(parts[n - 1].as_slice());
    let win = trim_chars(parts[n - 2].as_slice());
    let sess = trim_chars(parts[n - 3].as_slice());
    if !starts_with_char(pane.as_slice(), '%') {
        return Err(argv_error(ArgvErrorKind::PaneIdMalformed, pane.as_slice()));
    }
    if !starts_with_char(win.as_slice(), '@') {
        return Err(argv_error(ArgvErrorKind::WindowIdMalformed, win.as_slice()));
    }
    if !starts_with_char(sess.as_slice(), '$') {
        return Err(argv_error(ArgvErrorKind::SessionIdMalformed, sess.as_slice()));
    }
    let wid = match parse_window_id(win.as_slice()) {
        Ok(w) => w,
        Err(e) => {
            return Err(e);
        },
    };
    Ok(parsed(sess.as_slice(), wid, pane.as_slice(), client_size))
}

fn any_placeholder(args: &Vec<Vec<char>>) -> (b: bool)
    ensures
        b == exists|i: int| 0 <= i < args@.len() && has_placeholder(#[trigger] views(args@)[i]),
{
    let pat = chars_of("#{");
    let mut i: usize = 0;
    while i < args.len()
        invariant
            pat@ == "#{"@,
            0 <= i <= args@.len(),
            forall|k: int| 0 <= k < i ==> !has_placeholder(#[trigger] views(args@)[k]),
        decreases args.len() - i,
    {
        if contains_chars(args[i].as_slice(), pat.as_slice()) {
            assert(has_placeholder(views(args@)[i as int]));
            return true;
        }
        i = i + 1;
    }
    false
}

fn args_chars(argv: &[String]) -> (r: Vec<Vec<char>>)
    ensures
        views(r@) == argv_view(argv@),
{
    let mut r: Vec<Vec<char>> = Vec::new();
    let mut i: usize = 0;
    while i < argv.len()
        invariant
            0 <= i <= argv@.len(),
            views(r@) == argv_view(argv@).take(i as int),
        decreases argv.len() - i,
    {
        let ghost before = views(r@);
        let cs = chars_of(argv[i].as_str());
        assert(cs@ == argv@[i as int]@);
        r.push(cs);
        assert(views(r@) =~= before.push(argv@[i as int]@));
        assert(argv_view(argv@).take(i + 1) =~= argv_view(argv@).take(i as int).push(
            argv@[i as int]@,
        ));
        i = i + 1;
    }
    assert(argv_view(argv@).take(argv@.len() as int) =~= argv_view(argv@));
    r
}

/// Parse the popup's arguments (everything after the program name).
pub fn parse_argv(argv: &[String]) -> (r: Result<ParsedArgv, ArgvError>)
    ensures
        parse_result_is(r, spec_parse_argv(argv_view(argv@))),
{
    let args = args_chars(argv);
    let ghost a = argv_view(argv@);
    if any_placeholder(&args) {
        let empty: Vec<char> = Vec::new();
        return Err(argv_error(ArgvErrorKind::LiteralPlaceholders, empty.as_slice()));
    }
    let n = args.len();
    let res = if n == 1 {
        parse_targets_from_combined_e_arg(args[0].as_slice())
    } else if n == 6 && looks_like_binary_path(args[0].as_slice()) {
        parse_fields(
            args[1].as_slice(),
            args[2].as_slice(),
            args[3].as_slice(),
            Some((args[4].as_slice(), args[5].as_slice())),
        )
    } else if n == 4 && looks_like_binary_path(args[0].as_slice()) {
        parse_fields(args[1].as_slice(), args[2].as_slice(), args[3].as_slice(), None)
    } else if n == 5 && !looks_like_binary_path(args[0].as_slice()) {
        parse_fields(
            args[0].as_slice(),
            args[1].as_slice(),
            args[2].as_slice(),
            Some((args[3].as_slice(), args[4].as_slice())),
        )
    } else if n == 3 {
        parse_fields(args[0].as_slice(), args[1].as_slice(), args[2].as_slice(), None)
    } else {
        let empty: Vec<char> = Vec::new();
        Err(argv_error(ArgvErrorKind::ArgumentCount { count: n }, empty.as_slice()))
    };
    assert(parse_result_is(res, spec_parse_shapes(a)));
    match res {
        Ok(p) => {
            if string_is_empty(&p.session_id) || string_is_empty(&p.pane_id) {
                let empty: Vec<char> = Vec::new();
                Err(argv_error(ArgvErrorKind::EmptyIds, empty.as_slice()))
            } else {
                Ok(p)
            }
        },
        Err(e) => Err(e),
    }
}

/// One row of `tmux list-windows` for the leader's session.
#[derive(Debug)]
pub struct WindowLine {
    pub id: u64,
    pub index: u64,
    pub name: String,
    pub active: bool,
}

/// One row of `tmux list-panes`.
#[derive(Debug)]
pub struct PaneLine {
    pub pane_id: String,
    pub index: u64,
    pub command: String,
    pub active: bool,
}

/// One row of `tmux list-sessions`.
#[derive(Debug)]
pub struct SessionLine {
    pub name: String,
    pub active: bool,
}

/// The unit separator between fields of the leader's `-F` formats.
pub open spec fn field_sep() -> char {
    '\u{1f}'
}

pub open spec fn window_view(w: WindowLine) -> (u64, u64, Seq<char>, bool) {
    (w.id, w.index, w.name@, w.active)
}

pub open spec fn pane_view(p: PaneLine) -> (Seq<char>, u64, Seq<char>, bool) {
    (p.pane_id@, p.index, p.command@, p.active)
}

pub open spec fn session_view(s: SessionLine) -> (Seq<char>, bool) {
    (s.name@, s.active)
}

/// A decimal field, 0 when it does not parse.
pub open spec fn index_or_zero(s: Seq<char>) -> u64 {
    match parse_unsigned(trim_seq(s), 0xffff_ffff_ffff_ffff) {
        Some(n) => n as u64,
        None => 0,
    }
}

/// One `list-windows` line: skipped (`None`) unless it has exactly four fields; an
/// unreadable window id is an error.
pub open spec fn spec_window_line(line: Seq<char>) -> Option<Result<(u64, u64, Seq<char>, bool), ArgvErr>> {
    let parts = split_on(line, field_sep());
    if parts.len() != 4 {
        None
    } else {
        match spec_parse_window_id(trim_seq(parts[0])) {
            Err(e) => Some(Err(e)),
            Ok(id) => Some(Ok((id, index_or_zero(parts[1]), parts[2], parts[3] == "1"@))),
        }
    }
}

/// All `list-windows` lines, in order; the first bad window id is the result.
pub open spec fn spec_windows(ls: Seq<Seq<char>>) -> Result<Seq<(u64, u64, Seq<char>, bool)>, ArgvErr>
    decreases ls.len(),
{
    if ls.len() == 0 {
        Ok(Seq::empty())
    } else {
        match spec_windows(ls.drop_last()) {
            Err(e) => Err(e),
            Ok(acc) => match spec_window_line(ls.last()) {
                None => Ok(acc),
                Some(Err(e)) => Err(e),
                Some(Ok(w)) => Ok(acc.push(w)),
            },
        }
    }
}

/// One `list-panes` line: kept when it has four fields and a `%` pane id.
pub open spec fn spec_pane_line(line: Seq<char>) -> Option<(Seq<char>, u64, Seq<char>, bool)> {
    let parts = split_on(line, field_sep());
    if parts.len() != 4 {
        None
    } else {
        let id = trim_seq(parts[0]);
        if id.len() > 0 && id[0] == '%' {
            Some((id, index_or_zero(parts[1]), trim_seq(parts[2]), trim_seq(parts[3]) == "1"@))
        } else {
            None
        }
    }
}

pub open spec fn spec_panes(ls: Seq<Seq<char>>) -> Seq<(Seq<char>, u64, Seq<char>, bool)>
    decreases ls.len(),
{
    if ls.len() == 0 {
        Seq::empty()
    } else {
        let acc = spec_panes(ls.drop_last());
        match spec_pane_line(ls.last()) {
            None => acc,
            Some(p) => acc.push(p),
        }
    }
}

/// Text before the first `sep`, and text after it (empty when there is no `sep`).
pub open spec fn split_once_seq(s: Seq<char>, sep: char) -> (Seq<char>, Seq<char>) {
    let parts = split_on(s, sep);
    if parts.len() == 1 {
        (s, Seq::empty())
    } else {
        (parts[0], s.skip(parts[0].len() as int + 1))
    }
}

/// One `list-sessions` line: name, then `1` when active; kept when the name is non-empty.
pub open spec fn spec_session_line(line: Seq<char>) -> Option<(Seq<char>, bool)> {
    let (name, rest) = split_once_seq(line, field_sep());
    if name.len() > 0 {
        Some((name, trim_seq(rest) == "1"@))
    } else {
        None
    }
}

pub open spec fn spec_sessions(ls: Seq<Seq<char>>) -> Seq<(Seq<char>, bool)>
    decreases ls.len(),
{
    if ls.len() == 0 {
        Seq::empty()
    } else {
        let acc = spec_sessions(ls.drop_last());
        match spec_session_line(ls.last()) {
            None => acc,
            Some(p) => acc.push(p),
        }
    }
}

pub open spec fn spec_session_names(ls: Seq<Seq<char>>) -> Seq<Seq<char>>
    decreases ls.len(),
{
    if ls.len() == 0 {
        Seq::empty()
    } else {
        let acc = spec_session_names(ls.drop_last());
        let t = trim_seq(ls.last());
        if t.len() > 0 {
            acc.push(t)
        } else {
            acc
        }
    }
}

fn index_field(s: &[char]) -> (r: u64)
    ensures
        r == index_or_zero(s@),
{
    let t = trim_chars(s);
    match parse_u64_chars(t.as_slice()) {
        Some(n) => n,
        None => 0,
    }
}

fn is_one(s: &[char]) -> (b: bool)
    ensures
        b == (s@ == "1"@),
{
    let one = chars_of("1");
    chars_eq(s, one.as_slice())
}

/// Windows from `tmux list-windows -F '#{window_id}␟#{window_index}␟#{window_name}␟#{?window_active,1,0}'`.
pub fn list_windows_for_target(raw: &str) -> (r: Result<Vec<WindowLine>, ArgvError>)
    ensures
        match (r, spec_windows(lines_seq(raw@))) {
            (Ok(v), Ok(x)) => v@.map_values(|w: WindowLine| window_view(w)) == x,
            (Err(e), Err(x)) => e.kind == x.0 && e.detail@ == x.1,
            _ => false,
        },
{
    let cs = chars_of(raw);
    let ls = lines_chars(cs.as_slice());
    let ghost lv = lines_seq(raw@);
    let mut out: Vec<WindowLine> = Vec::new();
    let mut i: usize = 0;
    assert(lv.take(0) =~= Seq::<Seq<char>>::empty());
    assert(out@.map_values(|w: WindowLine| window_view(w)) =~= Seq::<(u64, u64, Seq<char>, bool)>::empty());
    while i < ls.len()
        invariant
            lv == lines_seq(raw@),
            views(ls@) == lv,
            0 <= i <= ls@.len(),
            spec_windows(lv.take(i as int)) == Ok::<Seq<(u64, u64, Seq<char>, bool)>, ArgvErr>(
                out@.map_values(|w: WindowLine| window_view(w)),
            ),
        decreases ls.len() - i,
    {
        assert(lv.take(i + 1).drop_last() =~= lv.take(i as int));
        assert(ls@[i as int]@ == lv[i as int]);
        let parts = split_chars(ls[i].as_slice(), '\u{1f}');
        assert(views(parts@) == split_on(lv[i as int], field_sep()));
        if parts.len() == 4 {
            assert(parts@[0]@ == split_on(lv[i as int], field_sep())[0]);
            assert(parts@[1]@ == split_on(lv[i as int], field_sep())[1]);
            assert(parts@[2]@ == split_on(lv[i as int], field_sep())[2]);
            assert(parts@[3]@ == split_on(lv[i as int], field_sep())[3]);
            let t0 = trim_chars(parts[0].as_slice());
            let id = match parse_window_id(t0.as_slice()) {
                Ok(id) => id,
                Err(e) => {
                    proof {
                        let x0 = spec_parse_window_id(t0@)->Err_0;
                        assert(spec_window_line(lv[i as int]) == Some(Err::<(u64, u64, Seq<char>, bool), ArgvErr>(x0)));
                        assert(lv.take(i + 1).last() == lv[i as int]);
                        assert(spec_windows(lv.take(i + 1)) == Err::<Seq<(u64, u64, Seq<char>, bool)>, ArgvErr>(x0));
                        lemma_windows_err_sticky(lv, i as int + 1);
                        assert(lv.take(lv.len() as int) =~= lv);
                        assert(spec_windows(lv) == Err::<Seq<(u64, u64, Seq<char>, bool)>, ArgvErr>(x0));
                        assert(e.kind == x0.0);
                        assert(e.detail@ == x0.1);
                    }
                    return Err(e);
                },
            };
            let ghost before = out@.map_values(|w: WindowLine| window_view(w));
            let index = index_field(parts[1].as_slice());
            let name = string_of(parts[2].as_slice());
            let active = is_one(parts[3].as_slice());
            out.push(WindowLine { id, index, name, active });
            assert(out@.map_values(|w: WindowLine| window_view(w)) =~= before.push(
                (id, index, name@, active),
            ));
        }
        i = i + 1;
    }
    assert(lv.take(lv.len() as int) =~= lv);
    Ok(out)
}

proof fn lemma_windows_err_sticky(ls: Seq<Seq<char>>, k: int)
    requires
        0 <= k <= ls.len(),
        spec_windows(ls.take(k)) is Err,
    ensures
        spec_windows(ls) == spec_windows(ls.take(k)),
    decreases ls.len() - k,
{
    if k < ls.len() {
        assert(ls.take(k + 1).drop_last() =~= ls.take(k));
        lemma_windows_err_sticky(ls, k + 1);
    } else {
        assert(ls.take(k) =~= ls);
    }
}

/// Panes from `tmux list-panes -F '#{pane_id}␟#{pane_index}␟#{pane_current_command}␟#{?pane_active,1,0}'`.
pub fn list_panes_for_target(raw: &str) -> (r: Vec<PaneLine>)
    ensures
        r@.map_values(|p: PaneLine| pane_view(p)) == spec_panes(lines_seq(raw@)),
{
    let cs = chars_of(raw);
    let ls = lines_chars(cs.as_slice());
    let ghost lv = lines_seq(raw@);
    let mut out: Vec<PaneLine> = Vec::new();
    let mut i: usize = 0;
    assert(lv.take(0) =~= Seq::<Seq<char>>::empty());
    while i < ls.len()
        invariant
            views(ls@) == lv,
            0 <= i <= ls@.len(),
            spec_panes(lv.take(i as int)) == out@.map_values(|p: PaneLine| pane_view(p)),
        decreases ls.len() - i,
    {
        assert(lv.take(i + 1).drop_last() =~= lv.take(i as int));
        assert(ls@[i as int]@ == lv[i as int]);
        let parts = split_chars(ls[i].as_slice(), '\u{1f}');
        assert(views(parts@) == split_on(lv[i as int], field_sep()));
        if parts.len() == 4 {
            assert(parts@[0]@ == split_on(lv[i as int], field_sep())[0]);
            assert(parts@[1]@ == split_on(lv[i as int], field_sep())[1]);
            assert(parts@[2]@ == split_on(lv[i as int], field_sep())[2]);
            assert(parts@[3]@ == split_on(lv[i as int], field_sep())[3]);
            let id = trim_chars(parts[0].as_slice());
            if starts_with_char(id.as_slice(), '%') {
                let ghost before = out@.map_values(|p: PaneLine| pane_view(p));
                let index = index_field(parts[1].as_slice());
                let command = trim_chars(parts[2].as_slice());
                let act = trim_chars(parts[3].as_slice());
                let active = is_one(act.as_slice());
                let line = PaneLine {
                    pane_id: string_of(id.as_slice()),
                    index,
                    command: string_of(command.as_slice()),
                    active,
                };
                out.push(line);
                assert(out@.map_values(|p: PaneLine| pane_view(p)) =~= before.push(
                    (id@, index, command@, active),
                ));
            }
        }
        i = i + 1;
    }
    assert(lv.take(lv.len() as int) =~= lv);
    out
}

/// Sessions from `tmux list-sessions -F '#{session_name}␟#{?session_active,1,0}'`.
pub fn list_sessions(raw: &str) -> (r: Vec<SessionLine>)
    ensures
        r@.map_values(|s: SessionLine| session_view(s)) == spec_sessions(lines_seq(raw@)),
{
    let cs = chars_of(raw);
    let ls = lines_chars(cs.as_slice());
    let ghost lv = lines_seq(raw@);
    let mut out: Vec<SessionLine> = Vec::new();
    let mut i: usize = 0;
    assert(lv.take(0) =~= Seq::<Seq<char>>::empty());
    while i < ls.len()
        invariant
            views(ls@) == lv,
            0 <= i <= ls@.len(),
            spec_sessions(lv.take(i as int)) == out@.map_values(|s: SessionLine| session_view(s)),
        decreases ls.len() - i,
    {
        assert(lv.take(i + 1).drop_last() =~= lv.take(i as int));
        assert(ls@[i as int]@ == lv[i as int]);
        let (name, rest) = split_once_chars(ls[i].as_slice(), '\u{1f}');
        if name.len() > 0 {
            let ghost before = out@.map_values(|s: SessionLine| session_view(s));
            let act = trim_chars(rest.as_slice());
            let active = is_one(act.as_slice());
            out.push(SessionLine { name: string_of(name.as_slice()), active });
            assert(out@.map_values(|s: SessionLine| session_view(s)) =~= before.push(
                (name@, active),
            ));
        }
        i = i + 1;
    }
    assert(lv.take(lv.len() as int) =~= lv);
    out
}

/// Session names from `tmux list-sessions -F '#{session_name}'`: trimmed, blanks dropped.
pub fn list_session_names(raw: &str) -> (r: Vec<String>)
    ensures
        r@.map_values(|s: String| s@) == spec_session_names(lines_seq(raw@)),
{
    let cs = chars_of(raw);
    let ls = lines_chars(cs.as_slice());
    let ghost lv = lines_seq(raw@);
    let mut out: Vec<String> = Vec::new();
    let mut i: usize = 0;
    assert(lv.take(0) =~= Seq::<Seq<char>>::empty());
    while i < ls.len()
        invariant
            views(ls@) == lv,
            0 <= i <= ls@.len(),
            spec_session_names(lv.take(i as int)) == out@.map_values(|s: String| s@),
        decreases ls.len() - i,
    {
        assert(lv.take(i + 1).drop_last() =~= lv.take(i as int));
        assert(ls@[i as int]@ == lv[i as int]);
        let t = trim_chars(ls[i].as_slice());
        if t.len() > 0 {
            let ghost before = out@.map_values(|s: String| s@);
            out.push(string_of(t.as_slice()));
            assert(out@.map_values(|s: String| s@) =~= before.push(t@));
        }
        i = i + 1;
    }
    assert(lv.take(lv.len() as int) =~= lv);
    out
}

proof fn lemma_split_first_piece(s: Seq<char>, sep: char, i: int)
    requires
        0 <= i < s.len(),
        s[i] == sep,
        forall|k: int| 0 <= k < i ==> s[k] != sep,
    ensures
        split_on(s, sep).len() >= 2,
        split_on(s, sep)[0] == s.take(i),
    decreases s.len(),
{
    lemma_split_len_ge1(s.drop_last(), sep);
    if i == s.len() - 1 {
        lemma_split_single(s.drop_last(), sep);
        assert(s.drop_last() =~= s.take(i));
    } else {
        lemma_split_first_piece(s.drop_last(), sep, i);
        assert(s.drop_last().take(i) =~= s.take(i));
    }
}

proof fn lemma_split_len_ge1(s: Seq<char>, sep: char)
    ensures
        split_on(s, sep).len() >= 1,
    decreases s.len(),
{
    if s.len() > 0 {
        lemma_split_len_ge1(s.drop_last(), sep);
    }
}

proof fn lemma_split_single(s: Seq<char>, sep: char)
    requires
        forall|k: int| 0 <= k < s.len() ==> s[k] != sep,
    ensures
        split_on(s, sep) == seq![s],
    decreases s.len(),
{
    if s.len() > 0 {
        lemma_split_single(s.drop_last(), sep);
        assert(s.drop_last().push(s.last()) =~= s);
        assert(seq![s.drop_last()].update(0, s.drop_last().push(s.last())) =~= seq![s]);
    } else {
        assert(s =~= Seq::<char>::empty());
    }
}

/// Text before the first `sep` and text after it.
fn split_once_chars(s: &[char], sep: char) -> (r: (Vec<char>, Vec<char>))
    ensures
        (r.0@, r.1@) == split_once_seq(s@, sep),
{
    let mut i: usize = 0;
    while i < s.len() && s[i] != sep
        invariant
            0 <= i <= s@.len(),
            forall|k: int| 0 <= k < i ==> s@[k] != sep,
        decreases s.len() - i,
    {
        i = i + 1;
    }
    if i == s.len() {
        proof {
            lemma_split_single(s@, sep);
        }
        (sub_vec(s, 0, s.len()), Vec::new())
    } else {
        proof {
            lemma_split_first_piece(s@, sep, i as int);
            assert(s@.subrange(0, s@.len() as int) =~= s@);
        }
        let a = sub_vec(s, 0, i);
        let b = sub_vec(s, i + 1, s.len());
        assert(a@ =~= s@.take(i as int));
        assert(b@ =~= s@.skip(i + 1));
        (a, b)
    }
}

/// Same order and names as `list_sessions`, but `active` marks the session whose name is
/// `here` (the session this client is attached to), when that name is known and non-empty.
pub fn list_sessions_reconciled_for_pane(sessions: Vec<SessionLine>, here: Option<String>) -> (r:
    Vec<SessionLine>)
    ensures
        r@.len() == sessions@.len(),
        forall|k: int|
            0 <= k < r@.len() ==> #[trigger] r@[k].name@ == sessions@[k].name@ && r@[k].active
                == match here {
                Some(h) => if trim_seq(h@).len() > 0 {
                    trim_seq(sessions@[k].name@) == trim_seq(h@)
                } else {
                    sessions@[k].active
                },
                None => sessions@[k].active,
            },
{
    let ghost hv: Option<Seq<char>> = match &here {
        Some(h) => Some(h@),
        None => None,
    };
    let name: Option<Vec<char>> = match here {
        Some(h) => {
            let t = trim_str(h.as_str());
            let tc = chars_of(t.as_str());
            if tc.len() > 0 {
                Some(tc)
            } else {
                None
            }
        },
        None => None,
    };
    let ghost nv: Option<Seq<char>> = match &name {
        Some(t) => Some(t@),
        None => None,
    };
    let mut out: Vec<SessionLine> = Vec::new();
    let mut sessions = sessions;
    let ghost orig = sessions@;
    let n = sessions.len();
    let mut i: usize = 0;
    while i < n
        invariant
            n == orig.len(),
            0 <= i <= n,
            out@.len() == i,
            match name {
                Some(t) => t@.len() > 0 && hv is Some && t@ == trim_seq(hv->Some_0),
                None => (hv is Some ==> trim_seq(hv->Some_0).len() == 0),

            },
            forall|k: int|
                #![trigger out@[k]]
                0 <= k < i ==> out@[k].name@ == orig[k].name@ && out@[k].active == match nv {
                    Some(t) => trim_seq(orig[k].name@) == t,
                    None => orig[k].active,
                },
            nv == match name {
                Some(t) => Some(t@),
                None => None::<Seq<char>>,
            },
            sessions@.len() == n,
            forall|k: int| i <= k < n ==> #[trigger] sessions@[k] == orig[k],
        decreases n - i,
    {
        let s = &sessions[i];
        assert(sessions@[i as int] == orig[i as int]);
        let sn = chars_of(s.name.as_str());
        let active = match &name {
            Some(t) => {
                let st = trim_chars(sn.as_slice());
                chars_eq(st.as_slice(), t.as_slice())
            },
            None => s.active,
        };
        assert(active == match name {
            Some(t) => trim_seq(orig[i as int].name@) == t@,
            None => orig[i as int].active,
        });
        let nm = string_of(sn.as_slice());
        let ghost before = out@;
        out.push(SessionLine { name: nm, active });
        assert(out@[i as int].name@ == orig[i as int].name@);
        assert(forall|k: int| 0 <= k < i ==> out@[k] == before[k]);
        i = i + 1;
    }
    out
}

/// True if another pane in `lines` is running tmux-leader.
pub fn other_leader_running(my_pane: &str, lines: &Vec<PaneLine>) -> (b: bool)
    ensures
        b == exists|k: int|
            0 <= k < lines@.len() && #[trigger] lines@[k].pane_id@ != my_pane@ && contains_seq(
                lines@[k].command@,
                "tmux-leader"@,
            ),
{
    let pat = chars_of("tmux-leader");
    let mut i: usize = 0;
    while i < lines.len()
        invariant
            pat@ == "tmux-leader"@,
            0 <= i <= lines@.len(),
            forall|k: int|
                0 <= k < i ==> !(#[trigger] lines@[k].pane_id@ != my_pane@ && contains_seq(
                    lines@[k].command@,
                    "tmux-leader"@,
                )),
        decreases lines.len() - i,
    {
        let pl = &lines[i];
        if !str_eq(pl.pane_id.as_str(), my_pane) {
            let c = chars_of(pl.command.as_str());
            if contains_chars(c.as_slice(), pat.as_slice()) {
                return true;
            }
        }
        i = i + 1;
    }
    false
}

/// Is the string empty?
pub fn string_is_empty(s: &String) -> (b: bool)
    ensures
        b == (s@.len() == 0),
{
    s.as_str().unicode_len() == 0
}

/// Session, window and pane under the popup, and the client size when it was passed.
#[derive(Debug)]
pub struct LeaderContext {
    /// `#{session_id}`, e.g. `$0`.
    pub session_id: String,
    /// Numeric part of `#{window_id}` for the pane under the popup.
    pub window_id: u64,
    /// `#{pane_id}`, e.g. `%1`.
    pub pane_id: String,
    /// Character-cell size of the client (`#{client_width}` × `#{client_height}`), when given.
    pub client_size: Option<(u16, u16)>,
}

/// `$session:@window`: the `-t` target of a window-scoped command.
pub open spec fn spec_window_target(session_id: Seq<char>, window_id: u64) -> Seq<char> {
    session_id + ":@"@ + dec_digits(window_id as nat)
}

/// The context from the popup's arguments; `Ok(None)` when there are none (the caller then
/// reads the environment instead).
pub fn init_from_args(argv: &[String]) -> (r: Result<Option<LeaderContext>, ArgvError>)
    ensures
        argv@.len() == 0 ==> r matches Ok(None),
        argv@.len() > 0 ==> match (r, spec_parse_argv(argv_view(argv@))) {
            (Ok(Some(c)), Ok(x)) => c.session_id@ == x.0 && c.window_id == x.1 && c.pane_id@ == x.2
                && c.client_size == x.3,
            (Err(e), Err(x)) => e.kind == x.0 && e.detail@ == x.1,
            _ => false,
        },
{
    if argv.len() == 0 {
        return Ok(None);
    }
    match parse_argv(argv) {
        Ok(p) => Ok(
            Some(
                LeaderContext {
                    session_id: p.session_id,
                    window_id: p.window_id,
                    pane_id: p.pane_id,
                    client_size: p.client_size,
                },
            ),
        ),
        Err(e) => Err(e),
    }
}

/// Viewport size passed on the command line, if any.
pub fn client_viewport_wh(ctx: &LeaderContext) -> (r: Option<(u16, u16)>)
    ensures
        r == ctx.client_size,
{
    ctx.client_size
}

/// The pane the leader acts on.
pub fn target_pane(ctx: &LeaderContext) -> (r: String)
    ensures
        r@ == ctx.pane_id@,
{
    ctx.pane_id.clone()
}

/// The session the leader was opened in.
pub fn session_id(ctx: &LeaderContext) -> (r: &str)
    ensures
        r@ == ctx.session_id@,
{
    ctx.session_id.as_str()
}

/// Window id of the invoked pane (from the arguments, not a live query).
pub fn initial_window_id(ctx: &LeaderContext) -> (r: u64)
    ensures
        r == ctx.window_id,
{
    ctx.window_id
}

/// The window of the target pane: the invoked window, whatever the pane.
pub fn window_id_for_pane(ctx: &LeaderContext, target: &str) -> (r: u64)
    ensures
        r == ctx.window_id,
{
    ctx.window_id
}

/// `$session:@window` for `window_id` in the leader's session.
pub fn window_target(ctx: &LeaderContext, window_id: u64) -> (r: String)
    ensures
        r@ == spec_window_target(ctx.session_id@, window_id),
{
    let a = join_str(ctx.session_id.as_str(), ":@");
    let d = u64_str(window_id);
    join_str(a.as_str(), d.as_str())
}

/// The pane's working directory from `display-message -p '#{pane_current_path}'` output.
pub fn pane_cwd(raw: &str) -> (r: String)
    ensures
        r@ == trim_seq(raw@),
{
    trim_str(raw)
}

/// The session name from `display-message -p '#{session_name}'` output.
pub fn session_name_for_pane(raw: &str) -> (r: String)
    ensures
        r@ == trim_seq(raw@),
{
    trim_str(raw)
}

/// Panes of the invoked window from `list-panes -t <window target>` output.
pub fn list_panes_for_window(raw: &str) -> (r: Vec<PaneLine>)
    ensures
        r@.map_values(|p: PaneLine| pane_view(p)) == spec_panes(lines_seq(raw@)),
{
    list_panes_for_target(raw)
}

pub open spec fn has_format(s: Seq<char>) -> bool {
    contains_seq(s, "#{"@)
}

/// The context from `LEADER_SID` / `LEADER_WID` / `LEADER_PID` (set by `display-popup -e`):
/// `None` when one is missing or still holds a `#{…}` format (then the popup's own pane is
/// asked instead); else the trimmed ids, the window id read from `LEADER_WID`.
pub open spec fn spec_context_from_env(
    sid: Option<Seq<char>>,
    wid: Option<Seq<char>>,
    pid: Option<Seq<char>>,
) -> Option<Result<ParsedView, ArgvErr>> {
    match (sid, wid, pid) {
        (Some(s), Some(w), Some(p)) => if !has_format(s) && !has_format(w) && !has_format(p) {
            Some(
                match spec_parse_window_id(trim_seq(w)) {
                    Err(e) => Err(e),
                    Ok(id) => if s.len() == 0 || p.len() == 0 {
                        Err((ArgvErrorKind::EnvIdsEmpty, Seq::empty()))
                    } else {
                        Ok((trim_seq(s), id, trim_seq(p), None))
                    },
                },
            )
        } else {
            None
        },
        _ => None,
    }
}

pub open spec fn ctx_result_is(r: Result<LeaderContext, ArgvError>, v: Result<ParsedView, ArgvErr>) -> bool {
    match (r, v) {
        (Ok(c), Ok(x)) => c.session_id@ == x.0 && c.window_id == x.1 && c.pane_id@ == x.2
            && c.client_size == x.3,
        (Err(e), Err(x)) => e.kind == x.0 && e.detail@ == x.1,
        _ => false,
    }
}

pub open spec fn opt_seq(o: Option<&str>) -> Option<Seq<char>> {
    match o {
        Some(s) => Some(s@),
        None => None,
    }
}

/// The context from the `LEADER_*` variables (see [`spec_context_from_env`]).
pub fn context_from_env_vars(sid: Option<&str>, wid: Option<&str>, pid: Option<&str>) -> (r: Option<Result<LeaderContext, ArgvError>>)
    ensures
        match (r, spec_context_from_env(opt_seq(sid), opt_seq(wid), opt_seq(pid))) {
            (None, None) => true,
            (Some(a), Some(b)) => ctx_result_is(a, b),
            _ => false,
        },
{
    let (s, w, p) = match (sid, wid, pid) {
        (Some(s), Some(w), Some(p)) => (s, w, p),
        _ => {
            return None;
        },
    };
    let pat = chars_of("#{");
    let sv = chars_of(s);
    let wv = chars_of(w);
    let pv = chars_of(p);
    if contains_chars(sv.as_slice(), pat.as_slice()) || contains_chars(wv.as_slice(), pat.as_slice())
        || contains_chars(pv.as_slice(), pat.as_slice()) {
        return None;
    }
    let wt = trim_chars(wv.as_slice());
    match parse_window_id(wt.as_slice()) {
        Err(e) => Some(Err(e)),
        Ok(id) => {
            if sv.len() == 0 || pv.len() == 0 {
                let empty: Vec<char> = Vec::new();
                Some(Err(argv_error(ArgvErrorKind::EnvIdsEmpty, empty.as_slice())))
            } else {
                Some(
                    Ok(
                        LeaderContext {
                            session_id: trim_str(s),
                            window_id: id,
                            pane_id: trim_str(p),
                            client_size: None,
                        },
                    ),
                )
            }
        },
    }
}

/// Session id, window id and the window's target from `display-message -p
/// '#{session_id}<tab>#{window_id}'` output (trimmed, split at the first tab).
pub open spec fn spec_ids_from_display(raw: Seq<char>) -> Result<(Seq<char>, u64, Seq<char>), ArgvErr> {
    let (sid, rest) = split_once_seq(trim_seq(raw), '\t');
    let wraw = trim_seq(rest);
    match spec_parse_window_id(wraw) {
        Err(e) => Err(e),
        Ok(id) => if sid.len() == 0 {
            Err((ArgvErrorKind::EmptySessionId, Seq::empty()))
        } else {
            Ok((sid, id, sid + ":"@ + wraw))
        },
    }
}

/// Session id, window id and the window's `-t` target of the popup's pane.
pub fn ids_from_display(raw: &str) -> (r: Result<(String, u64, String), ArgvError>)
    ensures
        match (r, spec_ids_from_display(raw@)) {
            (Ok((a, b, c)), Ok((x, y, z))) => a@ == x && b == y && c@ == z,
            (Err(e), Err(x)) => e.kind == x.0 && e.detail@ == x.1,
            _ => false,
        },
{
    let t = trim_chars(chars_of(raw).as_slice());
    let (sid, rest) = split_once_chars(t.as_slice(), '\t');
    let wraw = trim_chars(rest.as_slice());
    match parse_window_id(wraw.as_slice()) {
        Err(e) => Err(e),
        Ok(id) => {
            if sid.len() == 0 {
                let empty: Vec<char> = Vec::new();
                Err(argv_error(ArgvErrorKind::EmptySessionId, empty.as_slice()))
            } else {
                let colon = chars_of(":");
                let a = crate::text::concat_chars(sid.as_slice(), colon.as_slice());
                let target = crate::text::concat_chars(a.as_slice(), wraw.as_slice());
                Ok((string_of(sid.as_slice()), id, string_of(target.as_slice())))
            }
        },
    }
}

/// The context from the ids of the popup's window and the `display-message -p
/// '#{pane_id}'` output for it (the pane that was active under the popup).
pub fn context_from_display(session_id: String, window_id: u64, target: &str, pane_raw: &str) -> (r: Result<LeaderContext, ArgvError>)
    ensures
        trim_seq(pane_raw@).len() == 0 ==> (r matches Err(e) && e.kind == ArgvErrorKind::NoActivePane
            && e.detail@ == target@),
        trim_seq(pane_raw@).len() > 0 ==> (r matches Ok(c) && c.session_id@ == session_id@
            && c.window_id == window_id && c.pane_id@ == trim_seq(pane_raw@) && c.client_size is None),
{
    let p = trim_str(pane_raw);
    if p.as_str().unicode_len() == 0 {
        return Err(argv_error(ArgvErrorKind::NoActivePane, chars_of(target).as_slice()));
    }
    Ok(LeaderContext { session_id, window_id, pane_id: p, client_size: None })
}

/// At most this many characters of a client notice are shown.
pub const NOTICE_MAX_CHARS: usize = 200;

/// Join words with single spaces.
pub open spec fn join_words(ws: Seq<Seq<char>>) -> Seq<char>
    decreases ws.len(),
{
    if ws.len() == 0 {
        Seq::empty()
    } else if ws.len() == 1 {
        ws[0]
    } else {
        join_words(ws.drop_last()) + " "@ + ws.last()
    }
}

/// `#` doubled, so that `display-message` shows it literally.
pub open spec fn escape_hashes(s: Seq<char>) -> Seq<char>
    decreases s.len(),
{
    if s.len() == 0 {
        s
    } else if s.last() == '#' {
        escape_hashes(s.drop_last()) + "##"@
    } else {
        escape_hashes(s.drop_last()).push(s.last())
    }
}

/// A status-line notice: the message on one line (words joined by single spaces), cut to
/// [`NOTICE_MAX_CHARS`] characters (with `…` when cut), `#` escaped.
pub open spec fn spec_notice(msg: Seq<char>) -> Seq<char> {
    let flat = join_words(words(msg));
    let tail = if flat.len() > NOTICE_MAX_CHARS {
        flat.take(NOTICE_MAX_CHARS as int).push('…')
    } else {
        flat
    };
    escape_hashes(tail)
}

/// The text of a client status-line notice for `msg`.
pub fn notify_message(msg: &str) -> (r: String)
    ensures
        r@ == spec_notice(msg@),
{
    let ws = words_chars(chars_of(msg).as_slice());
    let ghost wv = views(ws@);
    let mut flat: Vec<char> = Vec::new();
    let mut i: usize = 0;
    while i < ws.len()
        invariant
            wv == views(ws@),
            0 <= i <= ws@.len(),
            flat@ == join_words(wv.take(i as int)),
        decreases ws.len() - i,
    {
        assert(wv.take(i + 1).drop_last() =~= wv.take(i as int));
        assert(wv.take(i + 1).last() == ws@[i as int]@);
        if i > 0 {
            flat.push(' ');
        }
        let ghost before = flat@;
        flat = crate::text::concat_chars(flat.as_slice(), ws[i].as_slice());
        proof {
            if i == 0 {
                assert(flat@ =~= wv.take(1)[0]);
            } else {
                reveal_strlit(" ");
                assert(flat@ =~= join_words(wv.take(i as int)) + " "@ + ws@[i as int]@);
            }
        }
        i = i + 1;
    }
    assert(wv.take(ws@.len() as int) =~= wv);
    let tail = if flat.len() > NOTICE_MAX_CHARS {
        let mut t = sub_vec(flat.as_slice(), 0, NOTICE_MAX_CHARS);
        t.push('…');
        assert(t@ =~= flat@.take(NOTICE_MAX_CHARS as int).push('…'));
        t
    } else {
        flat
    };
    let mut out: Vec<char> = Vec::new();
    let mut k: usize = 0;
    while k < tail.len()
        invariant
            0 <= k <= tail@.len(),
            out@ == escape_hashes(tail@.take(k as int)),
        decreases tail.len() - k,
    {
        assert(tail@.take(k + 1).drop_last() =~= tail@.take(k as int));
        if tail[k] == '#' {
            out.push('#');
            out.push('#');
            proof {
                reveal_strlit("##");
            }
            assert(out@ =~= escape_hashes(tail@.take(k as int)) + "##"@);
        } else {
            out.push(tail[k]);
        }
        k = k + 1;
    }
    assert(tail@.take(tail@.len() as int) =~= tail@);
    string_of(out.as_slice())
}

/// Size of the popup's viewport: the client size passed on the command line, else
/// `$COLUMNS` × `$LINES` (both decimal), else the terminal's size, else 80 × 24; each side
/// at least 1.
pub open spec fn spec_viewport(
    client: Option<(u16, u16)>,
    columns: Option<Seq<char>>,
    lines: Option<Seq<char>>,
    term: Option<(u16, u16)>,
) -> (u16, u16) {
    let at_least_1 = |x: u16| if x < 1 { 1u16 } else { x };
    match client {
        Some((w, h)) => (at_least_1(w), at_least_1(h)),
        None => {
            let env = match (columns, lines) {
                (Some(c), Some(l)) => match (parse_unsigned(c, 0xffff), parse_unsigned(l, 0xffff)) {
                    (Some(w), Some(h)) => Some((at_least_1(w as u16), at_least_1(h as u16))),
                    _ => None,
                },
                _ => None,
            };
            match env {
                Some(wh) => wh,
                None => match term {
                    Some(wh) => wh,
                    None => (80, 24),
                },
            }
        },
    }
}

/// Size of the popup's viewport (see [`spec_viewport`]).
pub fn viewport_size(
    client: Option<(u16, u16)>,
    columns: Option<&str>,
    lines: Option<&str>,
    term: Option<(u16, u16)>,
) -> (r: (u16, u16))
    ensures
        r == spec_viewport(client, opt_seq(columns), opt_seq(lines), term),
{
    match client {
        Some((w, h)) => {
            return (if w < 1 { 1 } else { w }, if h < 1 { 1 } else { h });
        },
        None => {},
    }
    match (columns, lines) {
        (Some(c), Some(l)) => {
            match (parse_u16_chars(chars_of(c).as_slice()), parse_u16_chars(chars_of(l).as_slice())) {
                (Some(w), Some(h)) => {
                    return (if w < 1 { 1 } else { w }, if h < 1 { 1 } else { h });
                },
                _ => {},
            }
        },
        _ => {},
    }
    match term {
        Some(wh) => wh,
        None => (80, 24),
    }
}

/// `$TMPDIR` (or `/tmp`) without trailing `/`, then `/tmux-leader-errors.log`.
pub open spec fn spec_log_path(tmpdir: Option<Seq<char>>) -> Seq<char> {
    let d = match tmpdir {
        Some(t) => t,
        None => "/tmp"@,
    };
    crate::pills::trim_end_slashes(d) + "/tmux-leader-errors.log"@
}

/// Path of the error log.
pub fn log_file_path(tmpdir: Option<&str>) -> (r: String)
    ensures
        r@ == spec_log_path(opt_seq(tmpdir)),
{
    let d = match tmpdir {
        Some(t) => chars_of(t),
        None => chars_of("/tmp"),
    };
    let t = crate::pills::trim_end_slashes_chars(d.as_slice());
    join_str(string_of(t.as_slice()).as_str(), "/tmux-leader-errors.log")
}

/// One line of the error log: `[<seconds>] [<context>] <message>` and a newline.
pub fn log_line(ts: u64, context: &str, msg: &str) -> (r: String)
    ensures
        r@ == "["@ + dec_digits(ts as nat) + "] ["@ + context@ + "] "@ + msg@ + "\n"@,
{
    let a = join_str("[", u64_str(ts).as_str());
    let a = join_str(a.as_str(), "] [");
    let a = join_str(a.as_str(), context);
    let a = join_str(a.as_str(), "] ");
    let a = join_str(a.as_str(), msg);
    join_str(a.as_str(), "\n")
}

/// A window target's `@<id>` reads back as `id`: `@` followed by the decimal rendering of
/// a window id parses to that id.
pub proof fn lemma_window_id_roundtrip(id: u64)
    ensures
        spec_parse_window_id("@"@ + dec_digits(id as nat)) == Ok::<u64, ArgvErr>(id),
{
    let d = dec_digits(id as nat);
    crate::text::lemma_dec_digits_value(id as nat);
    reveal_strlit("@");
    let s = "@"@ + d;
    assert(s[0] == '@');
    assert(s.drop_first() =~= d);
    assert(crate::text::is_digit(d[0]));
    assert(strip_leading(d, '@') == d);
    assert(strip_leading(s, '@') == d);
    assert(crate::text::unsigned_digits(d) == d);
}

/// The window target of a window names it by its id: after `$session:` comes `@<id>`,
/// which reads back as `id`.
pub proof fn lemma_window_target_names_window(session_id: Seq<char>, id: u64)
    ensures
        spec_window_target(session_id, id) == session_id + ":"@ + ("@"@ + dec_digits(id as nat)),
        spec_parse_window_id("@"@ + dec_digits(id as nat)) == Ok::<u64, ArgvErr>(id),
{
    reveal_strlit(":@");
    reveal_strlit(":");
    reveal_strlit("@");
    assert(spec_window_target(session_id, id) =~= session_id + ":"@ + ("@"@ + dec_digits(id as nat)));
    lemma_window_id_roundtrip(id);
}

/// Text that starts and ends with a non-whitespace character is its own trim.
proof fn lemma_trim_of_solid(a: Seq<char>)
    requires
        a.len() > 0,
        !crate::text::is_ws(a[0]),
        !crate::text::is_ws(a.last()),
    ensures
        trim_seq(a) == a,
{
    assert(crate::text::trim_start_seq(a) == a);
    assert(crate::text::trim_end_seq(a) == a);
}

/// The decimal rendering of a number is free of a given non-digit and of whitespace at
/// its ends, and parses back to the number.
proof fn lemma_digits_field(n: u64)
    ensures
        !dec_digits(n as nat).contains(field_sep()),
        trim_seq(dec_digits(n as nat)) == dec_digits(n as nat),
        index_or_zero(dec_digits(n as nat)) == n,
{
    let d = dec_digits(n as nat);
    crate::text::lemma_dec_digits_value(n as nat);
    if d.contains(field_sep()) {
        let j = choose|j: int| 0 <= j < d.len() && d[j] == field_sep();
        assert(crate::text::is_digit(d[j]));
    }
    assert(crate::text::is_digit(d[0]));
    assert(crate::text::is_digit(d[d.len() - 1]));
    lemma_trim_of_solid(d);
    assert(crate::text::unsigned_digits(d) == d);
}

/// A `list-windows` line `@<id>␟<index>␟<name>␟<active>` (the last two fields free of the
/// separator) reads as window `id` with that index, the name field exactly as written (the
/// third field, `#{window_name}`), and active exactly when the last field is `1`.
pub proof fn lemma_window_line_fields(id: u64, index: u64, name: Seq<char>, active: Seq<char>)
    requires
        !name.contains(field_sep()),
        !active.contains(field_sep()),
    ensures
        spec_window_line(
            "@"@ + dec_digits(id as nat) + seq![field_sep()] + dec_digits(index as nat) + seq![field_sep()]
                + name + seq![field_sep()] + active,
        ) == Some(Ok::<(u64, u64, Seq<char>, bool), ArgvErr>((id, index, name, active == "1"@))),
{
    let sep = field_sep();
    let a = "@"@ + dec_digits(id as nat);
    let b = dec_digits(index as nat);
    lemma_digits_field(id);
    lemma_digits_field(index);
    lemma_window_id_roundtrip(id);
    reveal_strlit("@");
    assert(!a.contains(sep)) by {
        if a.contains(sep) {
            let j = choose|j: int| 0 <= j < a.len() && a[j] == sep;
            assert(j >= 1);
            assert(dec_digits(id as nat)[j - 1] == sep);
        }
    }
    crate::text::lemma_dec_digits_value(id as nat);
    assert(crate::text::is_digit(a.last())) by {
        assert(a.last() == dec_digits(id as nat)[dec_digits(id as nat).len() - 1]);
    }
    lemma_trim_of_solid(a);
    crate::text::lemma_split_plain(a, sep);
    crate::text::lemma_split_sep_then_plain(a, b, sep);
    crate::text::lemma_split_sep_then_plain(a + seq![sep] + b, name, sep);
    crate::text::lemma_split_sep_then_plain(a + seq![sep] + b + seq![sep] + name, active, sep);
    let line = a + seq![sep] + b + seq![sep] + name + seq![sep] + active;
    assert(line =~= "@"@ + dec_digits(id as nat) + seq![sep] + b + seq![sep] + name + seq![sep] + active);
    assert(split_on(line, sep) =~= seq![a, b, name, active]);
}

/// A `list-panes` line `<pane id>␟<index>␟<command>␟<active>` (fields free of the
/// separator) is kept exactly when its trimmed pane id starts with `%`; then it reads as
/// that id, the index, the trimmed command (the third field) and active exactly when the
/// trimmed last field is `1`.
pub proof fn lemma_pane_line_fields(pane_id: Seq<char>, index: u64, command: Seq<char>, active: Seq<char>)
    requires
        !pane_id.contains(field_sep()),
        !command.contains(field_sep()),
        !active.contains(field_sep()),
    ensures
        ({
            let line = pane_id + seq![field_sep()] + dec_digits(index as nat) + seq![field_sep()] + command
                + seq![field_sep()] + active;
            let id = trim_seq(pane_id);
            spec_pane_line(line) == if id.len() > 0 && id[0] == '%' {
                Some((id, index, trim_seq(command), trim_seq(active) == "1"@))
            } else {
                None
            }
        }),
{
    let sep = field_sep();
    let b = dec_digits(index as nat);
    lemma_digits_field(index);
    crate::text::lemma_split_plain(pane_id, sep);
    crate::text::lemma_split_sep_then_plain(pane_id, b, sep);
    crate::text::lemma_split_sep_then_plain(pane_id + seq![sep] + b, command, sep);
    crate::text::lemma_split_sep_then_plain(pane_id + seq![sep] + b + seq![sep] + command, active, sep);
    let line = pane_id + seq![sep] + b + seq![sep] + command + seq![sep] + active;
    assert(split_on(line, sep) =~= seq![pane_id, b, command, active]);
}

/// A `list-sessions` line `<name>␟<active>` (the name free of the separator) reads as the
/// session `name`, exactly as written, active exactly when the trimmed rest is `1`; a line
/// with an empty name is skipped.
pub proof fn lemma_session_line_fields(name: Seq<char>, active: Seq<char>)
    requires
        !name.contains(field_sep()),
    ensures
        spec_session_line(name + seq![field_sep()] + active) == if name.len() > 0 {
            Some((name, trim_seq(active) == "1"@))
        } else {
            None::<(Seq<char>, bool)>
        },
{
    let sep = field_sep();
    let line = name + seq![sep] + active;
    let a = name + seq![sep];
    assert(a.drop_last() =~= name);
    crate::text::lemma_split_plain(name, sep);
    assert(split_on(a, sep) == split_on(name, sep).push(Seq::<char>::empty()));
    crate::text::lemma_split_on_nonempty(line, sep);
    lemma_split_first_prefix(a, active, sep);
    assert(split_on(line, sep)[0] == name);
    assert(split_on(line, sep).len() >= 2);
    assert(line.skip(name.len() as int + 1) =~= active);
}

/// Appending text keeps the first pieces of a split that already had two or more.
proof fn lemma_split_first_prefix(a: Seq<char>, t: Seq<char>, sep: char)
    requires
        split_on(a, sep).len() >= 2,
    ensures
        split_on(a + t, sep).len() >= split_on(a, sep).len(),
        split_on(a + t, sep)[0] == split_on(a, sep)[0],
    decreases t.len(),
{
    if t.len() > 0 {
        let t0 = t.drop_last();
        lemma_split_first_prefix(a, t0, sep);
        assert((a + t).drop_last() =~= a + t0);
        crate::text::lemma_split_on_nonempty(a + t0, sep);
    } else {
        assert(a + t =~= a);
    }
}

/// A decimal rendering reads back as its number under any bound it respects, and is its
/// own trim.
proof fn lemma_parse_dec(n: nat, max: nat)
    requires
        n <= max,
    ensures
        parse_unsigned(dec_digits(n), max) == Some(n),
        trim_seq(dec_digits(n)) == dec_digits(n),
        !has_placeholder(dec_digits(n)),
{
    let d = dec_digits(n);
    crate::text::lemma_dec_digits_value(n);
    assert(crate::text::is_digit(d[0]));
    assert(crate::text::is_digit(d[d.len() - 1]));
    lemma_trim_of_solid(d);
    assert(crate::text::unsigned_digits(d) == d);
    reveal_strlit("#{");
    if has_placeholder(d) {
        let i = choose|i: int| 0 <= i && i + "#{"@.len() <= d.len() && #[trigger] d.subrange(i, i + "#{"@.len()) == "#{"@;
        assert(d.subrange(i, i + 2)[0] == d[i]);
        assert(crate::text::is_digit(d[i]));
    }
}

/// `@<id>` is its own trim and holds no `#{`.
proof fn lemma_window_token(id: u64)
    ensures
        trim_seq("@"@ + dec_digits(id as nat)) == "@"@ + dec_digits(id as nat),
        !has_placeholder("@"@ + dec_digits(id as nat)),
        spec_parse_window_id("@"@ + dec_digits(id as nat)) == Ok::<u64, ArgvErr>(id),
{
    let d = dec_digits(id as nat);
    let a = "@"@ + d;
    reveal_strlit("@");
    reveal_strlit("#{");
    crate::text::lemma_dec_digits_value(id as nat);
    assert(a.last() == d[d.len() - 1]);
    assert(crate::text::is_digit(d[d.len() - 1]));
    lemma_trim_of_solid(a);
    lemma_window_id_roundtrip(id);
    if has_placeholder(a) {
        let i = choose|i: int| 0 <= i && i + "#{"@.len() <= a.len() && #[trigger] a.subrange(i, i + "#{"@.len()) == "#{"@;
        assert(a.subrange(i, i + 2)[0] == a[i]);
        if i > 0 {
            assert(a[i] == d[i - 1]);
            assert(crate::text::is_digit(d[i - 1]));
        }
    }
}

/// Three separate arguments `session @window pane` read as that session and pane
/// (trimmed) and that window id, with no client size, whenever session and pane hold no
/// `#{` and are not blank.
pub proof fn lemma_argv_three_tokens(session: Seq<char>, window: u64, pane: Seq<char>)
    requires
        !has_placeholder(session),
        !has_placeholder(pane),
        trim_seq(session).len() > 0,
        trim_seq(pane).len() > 0,
    ensures
        spec_parse_argv(seq![session, "@"@ + dec_digits(window as nat), pane])
            == Ok::<ParsedView, ArgvErr>((trim_seq(session), window, trim_seq(pane), None)),
{
    let argv = seq![session, "@"@ + dec_digits(window as nat), pane];
    lemma_window_token(window);
    assert(!exists|i: int| 0 <= i < argv.len() && has_placeholder(#[trigger] argv[i])) by {
        assert forall|i: int| 0 <= i < argv.len() implies !has_placeholder(#[trigger] argv[i]) by {
            if i == 0 {
                assert(argv[i] == session);
            } else if i == 1 {
                assert(argv[i] == "@"@ + dec_digits(window as nat));
            } else {
                assert(argv[i] == pane);
            }
        }
    }
}

/// Five separate arguments `session @window pane width height` (the session not looking
/// like the leader's path) read as that session, window and pane with the client size
/// `width` × `height`, whenever both are at least 1.
pub proof fn lemma_argv_five_tokens(session: Seq<char>, window: u64, pane: Seq<char>, width: u16, height: u16)
    requires
        !has_placeholder(session),
        !has_placeholder(pane),
        trim_seq(session).len() > 0,
        trim_seq(pane).len() > 0,
        !spec_looks_like_binary_path(session),
        width >= 1,
        height >= 1,
    ensures
        spec_parse_argv(
            seq![
                session,
                "@"@ + dec_digits(window as nat),
                pane,
                dec_digits(width as nat),
                dec_digits(height as nat),
            ],
        ) == Ok::<ParsedView, ArgvErr>((trim_seq(session), window, trim_seq(pane), Some((width, height)))),
{
    let argv = seq![
        session,
        "@"@ + dec_digits(window as nat),
        pane,
        dec_digits(width as nat),
        dec_digits(height as nat),
    ];
    lemma_window_token(window);
    lemma_parse_dec(width as nat, 0xffff);
    lemma_parse_dec(height as nat, 0xffff);
    assert(!exists|i: int| 0 <= i < argv.len() && has_placeholder(#[trigger] argv[i])) by {
        assert forall|i: int| 0 <= i < argv.len() implies !has_placeholder(#[trigger] argv[i]) by {
            if i == 0 {
                assert(argv[i] == session);
            } else if i == 1 {
                assert(argv[i] == "@"@ + dec_digits(window as nat));
            } else if i == 2 {
                assert(argv[i] == pane);
            } else if i == 3 {
                assert(argv[i] == dec_digits(width as nat));
            } else {
                assert(argv[i] == dec_digits(height as nat));
            }
        }
    }
    assert(spec_parse_wh(argv[3], argv[4]) == Ok::<(u16, u16), ArgvErr>((width, height)));
}

/// Any argument holding a literal `#{` (a format tmux did not expand) refuses the whole
/// argument list.
pub proof fn lemma_argv_placeholder_refused(argv: Seq<Seq<char>>, i: int)
    requires
        0 <= i < argv.len(),
        has_placeholder(argv[i]),
    ensures
        spec_parse_argv(argv) matches Err(e) && e.0 == ArgvErrorKind::LiteralPlaceholders,
{
}

} // verus!
