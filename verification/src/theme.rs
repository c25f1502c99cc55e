//! The colour theme of the popups (`leader_theme.yml`): each colour is `#RRGGBB`; the
//! background may also be the terminal's own.
use vstd::prelude::*;
use crate::text::{chars_of, trim_chars, trim_seq};

verus! {

/// A theme colour.
#[derive(Debug, Clone, Copy, PartialEq, Eq, Structural)]
pub enum ThemeColor {
    Rgb(u8, u8, u8),
    /// The terminal's default (see-through in many setups).
    Reset,
}

/// Why a theme could not be read: the entry whose value is not a colour.
#[derive(Debug, Clone, Copy, PartialEq, Eq, Structural)]
pub enum ThemeField {
    Purple,
    Orange,
    Cyan,
    Green,
    Yellow,
    Pink,
    BrightCyan,
    Fg,
    Comment,
    CommentBright,
    Bg,
    Selection,
    PillFg,
}

pub open spec fn hex_val(c: char) -> Option<nat> {
    if '0' <= c && c <= '9' {
        Some((c as int - '0' as int) as nat)
    } else if 'a' <= c && c <= 'f' {
        Some((c as int - 'a' as int + 10) as nat)
    } else if 'A' <= c && c <= 'F' {
        Some((c as int - 'A' as int + 10) as nat)
    } else {
        None
    }
}

/// `s` without its leading `#` characters.
pub open spec fn strip_hashes(s: Seq<char>) -> Seq<char>
    decreases s.len(),
{
    if s.len() > 0 && s[0] == '#' {
        strip_hashes(s.drop_first())
    } else {
        s
    }
}

/// The channel written by two hex digits.
pub open spec fn channel(a: char, b: char) -> Option<u8> {
    match (hex_val(a), hex_val(b)) {
        (Some(x), Some(y)) => Some((x * 16 + y) as u8),
        _ => None,
    }
}

/// `#RRGGBB` (surrounding whitespace and any number of leading `#` allowed).
pub open spec fn spec_parse_hex(raw: Seq<char>) -> Option<ThemeColor> {
    let s = strip_hashes(trim_seq(raw));
    if s.len() != 6 {
        None
    } else {
        match (channel(s[0], s[1]), channel(s[2], s[3]), channel(s[4], s[5])) {
            (Some(r), Some(g), Some(b)) => Some(ThemeColor::Rgb(r, g, b)),
            _ => None,
        }
    }
}

fn hex_digit(c: char) -> (r: Option<u8>)
    ensures
        match r {
            Some(v) => hex_val(c) == Some(v as nat) && v < 16,
            None => hex_val(c) is None,
        },
{
    if '0' <= c && c <= '9' {
        Some((c as u32 - '0' as u32) as u8)
    } else if 'a' <= c && c <= 'f' {
        Some((c as u32 - 'a' as u32 + 10) as u8)
    } else if 'A' <= c && c <= 'F' {
        Some((c as u32 - 'A' as u32 + 10) as u8)
    } else {
        None
    }
}

fn channel_of(a: char, b: char) -> (r: Option<u8>)
    ensures
        r == channel(a, b),
{
    match (hex_digit(a), hex_digit(b)) {
        (Some(x), Some(y)) => Some(x * 16 + y),
        _ => None,
    }
}

/// A `#RRGGBB` colour.
pub fn parse_hex(raw: &str) -> (r: Option<ThemeColor>)
    ensures
        r == spec_parse_hex(raw@),
{
    let t = trim_chars(chars_of(raw).as_slice());
    let mut k: usize = 0;
    assert(t@.skip(0) =~= t@);
    while k < t.len() && t[k] == '#'
        invariant
            0 <= k <= t@.len(),
            strip_hashes(t@) == strip_hashes(t@.skip(k as int)),
        decreases t.len() - k,
    {
        assert(t@.skip(k as int).drop_first() =~= t@.skip(k + 1));
        k = k + 1;
    }
    assert(t@.skip(0) =~= t@);
    let s = crate::text::sub_vec(t.as_slice(), k, t.len());
    assert(s@ =~= t@.skip(k as int));
    if s.len() != 6 {
        return None;
    }
    match (channel_of(s[0], s[1]), channel_of(s[2], s[3]), channel_of(s[4], s[5])) {
        (Some(r), Some(g), Some(b)) => Some(ThemeColor::Rgb(r, g, b)),
        _ => None,
    }
}

pub open spec fn lower_ascii(s: Seq<char>) -> Seq<char> {
    s.map_values(|c: char| if 'A' <= c && c <= 'Z' { ((c as int) + 32) as char } else { c })
}

/// The background: `transparent`, `reset`, `default` or `none` (any case) for the
/// terminal's own, else `#RRGGBB`.
pub open spec fn spec_parse_bg(raw: Seq<char>) -> Option<ThemeColor> {
    let l = lower_ascii(trim_seq(raw));
    if l == "transparent"@ || l == "reset"@ || l == "default"@ || l == "none"@ {
        Some(ThemeColor::Reset)
    } else {
        spec_parse_hex(trim_seq(raw))
    }
}

fn is_word(v: &Vec<char>, w: &str) -> (b: bool)
    ensures
        b == (v@ == w@),
{
    crate::text::chars_eq(v.as_slice(), chars_of(w).as_slice())
}

/// The popup background colour.
pub fn parse_bg(raw: &str) -> (r: Option<ThemeColor>)
    ensures
        r == spec_parse_bg(raw@),
{
    let t = trim_chars(chars_of(raw).as_slice());
    let mut l: Vec<char> = Vec::new();
    let mut i: usize = 0;
    while i < t.len()
        invariant
            0 <= i <= t@.len(),
            l@ == lower_ascii(t@.take(i as int)),
        decreases t.len() - i,
    {
        let c = t[i];
        let d = if 'A' <= c && c <= 'Z' {
            ((c as u32) + 32) as u8 as char
        } else {
            c
        };
        assert(d == (if 'A' <= c && c <= 'Z' { ((c as int) + 32) as char } else { c }));
        l.push(d);
        i = i + 1;
        assert(l@ =~= lower_ascii(t@.take(i as int)));
    }
    assert(t@.take(t@.len() as int) =~= t@);
    if is_word(&l, "transparent") || is_word(&l, "reset") || is_word(&l, "default") || is_word(&l, "none") {
        return Some(ThemeColor::Reset);
    }
    let ts = crate::text::string_of(t.as_slice());
    proof {
        crate::text::lemma_trim_idempotent(raw@);
    }
    parse_hex(ts.as_str())
}

/// The entries of `leader_theme.yml`, as written.
#[derive(Debug)]
pub struct ThemeFile {
    pub purple: String,
    pub orange: String,
    pub cyan: String,
    pub green: String,
    pub yellow: String,
    pub pink: String,
    pub bright_cyan: String,
    pub fg: String,
    pub comment: String,
    pub comment_bright: String,
    pub bg: String,
    pub selection: String,
    /// Dark text on bright pill bodies (`#282a36` when the file has none).
    pub pill_fg: String,
}

/// The colours the popups are drawn with.
#[derive(Debug, Clone, Copy, PartialEq, Eq, Structural)]
pub struct Palette {
    pub mauve: ThemeColor,
    pub orange: ThemeColor,
    pub teal: ThemeColor,
    pub green: ThemeColor,
    pub yellow: ThemeColor,
    pub pink: ThemeColor,
    pub fg: ThemeColor,
    pub comment: ThemeColor,
    pub comment_bright: ThemeColor,
    pub dracula_bg: ThemeColor,
    pub pill_fg: ThemeColor,
    pub pill_bg: ThemeColor,
    pub kube_pill_bg: ThemeColor,
}

/// The palette of a theme file: every entry must be a colour; the first one (in the order
/// bright_cyan, purple, orange, cyan, green, yellow, pink, fg, comment, comment_bright, bg,
/// pill_fg, selection) that is not is the error.
pub open spec fn spec_palette(e: ThemeFile) -> Result<Palette, ThemeField> {
    if spec_parse_hex(e.bright_cyan@) is None {
        Err(ThemeField::BrightCyan)
    } else if spec_parse_hex(e.purple@) is None {
        Err(ThemeField::Purple)
    } else if spec_parse_hex(e.orange@) is None {
        Err(ThemeField::Orange)
    } else if spec_parse_hex(e.cyan@) is None {
        Err(ThemeField::Cyan)
    } else if spec_parse_hex(e.green@) is None {
        Err(ThemeField::Green)
    } else if spec_parse_hex(e.yellow@) is None {
        Err(ThemeField::Yellow)
    } else if spec_parse_hex(e.pink@) is None {
        Err(ThemeField::Pink)
    } else if spec_parse_hex(e.fg@) is None {
        Err(ThemeField::Fg)
    } else if spec_parse_hex(e.comment@) is None {
        Err(ThemeField::Comment)
    } else if spec_parse_hex(e.comment_bright@) is None {
        Err(ThemeField::CommentBright)
    } else if spec_parse_bg(e.bg@) is None {
        Err(ThemeField::Bg)
    } else if spec_parse_hex(e.pill_fg@) is None {
        Err(ThemeField::PillFg)
    } else if spec_parse_hex(e.selection@) is None {
        Err(ThemeField::Selection)
    } else {
        Ok(
            Palette {
                mauve: spec_parse_hex(e.purple@)->Some_0,
                orange: spec_parse_hex(e.orange@)->Some_0,
                teal: spec_parse_hex(e.cyan@)->Some_0,
                green: spec_parse_hex(e.green@)->Some_0,
                yellow: spec_parse_hex(e.yellow@)->Some_0,
                pink: spec_parse_hex(e.pink@)->Some_0,
                fg: spec_parse_hex(e.fg@)->Some_0,
                comment: spec_parse_hex(e.comment@)->Some_0,
                comment_bright: spec_parse_hex(e.comment_bright@)->Some_0,
                dracula_bg: spec_parse_bg(e.bg@)->Some_0,
                pill_fg: spec_parse_hex(e.pill_fg@)->Some_0,
                pill_bg: spec_parse_hex(e.selection@)->Some_0,
                kube_pill_bg: spec_parse_hex(e.bright_cyan@)->Some_0,
            },
        )
    }
}

/// The palette of a theme file.
pub fn palette_from_entry(e: &ThemeFile) -> (r: Result<Palette, ThemeField>)
    ensures
        r == spec_palette(*e),
{
    let kube = match parse_hex(e.bright_cyan.as_str()) {
        Some(c) => c,
        None => {
            return Err(ThemeField::BrightCyan);
        },
    };
    let mauve = match parse_hex(e.purple.as_str()) {
        Some(c) => c,
        None => {
            return Err(ThemeField::Purple);
        },
    };
    let orange = match parse_hex(e.orange.as_str()) {
        Some(c) => c,
        None => {
            return Err(ThemeField::Orange);
        },
    };
    let teal = match parse_hex(e.cyan.as_str()) {
        Some(c) => c,
        None => {
            return Err(ThemeField::Cyan);
        },
    };
    let green = match parse_hex(e.green.as_str()) {
        Some(c) => c,
        None => {
            return Err(ThemeField::Green);
        },
    };
    let yellow = match parse_hex(e.yellow.as_str()) {
        Some(c) => c,
        None => {
            return Err(ThemeField::Yellow);
        },
    };
    let pink = match parse_hex(e.pink.as_str()) {
        Some(c) => c,
        None => {
            return Err(ThemeField::Pink);
        },
    };
    let fg = match parse_hex(e.fg.as_str()) {
        Some(c) => c,
        None => {
            return Err(ThemeField::Fg);
        },
    };
    let comment = match parse_hex(e.comment.as_str()) {
        Some(c) => c,
        None => {
            return Err(ThemeField::Comment);
        },
    };
    let comment_bright = match parse_hex(e.comment_bright.as_str()) {
        Some(c) => c,
        None => {
            return Err(ThemeField::CommentBright);
        },
    };
    let bg = match parse_bg(e.bg.as_str()) {
        Some(c) => c,
        None => {
            return Err(ThemeField::Bg);
        },
    };
    let pill_fg = match parse_hex(e.pill_fg.as_str()) {
        Some(c) => c,
        None => {
            return Err(ThemeField::PillFg);
        },
    };
    let pill_bg = match parse_hex(e.selection.as_str()) {
        Some(c) => c,
        None => {
            return Err(ThemeField::Selection);
        },
    };
    Ok(
        Palette {
            mauve,
            orange,
            teal,
            green,
            yellow,
            pink,
            fg,
            comment,
            comment_bright,
            dracula_bg: bg,
            pill_fg,
            pill_bg,
            kube_pill_bg: kube,
        },
    )
}

/// The palette is read field by field: it exists exactly when every entry is a colour,
/// and then each colour is the one its own entry names (`pill_fg` from `pill_fg`, the pill
/// fill from `selection`, the kube pill from `bright_cyan`, the background from `bg`, and
/// so on).
pub proof fn lemma_palette_fields(e: ThemeFile)
    ensures
        spec_palette(e) is Ok <==> (spec_parse_hex(e.purple@) is Some && spec_parse_hex(e.orange@) is Some && spec_parse_hex(e.cyan@) is Some && spec_parse_hex(e.green@) is Some && spec_parse_hex(e.yellow@) is Some && spec_parse_hex(e.pink@) is Some && spec_parse_hex(e.fg@) is Some && spec_parse_hex(e.comment@) is Some && spec_parse_hex(e.comment_bright@) is Some && spec_parse_hex(e.pill_fg@) is Some && spec_parse_hex(e.selection@) is Some && spec_parse_hex(e.bright_cyan@) is Some && spec_parse_bg(e.bg@) is Some),
        spec_palette(e) is Ok ==> Some(spec_palette(e)->Ok_0.mauve) == spec_parse_hex(e.purple@),
        spec_palette(e) is Ok ==> Some(spec_palette(e)->Ok_0.orange) == spec_parse_hex(e.orange@),
        spec_palette(e) is Ok ==> Some(spec_palette(e)->Ok_0.teal) == spec_parse_hex(e.cyan@),
        spec_palette(e) is Ok ==> Some(spec_palette(e)->Ok_0.green) == spec_parse_hex(e.green@),
        spec_palette(e) is Ok ==> Some(spec_palette(e)->Ok_0.yellow) == spec_parse_hex(e.yellow@),
        spec_palette(e) is Ok ==> Some(spec_palette(e)->Ok_0.pink) == spec_parse_hex(e.pink@),
        spec_palette(e) is Ok ==> Some(spec_palette(e)->Ok_0.fg) == spec_parse_hex(e.fg@),
        spec_palette(e) is Ok ==> Some(spec_palette(e)->Ok_0.comment) == spec_parse_hex(e.comment@),
        spec_palette(e) is Ok ==> Some(spec_palette(e)->Ok_0.comment_bright) == spec_parse_hex(e.comment_bright@),
        spec_palette(e) is Ok ==> Some(spec_palette(e)->Ok_0.pill_fg) == spec_parse_hex(e.pill_fg@),
        spec_palette(e) is Ok ==> Some(spec_palette(e)->Ok_0.pill_bg) == spec_parse_hex(e.selection@),
        spec_palette(e) is Ok ==> Some(spec_palette(e)->Ok_0.kube_pill_bg) == spec_parse_hex(e.bright_cyan@),
        spec_palette(e) is Ok ==> Some(spec_palette(e)->Ok_0.dracula_bg) == spec_parse_bg(e.bg@),
{
}

/// The lowercase hex digit of `v` (below 16).
pub open spec fn hex_char(v: nat) -> char {
    if v < 10 {
        (v + 48) as char
    } else {
        (v + 87) as char
    }
}

/// `#rrggbb` written in lowercase hex.
pub open spec fn hex_text(r: u8, g: u8, b: u8) -> Seq<char> {
    seq![
        '#',
        hex_char((r / 16) as nat),
        hex_char((r % 16) as nat),
        hex_char((g / 16) as nat),
        hex_char((g % 16) as nat),
        hex_char((b / 16) as nat),
        hex_char((b % 16) as nat),
    ]
}

proof fn lemma_channel_of(x: u8)
    ensures
        channel(hex_char((x / 16) as nat), hex_char((x % 16) as nat)) == Some(x),
        hex_val(hex_char((x / 16) as nat)) is Some,
        hex_char((x % 16) as nat) != '#',
        !crate::text::is_ws(hex_char((x % 16) as nat)),
        hex_char((x / 16) as nat) != '#',
{
    let hi = (x / 16) as nat;
    let lo = (x % 16) as nat;
    assert(hi < 16 && lo < 16);
    assert(hex_val(hex_char(hi)) == Some(hi));
    assert(hex_val(hex_char(lo)) == Some(lo));
    assert(hi * 16 + lo == x) by (nonlinear_arith)
        requires
            hi == x / 16,
            lo == x % 16,
    ;
}

/// A colour written as `#rrggbb` reads back as that colour: the first two digits are red,
/// the next two green, the last two blue.
pub proof fn lemma_parse_hex_roundtrip(r: u8, g: u8, b: u8)
    ensures
        spec_parse_hex(hex_text(r, g, b)) == Some(ThemeColor::Rgb(r, g, b)),
{
    lemma_channel_of(r);
    lemma_channel_of(g);
    lemma_channel_of(b);
    let t = hex_text(r, g, b);
    assert(crate::text::trim_start_seq(t) == t);
    assert(crate::text::trim_end_seq(t) == t);
    let s = t.drop_first();
    assert(strip_hashes(s) == s);
    assert(strip_hashes(t) == s);
}

} // verus!
