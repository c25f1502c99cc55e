//! The one-line text prompt (rename / new-session), edited through `tui_input`.
use vstd::prelude::*;
use crate::text::chars_of;
use tui_input::InputRequest as R;

verus! {

/// An edit of the prompt line (one for one with `tui_input::InputRequest`).
#[derive(Debug, Clone, Copy, PartialEq, Eq)]
pub enum EditRequest {
    SetCursor(usize),
    InsertChar(char),
    GoToPrevChar,
    GoToNextChar,
    GoToPrevWord,
    GoToNextWord,
    GoToStart,
    GoToEnd,
    DeletePrevChar,
    DeleteNextChar,
    DeletePrevWord,
    DeleteNextWord,
    DeleteLine,
    DeleteTillEnd,
}

/// The prompt line: its text and the cursor, in characters.
#[derive(Debug)]
pub struct LineInput {
    pub value: String,
    pub cursor: usize,
}

/// What `tui_input::Input::handle` leaves (value, cursor) after `req`, starting from an
/// input with `value` whose cursor was set to `cursor` (clamped to the length).
pub uninterp spec fn input_after(value: Seq<char>, cursor: usize, req: EditRequest) -> (Seq<char>, usize);

/// The effect of the edits that do not look at word boundaries; `None` for word moves and
/// word deletions.
pub open spec fn simple_edit(v: Seq<char>, cursor: usize, req: EditRequest) -> Option<(Seq<char>, int)> {
    let len = v.len() as int;
    let c: int = if cursor < len {
        cursor as int
    } else {
        len
    };
    match req {
        EditRequest::SetCursor(p) => Some((v, if p < len { p as int } else { len })),
        EditRequest::InsertChar(ch) => Some((v.take(c).push(ch) + v.skip(c), c + 1)),
        EditRequest::GoToPrevChar => Some((v, if c == 0 { 0 } else { c - 1 })),
        EditRequest::GoToNextChar => Some((v, if c == len { c } else { c + 1 })),
        EditRequest::GoToStart => Some((v, 0)),
        EditRequest::GoToEnd => Some((v, len)),
        EditRequest::DeletePrevChar => if c == 0 {
            Some((v, 0))
        } else {
            Some((v.remove(c - 1), c - 1))
        },
        EditRequest::DeleteNextChar => if c == len {
            Some((v, c))
        } else {
            Some((v.remove(c), c))
        },
        EditRequest::DeleteLine => if len == 0 {
            Some((v, c))
        } else {
            Some((Seq::<char>::empty(), 0))
        },
        EditRequest::DeleteTillEnd => Some((v.take(c), c)),
        _ => None,
    }
}

/// `tui_input::InputRequest`, carried through opaque.
#[verifier::external_type_specification]
#[verifier::external_body]
pub struct ExInputRequest(tui_input::InputRequest);

/// The `tui_input` request for an edit.
#[verifier::external_body]
fn to_input_request(r: EditRequest) -> R {
    match r {
        EditRequest::SetCursor(p) => R::SetCursor(p), EditRequest::InsertChar(c) => R::InsertChar(c),
        EditRequest::GoToPrevChar => R::GoToPrevChar, EditRequest::GoToNextChar => R::GoToNextChar,
        EditRequest::GoToPrevWord => R::GoToPrevWord, EditRequest::GoToNextWord => R::GoToNextWord,
        EditRequest::GoToStart => R::GoToStart, EditRequest::GoToEnd => R::GoToEnd,
        EditRequest::DeletePrevChar => R::DeletePrevChar, EditRequest::DeleteNextChar => R::DeleteNextChar,
        EditRequest::DeletePrevWord => R::DeletePrevWord, EditRequest::DeleteNextWord => R::DeleteNextWord,
        EditRequest::DeleteLine => R::DeleteLine, EditRequest::DeleteTillEnd => R::DeleteTillEnd,
    }
}

/// `tui_input::Input::new(value).with_cursor(cursor)`, then `handle(req)`; the resulting
/// value and cursor. The word-wise requests (previous / next word, delete word) are only
/// named, not described: they depend on `char::is_alphanumeric`.
#[verifier::external_body]
fn tui_input_handle(value: &String, cursor: usize, req: EditRequest) -> (r: (String, usize))
    ensures
        (r.0@, r.1) == input_after(value@, cursor, req),
        simple_edit(value@, cursor, req) matches Some(x) ==> r.0@ == x.0 && r.1 == x.1,
{
    let mut input = tui_input::Input::new(value.clone()).with_cursor(cursor);
    input.handle(to_input_request(req));
    (input.value().to_string(), input.cursor())
}

impl LineInput {
    /// A prompt line holding `value` with the cursor at its end (`Input::new`).
    pub fn new(value: String) -> (r: LineInput)
        ensures
            r.value@ == value@,
            r.cursor == value@.len(),
    {
        let n = chars_of(value.as_str()).len();
        LineInput { value, cursor: n }
    }

    /// Apply one edit.
    pub fn apply(&mut self, req: EditRequest)
        ensures
            (final(self).value@, final(self).cursor) == input_after(old(self).value@, old(self).cursor, req),
            simple_edit(old(self).value@, old(self).cursor, req) matches Some(x) ==> final(self).value@
                == x.0 && final(self).cursor == x.1,
    {
        let (v, c) = tui_input_handle(&self.value, self.cursor, req);
        self.value = v;
        self.cursor = c;
    }
}

} // verus!
