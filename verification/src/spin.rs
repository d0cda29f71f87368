//! Interaction state of a scrub-spin numeric field: a stepper button held
//! down, a press on the value that may become a scrub or a click, and the
//! type-in buffer with its commit and cancel.
use vstd::prelude::*;
use crate::edit::{Edit, EditAction, EditKey, key_effect, printable, typed};
use crate::expr::{parse_input, Expr};

verus! {

/// A stepper button.
#[derive(Debug, Clone, Copy, PartialEq, Eq, Structural)]
pub enum StepSide {
    Minus,
    Plus,
}

/// The part of the field a press lands on.
#[derive(Debug, Clone, Copy, PartialEq, Eq, Structural)]
pub enum Region {
    Minus,
    Center,
    Plus,
}

/// What a press asks the field to do.
#[derive(Debug)]
pub enum PressOutcome {
    /// Outside the field, with nothing being typed.
    Nothing,
    /// Outside the field while typing: the buffer was committed with this
    /// parsed value (emit it if any, then report the release).
    Commit(Option<Expr>),
    /// On a stepper: commit the buffer first if one was open (the inner
    /// option), then step once toward `side` and start holding.
    Step { committed: Option<Option<Expr>>, side: StepSide },
    /// On the value with nothing being typed: a tentative drag begins.
    BeginDrag,
    /// On the value while typing: just swallow the press.
    Capture,
}

/// A step an idle, hovered field takes for a key; the caller applies it to
/// the value.
#[derive(Debug, Clone, Copy, PartialEq, Eq, Structural)]
pub enum Nudge {
    /// One (fine, with Shift) step toward `side`: arrow keys.
    Step(StepSide),
    /// Ten steps toward `side`: PageUp and PageDown.
    Page(StepSide),
    /// Jump to the minimum: Home.
    ToMin,
    /// Jump to the maximum: End.
    ToMax,
}

/// What a key asks the field to do.
#[derive(Debug)]
pub enum KeyOutcome {
    /// The key did nothing.
    Ignored,
    /// Idle and hovered: step the value.
    Nudged(Nudge),
    /// Idle and hovered: text that starts a number opened the type-in
    /// buffer holding it.
    Opened,
    /// The buffer changed or the caret moved.
    Edited,
    /// Enter: the buffer was committed with this parsed value.
    Committed(Option<Expr>),
    /// Escape: the buffer was dropped.
    Cancelled,
}

/// What a release asks the field to do.
#[derive(Debug, Clone, Copy, PartialEq, Eq, Structural)]
pub struct ReleaseOutcome {
    /// A scrub ended: report the release.
    pub released: bool,
    /// A click on the value opened the type-in buffer.
    pub opened_editor: bool,
    /// A held stepper was let go.
    pub stopped_hold: bool,
}

/// The field's discrete state.
#[derive(Debug)]
pub struct SpinField {
    edit: Option<Edit>,
    dragging: bool,
    drag_moved: bool,
    holding: Option<StepSide>,
}

impl SpinField {
    /// The type-in buffer, if the field is being typed into.
    pub closed spec fn editor(&self) -> Option<Edit> {
        self.edit
    }

    /// A press on the value is pending or scrubbing.
    pub closed spec fn is_dragging(&self) -> bool {
        self.dragging
    }

    /// The pending press has moved far enough to be a scrub.
    pub closed spec fn has_moved(&self) -> bool {
        self.drag_moved
    }

    /// The stepper being held, if any.
    pub closed spec fn held(&self) -> Option<StepSide> {
        self.holding
    }

    /// Any open buffer is well formed.
    pub open spec fn wf(&self) -> bool {
        self.editor() matches Some(e) ==> e.wf()
    }

    /// Idle: not typing, not dragging, not holding.
    pub fn new() -> (f: Self)
        ensures
            f.wf(),
            f.editor() is None,
            !f.is_dragging(),
            !f.has_moved(),
            f.held() is None,
    {
        SpinField { edit: None, dragging: false, drag_moved: false, holding: None }
    }

    /// Whether the field is being typed into.
    pub fn is_editing(&self) -> (b: bool)
        ensures
            b == self.editor() is Some,
    {
        self.edit.is_some()
    }

    /// The type-in buffer, for drawing.
    pub fn editor_ref(&self) -> (r: Option<&Edit>)
        ensures
            match r {
                Some(e) => self.editor() == Some(*e),
                None => self.editor() is None,
            },
    {
        match &self.edit {
            Some(e) => Some(e),
            None => None,
        }
    }

    /// The held stepper, if any.
    pub fn holding(&self) -> (r: Option<StepSide>)
        ensures
            r == self.held(),
    {
        self.holding
    }

    /// Whether a press on the value has turned into a scrub.
    pub fn scrubbing(&self) -> (b: bool)
        ensures
            b == (self.is_dragging() && self.has_moved()),
    {
        self.dragging && self.drag_moved
    }

    fn commit(&mut self) -> (r: Option<Option<Expr>>)
        ensures
            final(self).editor() is None,
            final(self).is_dragging() == old(self).is_dragging(),
            final(self).has_moved() == old(self).has_moved(),
            final(self).held() == old(self).held(),
            match old(self).editor() {
                Some(e) => r matches Some(v) && match parse_input(e.text()) {
                    Some(x) => v is Some && v->0@ == x,
                    None => v is None,
                },
                None => r is None,
            },
    {
        match self.edit.take() {
            Some(e) => Some(e.commit_value()),
            None => None,
        }
    }

    /// A press at a point of the field: `inside` says whether it is on the
    /// field at all, `region` which part.
    pub fn press(&mut self, inside: bool, region: Region) -> (r: PressOutcome)
        requires
            old(self).wf(),
        ensures
            final(self).wf(),
            old(self).editor() is Some && !inside ==> {
                &&& final(self).editor() is None
                &&& final(self).is_dragging() == old(self).is_dragging()
                &&& final(self).held() == old(self).held()
                &&& r matches PressOutcome::Commit(v) && match parse_input(
                    old(self).editor()->0.text(),
                ) {
                    Some(x) => v is Some && v->0@ == x,
                    None => v is None,
                }
            },
            old(self).editor() is None && !inside ==> r is Nothing && final(self).editor() is None
                && final(self).is_dragging() == old(self).is_dragging() && final(self).held()
                == old(self).held(),
            inside && region != Region::Center ==> {
                let side = if region == Region::Minus {
                    StepSide::Minus
                } else {
                    StepSide::Plus
                };
                &&& final(self).editor() is None
                &&& final(self).held() == Some(side)
                &&& final(self).is_dragging() == old(self).is_dragging()
                &&& r matches PressOutcome::Step { committed, side: s } && s == side && match old(
                    self,
                ).editor() {
                    Some(e) => committed matches Some(v) && match parse_input(e.text()) {
                        Some(x) => v is Some && v->0@ == x,
                        None => v is None,
                    },
                    None => committed is None,
                }
            },
            inside && region == Region::Center ==> final(self).held() == old(self).held() && if old(
                self,
            ).editor() is None {
                &&& r is BeginDrag
                &&& final(self).is_dragging()
                &&& !final(self).has_moved()
                &&& final(self).editor() is None
            } else {
                &&& r is Capture
                &&& final(self).editor() == old(self).editor()
                &&& final(self).is_dragging() == old(self).is_dragging()
                &&& final(self).has_moved() == old(self).has_moved()
            },
    {
        if self.edit.is_some() && !inside {
            let v = self.commit();
            return match v {
                Some(x) => PressOutcome::Commit(x),
                None => PressOutcome::Nothing,
            };
        }
        if !inside {
            return PressOutcome::Nothing;
        }
        match region {
            Region::Minus | Region::Plus => {
                let committed = self.commit();
                let side = match region {
                    Region::Minus => StepSide::Minus,
                    _ => StepSide::Plus,
                };
                self.holding = Some(side);
                PressOutcome::Step { committed, side }
            },
            Region::Center => {
                if self.edit.is_none() {
                    self.dragging = true;
                    self.drag_moved = false;
                    PressOutcome::BeginDrag
                } else {
                    PressOutcome::Capture
                }
            },
        }
    }

    /// The pending press has moved far enough to count as a scrub.
    pub fn mark_moved(&mut self)
        ensures
            final(self).has_moved() == (old(self).is_dragging() || old(self).has_moved()),
            final(self).is_dragging() == old(self).is_dragging(),
            final(self).editor() == old(self).editor(),
            final(self).held() == old(self).held(),
    {
        if self.dragging {
            self.drag_moved = true;
        }
    }

    /// The pointer was released. A scrub ends (report the release); a press
    /// that never moved opens the type-in buffer on `formatted`, the current
    /// value as text, all selected. A held stepper stops.
    pub fn release(&mut self, formatted: Vec<char>) -> (r: ReleaseOutcome)
        requires
            old(self).wf(),
        ensures
            final(self).wf(),
            !final(self).is_dragging(),
            final(self).held() is None,
            r.released == (old(self).is_dragging() && old(self).has_moved()),
            r.opened_editor == (old(self).is_dragging() && !old(self).has_moved()),
            r.stopped_hold == old(self).held() is Some,
            r.opened_editor ==> (final(self).editor() matches Some(e) && e.text() == formatted@
                && e.caret_pos() == formatted@.len() && e.all_selected()),
            !r.opened_editor ==> final(self).editor() == old(self).editor(),
    {
        let mut out = ReleaseOutcome { released: false, opened_editor: false, stopped_hold: false };
        if self.dragging {
            self.dragging = false;
            if self.drag_moved {
                out.released = true;
            } else {
                self.edit = Some(Edit::selecting(formatted));
                out.opened_editor = true;
            }
        }
        if self.holding.is_some() {
            self.holding = None;
            out.stopped_hold = true;
        }
        out
    }

    /// A key press. A field being typed into edits its buffer: Enter
    /// commits it, Escape drops it, other keys edit it (see
    /// [`Edit::handle_key`]). An idle field reacts only while `hovered`:
    /// arrows, PageUp/PageDown, Home and End step the value (see
    /// [`nudge_for`]), and text that starts a number opens the buffer with
    /// it (see [`Edit::begin_typing`]).
    pub fn key(&mut self, key: EditKey, text: &Option<Vec<char>>, hovered: bool) -> (r: KeyOutcome)
        requires
            old(self).wf(),
        ensures
            final(self).wf(),
            final(self).is_dragging() == old(self).is_dragging(),
            final(self).has_moved() == old(self).has_moved(),
            final(self).held() == old(self).held(),
            key_outcome(old(self).editor(), key, typed(*text), hovered, final(self).editor(), r),
    {
        let mut e = match self.edit.take() {
            Some(e) => e,
            None => {
                if !hovered {
                    return KeyOutcome::Ignored;
                }
                if let Some(n) = nudge_key(key) {
                    return KeyOutcome::Nudged(n);
                }
                match text {
                    Some(t) => match Edit::begin_typing(t) {
                        Some(opened) => {
                            self.edit = Some(opened);
                            assert(begins_number(t@));
                            return KeyOutcome::Opened;
                        },
                        None => {
                            assert(!begins_number(t@));
                            return KeyOutcome::Ignored;
                        },
                    },
                    None => {
                        return KeyOutcome::Ignored;
                    },
                }
            },
        };
        let ghost e0 = e;
        let act = e.handle_key(key, text);
        let ghost e1 = e;
        assert(key_effect(e0, key, typed(*text), e1, act));
        match act {
            EditAction::Commit => {
                assert(key == EditKey::Enter);
                assert(e == e0);
                KeyOutcome::Committed(e.commit_value())
            },
            EditAction::Cancel => {
                assert(key == EditKey::Escape);
                KeyOutcome::Cancelled
            },
            EditAction::Handled => {
                self.edit = Some(e);
                assert(Some(e1).unwrap() == e1);
                KeyOutcome::Edited
            },
            EditAction::Ignored => {
                self.edit = Some(e);
                assert(Some(e1).unwrap() == e1);
                KeyOutcome::Ignored
            },
        }
    }
}


/// Whether `r` is the committed value of a buffer holding `text`.
pub open spec fn commits(text: Seq<char>, v: Option<Expr>) -> bool {
    match parse_input(text) {
        Some(x) => v is Some && v->0@ == x,
        None => v is None,
    }
}

/// The step an idle, hovered field takes for a key, if any.
pub open spec fn nudge_for(key: EditKey) -> Option<Nudge> {
    match key {
        EditKey::ArrowUp | EditKey::ArrowRight => Some(Nudge::Step(StepSide::Plus)),
        EditKey::ArrowDown | EditKey::ArrowLeft => Some(Nudge::Step(StepSide::Minus)),
        EditKey::PageUp => Some(Nudge::Page(StepSide::Plus)),
        EditKey::PageDown => Some(Nudge::Page(StepSide::Minus)),
        EditKey::Home => Some(Nudge::ToMin),
        EditKey::End => Some(Nudge::ToMax),
        _ => None,
    }
}

fn nudge_key(key: EditKey) -> (r: Option<Nudge>)
    ensures
        r == nudge_for(key),
{
    match key {
        EditKey::ArrowUp | EditKey::ArrowRight => Some(Nudge::Step(StepSide::Plus)),
        EditKey::ArrowDown | EditKey::ArrowLeft => Some(Nudge::Step(StepSide::Minus)),
        EditKey::PageUp => Some(Nudge::Page(StepSide::Plus)),
        EditKey::PageDown => Some(Nudge::Page(StepSide::Minus)),
        EditKey::Home => Some(Nudge::ToMin),
        EditKey::End => Some(Nudge::ToMax),
        _ => None,
    }
}

/// Whether typed text begins like a number: a digit, a sign, a decimal
/// point or an opening parenthesis.
pub open spec fn begins_number(t: Seq<char>) -> bool {
    t.len() > 0 && ((0x30 <= (t[0] as u32) <= 0x39) || t[0] == '-' || t[0] == '+' || t[0] == '.'
        || t[0] == '(')
}

/// The exact effect of [`SpinField::key`] on the type-in buffer.
pub open spec fn key_outcome(before: Option<Edit>, key: EditKey, text: Option<Seq<char>>, hovered: bool, after: Option<Edit>, r: KeyOutcome) -> bool {
    match before {
        None => if !hovered {
            r is Ignored && after is None
        } else {
            match nudge_for(key) {
                Some(n) => after is None && (r matches KeyOutcome::Nudged(m) && m == n),
                None => match text {
                    Some(t) => if begins_number(t) {
                        &&& r is Opened
                        &&& after matches Some(e) && e.wf() && e.text() == printable(t)
                            && e.caret_pos() == printable(t).len() && !e.all_selected()
                    } else {
                        r is Ignored && after is None
                    },
                    None => r is Ignored && after is None,
                },
            }
        },
        Some(e) => editing_outcome(e, key, text, after, r),
    }
}

/// The effect of a key on an open type-in buffer `e`.
pub open spec fn editing_outcome(e: Edit, key: EditKey, text: Option<Seq<char>>, after: Option<Edit>, r: KeyOutcome) -> bool {
    match key {
        EditKey::Enter => after is None && (r matches KeyOutcome::Committed(v) && commits(e.text(), v)),
        EditKey::Escape => after is None && r is Cancelled,
        _ => after is Some && exists|a: EditAction|
            #[trigger] key_effect(e, key, text, after.unwrap(), a) && (if a == EditAction::Handled {
                r is Edited
            } else {
                r is Ignored
            }),
    }
}

} // verus!
