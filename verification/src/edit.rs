//! The type-in buffer of a numeric field: characters, a caret, and a
//! "whole buffer selected" flag, edited key by key.
use vstd::prelude::*;
use crate::expr::{parse_expr_chars, parse_input, starts_number, Expr, SpecExpr};

verus! {

/// Unicode control characters (general category `Cc`).
pub open spec fn is_control_spec(c: char) -> bool {
    let u = c as u32;
    u <= 0x1f || (0x7f <= u <= 0x9f)
}

/// Whether `c` is a control character (same set as `char::is_control`).
pub fn is_control(c: char) -> (r: bool)
    ensures
        r == is_control_spec(c),
{
    let u = c as u32;
    u <= 0x1f || (0x7f <= u && u <= 0x9f)
}

/// The characters of `s` that are not control characters, in order.
pub open spec fn printable(s: Seq<char>) -> Seq<char>
    decreases s.len(),
{
    if s.len() == 0 {
        Seq::empty()
    } else if is_control_spec(s.last()) {
        printable(s.drop_last())
    } else {
        printable(s.drop_last()).push(s.last())
    }
}

/// Keep only the printable characters of typed text.
pub fn printable_chars(text: &Vec<char>) -> (r: Vec<char>)
    ensures
        r@ == printable(text@),
{
    let mut out: Vec<char> = Vec::new();
    let mut i: usize = 0;
    while i < text.len()
        invariant
            i <= text.len(),
            out@ == printable(text@.take(i as int)),
        decreases text.len() - i,
    {
        assert(text@.take(i + 1).drop_last() =~= text@.take(i as int));
        if !is_control(text[i]) {
            out.push(text[i]);
        }
        i = i + 1;
    }
    assert(text@.take(text.len() as int) =~= text@);
    out
}

/// Keys that a numeric field reacts to; any other key is `Other`. The
/// type-in buffer treats `ArrowUp`, `ArrowDown`, `PageUp` and `PageDown`
/// like `Other`; an idle hovered field steps with them.
#[derive(Debug, Clone, Copy, PartialEq, Eq, Structural)]
pub enum EditKey {
    Enter,
    Escape,
    Backspace,
    Delete,
    ArrowLeft,
    ArrowRight,
    ArrowUp,
    ArrowDown,
    PageUp,
    PageDown,
    Home,
    End,
    Other,
}

/// What the field should do after a key reached the buffer.
#[derive(Debug, Clone, Copy, PartialEq, Eq, Structural)]
pub enum EditAction {
    /// Evaluate the buffer and leave type-in mode.
    Commit,
    /// Leave type-in mode, discarding the buffer.
    Cancel,
    /// The key was consumed; the buffer may have changed.
    Handled,
    /// The key did nothing here.
    Ignored,
}

/// A type-in buffer. The caret sits between characters, `0..=len`.
#[derive(Debug)]
pub struct Edit {
    chars: Vec<char>,
    caret: usize,
    select_all: bool,
}

impl Edit {
    /// The buffer's characters.
    pub closed spec fn text(&self) -> Seq<char> {
        self.chars@
    }

    /// Caret position.
    pub closed spec fn caret_pos(&self) -> nat {
        self.caret as nat
    }

    /// Whether the whole buffer is selected (the next text replaces it).
    pub closed spec fn all_selected(&self) -> bool {
        self.select_all
    }

    /// The caret lies within the buffer.
    pub open spec fn wf(&self) -> bool {
        self.caret_pos() <= self.text().len()
    }

    /// An empty buffer with the caret at the start.
    pub fn fresh() -> (e: Edit)
        ensures
            e.wf(),
            e.text() == Seq::<char>::empty(),
            e.caret_pos() == 0,
            !e.all_selected(),
    {
        Edit { chars: Vec::new(), caret: 0, select_all: false }
    }

    /// A buffer holding the formatted current value, all of it selected,
    /// caret at the end.
    pub fn selecting(chars: Vec<char>) -> (e: Edit)
        ensures
            e.wf(),
            e.text() == chars@,
            e.caret_pos() == chars@.len(),
            e.all_selected(),
    {
        let caret = chars.len();
        Edit { chars, caret, select_all: true }
    }

    /// Start typing into an idle field: when the text begins like a number
    /// (see [`starts_number`]), a fresh buffer holding its printable
    /// characters; otherwise `None`.
    pub fn begin_typing(text: &Vec<char>) -> (r: Option<Edit>)
        ensures
            (text@.len() > 0 && ((0x30 <= (text@[0] as u32) <= 0x39) || text@[0] == '-'
                || text@[0] == '+' || text@[0] == '.' || text@[0] == '(')) <==> r is Some,
            r matches Some(e) ==> {
                &&& e.wf()
                &&& e.text() == printable(text@)
                &&& e.caret_pos() == printable(text@).len()
                &&& !e.all_selected()
            },
    {
        if text.len() > 0 && starts_number(text[0]) {
            let mut e = Edit::fresh();
            let p = printable_chars(text);
            e.insert_printable(&p);
            assert(Seq::<char>::empty().subrange(0, 0) + p@ + Seq::<char>::empty().subrange(0, 0)
                =~= p@);
            Some(e)
        } else {
            None
        }
    }

    /// The buffer as characters.
    pub fn chars(&self) -> (r: &Vec<char>)
        ensures
            r@ == self.text(),
    {
        &self.chars
    }

    /// The caret position.
    pub fn caret(&self) -> (r: usize)
        ensures
            r == self.caret_pos(),
    {
        self.caret
    }

    /// Whether the whole buffer is selected.
    pub fn is_select_all(&self) -> (r: bool)
        ensures
            r == self.all_selected(),
    {
        self.select_all
    }

    /// Parse the buffer as an expression, as on commit.
    pub fn commit_value(&self) -> (r: Option<Expr>)
        ensures
            match parse_input(self.text()) {
                Some(e) => r is Some && r->0@ == e,
                None => r is None,
            },
    {
        parse_expr_chars(&self.chars)
    }

    /// Insert already-filtered characters at the caret.
    fn insert_printable(&mut self, p: &Vec<char>)
        requires
            old(self).wf(),
            !old(self).all_selected(),
        ensures
            final(self).wf(),
            !final(self).all_selected(),
            final(self).text() == old(self).text().subrange(0, old(self).caret_pos() as int)
                + p@ + old(self).text().subrange(
                old(self).caret_pos() as int,
                old(self).text().len() as int,
            ),
            final(self).caret_pos() == old(self).caret_pos() + p@.len(),
    {
        let ghost t0 = self.chars@;
        let ghost c0 = self.caret as int;
        let mut i: usize = 0;
        while i < p.len()
            invariant
                i <= p.len(),
                !self.select_all,
                self.caret == c0 + i,
                self.chars@ == t0.subrange(0, c0) + p@.take(i as int) + t0.subrange(
                    c0,
                    t0.len() as int,
                ),
                0 <= c0 <= t0.len(),
            decreases p.len() - i,
        {
            self.chars.insert(self.caret, p[i]);
            assert(self.caret < self.chars.len());
            self.caret = self.caret + 1;
            i = i + 1;
            assert(self.chars@ =~= t0.subrange(0, c0) + p@.take(i as int) + t0.subrange(
                c0,
                t0.len() as int,
            ));
        }
        assert(p@.take(p.len() as int) =~= p@);
    }

    /// React to one key press while the buffer is being edited. `text` is
    /// the text the key produced, if any.
    ///
    /// - Enter commits, Escape cancels (the buffer itself is left as is).
    /// - Backspace clears a selected buffer, else deletes before the caret.
    /// - Delete removes the character after the caret.
    /// - Arrows, Home and End move the caret.
    /// - Any other key (vertical arrows and Page keys among them) inserts
    ///   its printable text at the caret, replacing a
    ///   selected buffer; with nothing printable it is ignored.
    ///
    /// Every key but Enter, Escape and ignored ones clears the selection
    /// (Backspace on an unselected buffer keeps it unselected).
    pub fn handle_key(&mut self, key: EditKey, text: &Option<Vec<char>>) -> (act: EditAction)
        requires
            old(self).wf(),
        ensures
            final(self).wf(),
            key_effect(*old(self), key, typed(*text), *final(self), act),
    {
        match key {
            EditKey::Enter => EditAction::Commit,
            EditKey::Escape => EditAction::Cancel,
            EditKey::Backspace => {
                if self.select_all {
                    self.chars.clear();
                    self.caret = 0;
                    self.select_all = false;
                } else if self.caret > 0 {
                    self.caret = self.caret - 1;
                    self.chars.remove(self.caret);
                }
                EditAction::Handled
            },
            EditKey::Delete => {
                self.select_all = false;
                if self.caret < self.chars.len() {
                    self.chars.remove(self.caret);
                }
                EditAction::Handled
            },
            EditKey::ArrowLeft => {
                self.select_all = false;
                if self.caret > 0 {
                    self.caret = self.caret - 1;
                }
                EditAction::Handled
            },
            EditKey::ArrowRight => {
                self.select_all = false;
                if self.caret < self.chars.len() {
                    self.caret = self.caret + 1;
                }
                EditAction::Handled
            },
            EditKey::Home => {
                self.select_all = false;
                self.caret = 0;
                EditAction::Handled
            },
            EditKey::End => {
                self.select_all = false;
                self.caret = self.chars.len();
                EditAction::Handled
            },
            EditKey::Other | EditKey::ArrowUp | EditKey::ArrowDown | EditKey::PageUp
            | EditKey::PageDown => {
                match text {
                    Some(t) => {
                        let p = printable_chars(t);
                        if p.len() > 0 {
                            if self.select_all {
                                self.chars.clear();
                                self.caret = 0;
                                self.select_all = false;
                            }
                            self.insert_printable(&p);
                            EditAction::Handled
                        } else {
                            EditAction::Ignored
                        }
                    },
                    None => EditAction::Ignored,
                }
            },
        }
    }
}

/// The characters of an optional typed text.
pub open spec fn typed(text: Option<Vec<char>>) -> Option<Seq<char>> {
    match text {
        Some(t) => Some(t@),
        None => None,
    }
}

/// `t` with `p` inserted at `at`.
pub open spec fn inserted(t: Seq<char>, at: int, p: Seq<char>) -> Seq<char> {
    t.subrange(0, at) + p + t.subrange(at, t.len() as int)
}

/// The exact effect of [`Edit::handle_key`]: from buffer `e`, `key` with
/// produced text `text` leads to buffer `f` and action `act`.
pub open spec fn key_effect(
    e: Edit,
    key: EditKey,
    text: Option<Seq<char>>,
    f: Edit,
    act: EditAction,
) -> bool {
    let t = e.text();
    let c = e.caret_pos() as int;
    match key {
        EditKey::Enter => f == e && act == EditAction::Commit,
        EditKey::Escape => f == e && act == EditAction::Cancel,
        EditKey::Backspace => act == EditAction::Handled && if e.all_selected() {
            f.text() == Seq::<char>::empty() && f.caret_pos() == 0 && !f.all_selected()
        } else if c > 0 {
            f.text() == t.remove(c - 1) && f.caret_pos() == c - 1 && !f.all_selected()
        } else {
            f == e
        },
        EditKey::Delete => act == EditAction::Handled && !f.all_selected() && f.caret_pos() == c
            && f.text() == (if c < t.len() {
            t.remove(c)
        } else {
            t
        }),
        EditKey::ArrowLeft => act == EditAction::Handled && !f.all_selected() && f.text() == t
            && f.caret_pos() == (if c > 0 {
            c - 1
        } else {
            0
        }),
        EditKey::ArrowRight => act == EditAction::Handled && !f.all_selected() && f.text() == t
            && f.caret_pos() == (if c < t.len() {
            c + 1
        } else {
            c
        }),
        EditKey::Home => act == EditAction::Handled && !f.all_selected() && f.text() == t
            && f.caret_pos() == 0,
        EditKey::End => act == EditAction::Handled && !f.all_selected() && f.text() == t
            && f.caret_pos() == t.len(),
        EditKey::Other | EditKey::ArrowUp | EditKey::ArrowDown | EditKey::PageUp
        | EditKey::PageDown => match text {
            Some(typed) => {
                let p = printable(typed);
                if p.len() > 0 {
                    &&& act == EditAction::Handled
                    &&& !f.all_selected()
                    &&& if e.all_selected() {
                        f.text() == p && f.caret_pos() == p.len()
                    } else {
                        f.text() == inserted(t, c, p) && f.caret_pos() == c + p.len()
                    }
                } else {
                    f == e && act == EditAction::Ignored
                }
            },
            None => f == e && act == EditAction::Ignored,
        },
    }
}


/// Typing one printable character and then pressing Backspace gives back
/// the buffer and caret from before (when nothing was selected).
pub proof fn lemma_type_then_backspace(e: Edit, c: char, f: Edit, a1: EditAction, g: Edit, text: Option<Seq<char>>, a2: EditAction)
    requires
        e.wf(),
        !e.all_selected(),
        !is_control_spec(c),
        key_effect(e, EditKey::Other, Some(seq![c]), f, a1),
        key_effect(f, EditKey::Backspace, text, g, a2),
    ensures
        g.text() == e.text(),
        g.caret_pos() == e.caret_pos(),
        !g.all_selected(),
{
    let t = e.text();
    let k = e.caret_pos() as int;
    assert(seq![c].drop_last() =~= Seq::<char>::empty());
    assert(printable(Seq::<char>::empty()) == Seq::<char>::empty());
    assert(seq![c].last() == c);
    assert(printable(seq![c]) =~= seq![c]);
    assert(inserted(t, k, seq![c]).remove(k) =~= t);
}

/// ArrowLeft undoes ArrowRight and ArrowRight undoes ArrowLeft, unless the
/// first key was pressed with the caret already at that end of the buffer;
/// neither changes the text.
pub proof fn lemma_arrows_undo_each_other(e: Edit, k1: EditKey, t1: Option<Seq<char>>, f: Edit, a1: EditAction, k2: EditKey, t2: Option<Seq<char>>, g: Edit, a2: EditAction)
    requires
        e.wf(),
        (k1 == EditKey::ArrowRight && k2 == EditKey::ArrowLeft && e.caret_pos() < e.text().len())
            || (k1 == EditKey::ArrowLeft && k2 == EditKey::ArrowRight && e.caret_pos() > 0),
        key_effect(e, k1, t1, f, a1),
        key_effect(f, k2, t2, g, a2),
    ensures
        g.caret_pos() == e.caret_pos(),
        g.text() == e.text(),
        f.text() == e.text(),
        f.caret_pos() != e.caret_pos(),
{
}

/// ArrowRight steps over exactly the character after the caret: a
/// character typed next lands right after it, and the rest of the buffer
/// follows unchanged.
pub proof fn lemma_right_then_type(e: Edit, t1: Option<Seq<char>>, f: Edit, a1: EditAction, x: char, g: Edit, a2: EditAction)
    requires
        e.wf(),
        e.caret_pos() < e.text().len(),
        !is_control_spec(x),
        key_effect(e, EditKey::ArrowRight, t1, f, a1),
        key_effect(f, EditKey::Other, Some(seq![x]), g, a2),
    ensures
        g.text() == e.text().subrange(0, e.caret_pos() + 1 as int) + seq![x] + e.text().subrange(
            e.caret_pos() + 1 as int,
            e.text().len() as int,
        ),
        g.caret_pos() == e.caret_pos() + 2,
{
    assert(seq![x].drop_last() =~= Seq::<char>::empty());
    assert(printable(Seq::<char>::empty()) == Seq::<char>::empty());
    assert(seq![x].last() == x);
    assert(printable(seq![x]) =~= seq![x]);
}

/// Delete removes the character after the caret, which is what stepping
/// over it with ArrowRight and removing it with Backspace does.
pub proof fn lemma_delete_is_right_then_backspace(e: Edit, t1: Option<Seq<char>>, f: Edit, a1: EditAction, t2: Option<Seq<char>>, g: Edit, a2: EditAction, t3: Option<Seq<char>>, h: Edit, a3: EditAction)
    requires
        e.wf(),
        e.caret_pos() < e.text().len(),
        key_effect(e, EditKey::Delete, t1, f, a1),
        key_effect(e, EditKey::ArrowRight, t2, g, a2),
        key_effect(g, EditKey::Backspace, t3, h, a3),
    ensures
        f.text() == h.text(),
        f.caret_pos() == h.caret_pos(),
        f.text().len() + 1 == e.text().len(),
{
}

/// After End, typed text is appended to the buffer; after Home, it is put
/// in front of it.
pub proof fn lemma_home_end_then_type(e: Edit, key: EditKey, t1: Option<Seq<char>>, f: Edit, a1: EditAction, x: char, g: Edit, a2: EditAction)
    requires
        e.wf(),
        key == EditKey::Home || key == EditKey::End,
        !is_control_spec(x),
        key_effect(e, key, t1, f, a1),
        key_effect(f, EditKey::Other, Some(seq![x]), g, a2),
    ensures
        key == EditKey::End ==> g.text() == e.text().push(x),
        key == EditKey::Home ==> g.text() == seq![x] + e.text(),
{
    assert(seq![x].drop_last() =~= Seq::<char>::empty());
    assert(printable(Seq::<char>::empty()) == Seq::<char>::empty());
    assert(seq![x].last() == x);
    assert(printable(seq![x]) =~= seq![x]);
    let t = e.text();
    assert(inserted(t, t.len() as int, seq![x]) =~= t.push(x));
    assert(inserted(t, 0, seq![x]) =~= seq![x] + t);
}

/// Text typed while the whole buffer is selected replaces it.
pub proof fn lemma_typing_replaces_selection(e: Edit, typed: Seq<char>, f: Edit, a: EditAction)
    requires
        e.all_selected(),
        printable(typed).len() > 0,
        key_effect(e, EditKey::Other, Some(typed), f, a),
    ensures
        f.text() == printable(typed),
        f.caret_pos() == printable(typed).len(),
        a == EditAction::Handled,
{
}

/// Enter and Escape never change the buffer; they only commit or cancel.
pub proof fn lemma_enter_escape_keep_buffer(e: Edit, key: EditKey, text: Option<Seq<char>>, f: Edit, a: EditAction)
    requires
        key == EditKey::Enter || key == EditKey::Escape,
        key_effect(e, key, text, f, a),
    ensures
        f == e,
        a == (if key == EditKey::Enter {
            EditAction::Commit
        } else {
            EditAction::Cancel
        }),
{
}

} // verus!
