use cosmetics::edit::{printable_chars, Edit, EditAction, EditKey};

fn chars(s: &str) -> Vec<char> {
    s.chars().collect()
}

fn text(e: &Edit) -> String {
    e.chars().iter().collect()
}

fn typed(e: &mut Edit, s: &str) -> EditAction {
    e.handle_key(EditKey::Other, &Some(chars(s)))
}

#[test]
fn typing_inserts_at_caret() {
    let mut e = Edit::fresh();
    assert_eq!(typed(&mut e, "12"), EditAction::Handled);
    assert_eq!(text(&e), "12");
    assert_eq!(e.caret(), 2);
    assert_eq!(e.handle_key(EditKey::ArrowLeft, &None), EditAction::Handled);
    assert_eq!(typed(&mut e, "x"), EditAction::Handled);
    assert_eq!(text(&e), "1x2");
    assert_eq!(e.caret(), 2);
}

#[test]
fn typing_replaces_a_selection() {
    let mut e = Edit::selecting(chars("42.00"));
    assert!(e.is_select_all());
    assert_eq!(e.caret(), 5);
    typed(&mut e, "7");
    assert_eq!(text(&e), "7");
    assert_eq!(e.caret(), 1);
    assert!(!e.is_select_all());
}

#[test]
fn backspace_clears_selection_or_deletes_before_caret() {
    let mut e = Edit::selecting(chars("123"));
    e.handle_key(EditKey::Backspace, &None);
    assert_eq!(text(&e), "");
    assert_eq!(e.caret(), 0);
    let mut f = Edit::fresh();
    typed(&mut f, "abc");
    f.handle_key(EditKey::Backspace, &None);
    assert_eq!(text(&f), "ab");
    f.handle_key(EditKey::Home, &None);
    assert_eq!(f.handle_key(EditKey::Backspace, &None), EditAction::Handled);
    assert_eq!(text(&f), "ab");
    assert_eq!(f.caret(), 0);
}

#[test]
fn delete_removes_after_caret() {
    let mut e = Edit::fresh();
    typed(&mut e, "abc");
    e.handle_key(EditKey::Home, &None);
    e.handle_key(EditKey::Delete, &None);
    assert_eq!(text(&e), "bc");
    assert_eq!(e.caret(), 0);
    e.handle_key(EditKey::End, &None);
    e.handle_key(EditKey::Delete, &None);
    assert_eq!(text(&e), "bc");
    assert_eq!(e.caret(), 2);
}

#[test]
fn arrows_stay_in_bounds() {
    let mut e = Edit::fresh();
    typed(&mut e, "ab");
    e.handle_key(EditKey::ArrowRight, &None);
    assert_eq!(e.caret(), 2);
    e.handle_key(EditKey::ArrowLeft, &None);
    e.handle_key(EditKey::ArrowLeft, &None);
    e.handle_key(EditKey::ArrowLeft, &None);
    assert_eq!(e.caret(), 0);
}

#[test]
fn enter_commits_and_escape_cancels() {
    let mut e = Edit::fresh();
    typed(&mut e, "10+2*3");
    assert_eq!(e.handle_key(EditKey::Enter, &None), EditAction::Commit);
    assert_eq!(text(&e), "10+2*3");
    assert_eq!(e.handle_key(EditKey::Escape, &None), EditAction::Cancel);
    assert!(e.commit_value().is_some());
}

#[test]
fn control_text_is_ignored() {
    let mut e = Edit::fresh();
    assert_eq!(typed(&mut e, "\u{8}\n"), EditAction::Ignored);
    assert_eq!(e.handle_key(EditKey::Other, &None), EditAction::Ignored);
    assert_eq!(text(&e), "");
    typed(&mut e, "a\tb");
    assert_eq!(text(&e), "ab");
}

#[test]
fn type_then_backspace_restores() {
    let mut e = Edit::fresh();
    typed(&mut e, "abc");
    e.handle_key(EditKey::ArrowLeft, &None);
    typed(&mut e, "z");
    e.handle_key(EditKey::Backspace, &None);
    assert_eq!(text(&e), "abc");
    assert_eq!(e.caret(), 2);
}

#[test]
fn begin_typing_only_for_numbers() {
    let e = Edit::begin_typing(&chars("5")).unwrap();
    assert_eq!(text(&e), "5");
    assert_eq!(e.caret(), 1);
    assert!(Edit::begin_typing(&chars("-\u{1}2")).map(|e| text(&e)) == Some("-2".to_string()));
    assert!(Edit::begin_typing(&chars("a")).is_none());
    assert!(Edit::begin_typing(&chars("")).is_none());
}

#[test]
fn printable_filter() {
    assert_eq!(printable_chars(&chars("a\u{7f}b\u{85}c")), chars("abc"));
}
