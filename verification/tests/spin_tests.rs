use cosmetics::edit::EditKey;
use cosmetics::spin::{KeyOutcome, Nudge, PressOutcome, Region, SpinField, StepSide};

fn chars(s: &str) -> Vec<char> {
    s.chars().collect()
}

#[test]
fn click_in_place_opens_editor() {
    let mut f = SpinField::new();
    assert!(matches!(f.press(true, Region::Center), PressOutcome::BeginDrag));
    let r = f.release(chars("3.50"));
    assert!(r.opened_editor && !r.released && !r.stopped_hold);
    assert!(f.is_editing());
    let e = f.editor_ref().unwrap();
    assert!(e.is_select_all());
    assert_eq!(e.chars().iter().collect::<String>(), "3.50");
}

#[test]
fn scrub_reports_release() {
    let mut f = SpinField::new();
    f.press(true, Region::Center);
    f.mark_moved();
    assert!(f.scrubbing());
    let r = f.release(chars("1"));
    assert!(r.released && !r.opened_editor);
    assert!(!f.is_editing());
}

#[test]
fn stepper_press_holds_and_commits() {
    let mut f = SpinField::new();
    f.press(true, Region::Center);
    f.release(chars("5"));
    f.key(EditKey::Other, &Some(chars("7")), true);
    match f.press(true, Region::Plus) {
        PressOutcome::Step { committed: Some(Some(_)), side: StepSide::Plus } => {}
        other => panic!("{:?}", other),
    }
    assert!(!f.is_editing());
    assert_eq!(f.holding(), Some(StepSide::Plus));
    let r = f.release(chars("5"));
    assert!(r.stopped_hold);
    assert_eq!(f.holding(), None);
}

#[test]
fn keys_edit_commit_and_cancel() {
    let mut f = SpinField::new();
    assert!(matches!(f.key(EditKey::Enter, &None, true), KeyOutcome::Ignored));
    f.press(true, Region::Center);
    f.release(chars("2"));
    assert!(matches!(f.key(EditKey::Other, &Some(chars("100/2")), true), KeyOutcome::Edited));
    match f.key(EditKey::Enter, &None, true) {
        KeyOutcome::Committed(Some(_)) => {}
        other => panic!("{:?}", other),
    }
    assert!(!f.is_editing());
    f.press(true, Region::Center);
    f.release(chars("2"));
    assert!(matches!(f.key(EditKey::Escape, &None, true), KeyOutcome::Cancelled));
    assert!(!f.is_editing());
}

#[test]
fn press_outside_commits_open_editor() {
    let mut f = SpinField::new();
    assert!(matches!(f.press(false, Region::Center), PressOutcome::Nothing));
    f.press(true, Region::Center);
    f.release(chars("2"));
    f.key(EditKey::Other, &Some(chars("1+")), true);
    match f.press(false, Region::Center) {
        PressOutcome::Commit(None) => {}
        other => panic!("{:?}", other),
    }
    assert!(!f.is_editing());
    f.press(true, Region::Center);
    f.release(chars("2"));
    assert!(matches!(f.press(true, Region::Center), PressOutcome::Capture));
}

#[test]
fn hovered_idle_field_steps_with_keys() {
    let mut f = SpinField::new();
    let cases = [
        (EditKey::ArrowUp, Nudge::Step(StepSide::Plus)),
        (EditKey::ArrowRight, Nudge::Step(StepSide::Plus)),
        (EditKey::ArrowDown, Nudge::Step(StepSide::Minus)),
        (EditKey::ArrowLeft, Nudge::Step(StepSide::Minus)),
        (EditKey::PageUp, Nudge::Page(StepSide::Plus)),
        (EditKey::PageDown, Nudge::Page(StepSide::Minus)),
        (EditKey::Home, Nudge::ToMin),
        (EditKey::End, Nudge::ToMax),
    ];
    for (key, expected) in cases {
        match f.key(key, &None, true) {
            KeyOutcome::Nudged(n) => assert_eq!(n, expected),
            other => panic!("{:?}", other),
        }
        assert!(!f.is_editing());
    }
    assert!(matches!(f.key(EditKey::Enter, &None, true), KeyOutcome::Ignored));
}

#[test]
fn unhovered_idle_field_ignores_keys() {
    let mut f = SpinField::new();
    assert!(matches!(f.key(EditKey::ArrowUp, &None, false), KeyOutcome::Ignored));
    assert!(matches!(f.key(EditKey::Other, &Some(chars("5")), false), KeyOutcome::Ignored));
    assert!(!f.is_editing());
}

#[test]
fn typing_a_digit_while_hovered_opens_editor() {
    let mut f = SpinField::new();
    assert!(matches!(f.key(EditKey::Other, &Some(chars("x")), true), KeyOutcome::Ignored));
    assert!(!f.is_editing());
    assert!(matches!(f.key(EditKey::Other, &Some(chars("4")), true), KeyOutcome::Opened));
    let e = f.editor_ref().unwrap();
    assert_eq!(e.chars(), &chars("4"));
    assert_eq!(e.caret(), 1);
    assert!(!e.is_select_all());
    // Once typing, arrows move the caret instead of stepping.
    assert!(matches!(f.key(EditKey::ArrowLeft, &None, true), KeyOutcome::Edited));
    assert_eq!(f.editor_ref().unwrap().caret(), 0);
}
