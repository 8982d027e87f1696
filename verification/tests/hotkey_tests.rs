use auto_shake::hotkey::{
    action_for, code_name, hotkey_id, key_for_letter, key_for_name, on_hotkey, overlay_label,
    parse_hotkey, same_text, status_message, BoundIds, HotkeyAction, ShellState,
};
use auto_shake::keys::KeyCode;
use global_hotkey::hotkey::{Code, HotKey};

fn all_keys() -> Vec<(KeyCode, Code)> {
    vec![
        (KeyCode::F1, Code::F1),
        (KeyCode::F2, Code::F2),
        (KeyCode::F3, Code::F3),
        (KeyCode::F4, Code::F4),
        (KeyCode::F5, Code::F5),
        (KeyCode::F6, Code::F6),
        (KeyCode::F7, Code::F7),
        (KeyCode::F8, Code::F8),
        (KeyCode::F9, Code::F9),
        (KeyCode::F10, Code::F10),
        (KeyCode::F11, Code::F11),
        (KeyCode::F12, Code::F12),
        (KeyCode::Enter, Code::Enter),
        (KeyCode::Space, Code::Space),
        (KeyCode::KeyA, Code::KeyA),
        (KeyCode::KeyB, Code::KeyB),
        (KeyCode::KeyC, Code::KeyC),
        (KeyCode::KeyD, Code::KeyD),
        (KeyCode::KeyE, Code::KeyE),
        (KeyCode::KeyF, Code::KeyF),
        (KeyCode::KeyG, Code::KeyG),
        (KeyCode::KeyH, Code::KeyH),
        (KeyCode::KeyI, Code::KeyI),
        (KeyCode::KeyJ, Code::KeyJ),
        (KeyCode::KeyK, Code::KeyK),
        (KeyCode::KeyL, Code::KeyL),
        (KeyCode::KeyM, Code::KeyM),
        (KeyCode::KeyN, Code::KeyN),
        (KeyCode::KeyO, Code::KeyO),
        (KeyCode::KeyP, Code::KeyP),
        (KeyCode::KeyQ, Code::KeyQ),
        (KeyCode::KeyR, Code::KeyR),
        (KeyCode::KeyS, Code::KeyS),
        (KeyCode::KeyT, Code::KeyT),
        (KeyCode::KeyU, Code::KeyU),
        (KeyCode::KeyV, Code::KeyV),
        (KeyCode::KeyW, Code::KeyW),
        (KeyCode::KeyX, Code::KeyX),
        (KeyCode::KeyY, Code::KeyY),
        (KeyCode::KeyZ, Code::KeyZ),
    ]
}

#[test]
fn function_keys_are_read() {
    assert_eq!(parse_hotkey("F1"), KeyCode::F1);
    assert_eq!(parse_hotkey("F2"), KeyCode::F2);
    assert_eq!(parse_hotkey("F3"), KeyCode::F3);
    assert_eq!(parse_hotkey("F4"), KeyCode::F4);
    assert_eq!(parse_hotkey("F5"), KeyCode::F5);
    assert_eq!(parse_hotkey("F6"), KeyCode::F6);
    assert_eq!(parse_hotkey("F7"), KeyCode::F7);
    assert_eq!(parse_hotkey("F8"), KeyCode::F8);
    assert_eq!(parse_hotkey("F9"), KeyCode::F9);
    assert_eq!(parse_hotkey("F10"), KeyCode::F10);
    assert_eq!(parse_hotkey("F11"), KeyCode::F11);
    assert_eq!(parse_hotkey("F12"), KeyCode::F12);
}

#[test]
fn named_keys_and_letters_are_read() {
    assert_eq!(parse_hotkey("ENTER"), KeyCode::Enter);
    assert_eq!(parse_hotkey("SPACE"), KeyCode::Space);
    assert_eq!(parse_hotkey("A"), KeyCode::KeyA);
    assert_eq!(parse_hotkey("M"), KeyCode::KeyM);
    assert_eq!(parse_hotkey("Z"), KeyCode::KeyZ);
}

#[test]
fn case_does_not_count() {
    assert_eq!(parse_hotkey("f1"), KeyCode::F1);
    assert_eq!(parse_hotkey("f12"), KeyCode::F12);
    assert_eq!(parse_hotkey("enter"), KeyCode::Enter);
    assert_eq!(parse_hotkey("Space"), KeyCode::Space);
    assert_eq!(parse_hotkey("q"), KeyCode::KeyQ);
}

#[test]
fn white_space_around_the_text_does_not_count() {
    assert_eq!(parse_hotkey("  F5"), KeyCode::F5);
    assert_eq!(parse_hotkey("F5 \t\n"), KeyCode::F5);
    assert_eq!(parse_hotkey(" \u{a0}\u{3000}x\u{2003} "), KeyCode::KeyX);
    assert_eq!(parse_hotkey(" enter "), KeyCode::Enter);
    assert_eq!(parse_hotkey("F 5"), KeyCode::F3);
}

#[test]
fn unknown_text_stands_for_f3() {
    assert_eq!(parse_hotkey(""), KeyCode::F3);
    assert_eq!(parse_hotkey("   "), KeyCode::F3);
    assert_eq!(parse_hotkey("F13"), KeyCode::F3);
    assert_eq!(parse_hotkey("F0"), KeyCode::F3);
    assert_eq!(parse_hotkey("1"), KeyCode::F3);
    assert_eq!(parse_hotkey("AB"), KeyCode::F3);
    assert_eq!(parse_hotkey("ESCAPE"), KeyCode::F3);
    assert_eq!(parse_hotkey("KeyA"), KeyCode::F3);
    assert_eq!(parse_hotkey("ctrl+a"), KeyCode::F3);
    assert_eq!(parse_hotkey("\u{e9}"), KeyCode::F3);
    assert_eq!(parse_hotkey("\u{df}"), KeyCode::F3);
}

#[test]
fn upper_case_is_taken_of_every_letter() {
    assert_eq!(parse_hotkey("\u{17f}"), KeyCode::KeyS);
    assert_eq!(parse_hotkey("\u{131}"), KeyCode::KeyI);
}

#[test]
fn names_are_matched_exactly() {
    assert_eq!(key_for_name("F7"), KeyCode::F7);
    assert_eq!(key_for_name("f7"), KeyCode::F3);
    assert_eq!(key_for_name(" F7"), KeyCode::F3);
    assert_eq!(key_for_name("ENTER"), KeyCode::Enter);
    assert_eq!(key_for_name("Enter"), KeyCode::F3);
    assert_eq!(key_for_name("SPACE"), KeyCode::Space);
    assert_eq!(key_for_name("K"), KeyCode::KeyK);
    assert_eq!(key_for_name("k"), KeyCode::F3);
    assert_eq!(key_for_name("\u{c9}"), KeyCode::F3);
    assert_eq!(key_for_name(""), KeyCode::F3);
}

#[test]
fn letters_give_their_keys() {
    let letters = "ABCDEFGHIJKLMNOPQRSTUVWXYZ";
    let keys = all_keys();
    for (i, c) in letters.chars().enumerate() {
        assert_eq!(key_for_letter(c), Some(keys[14 + i].0));
        assert_eq!(key_for_letter(c.to_ascii_lowercase()), None);
    }
    assert_eq!(key_for_letter('1'), None);
    assert_eq!(key_for_letter(' '), None);
}

#[test]
fn same_text_compares_characters() {
    assert!(same_text("", ""));
    assert!(same_text("F1", "F1"));
    assert!(!same_text("F1", "F2"));
    assert!(!same_text("F1", "F10"));
    assert!(!same_text("F10", "F1"));
    assert!(same_text("\u{e9}t\u{e9}", "\u{e9}t\u{e9}"));
    assert!(!same_text("\u{e9}", "e"));
}

#[test]
fn code_names_are_those_of_the_key_codes() {
    for (key, code) in all_keys() {
        assert_eq!(code_name(key), code.to_string());
    }
}

#[test]
fn hotkey_id_is_the_id_of_the_bare_key() {
    for (key, code) in all_keys() {
        assert_eq!(hotkey_id(key), Some(HotKey::new(None, code).id()));
    }
}

#[test]
fn hotkey_ids_tell_the_keys_apart() {
    let keys = all_keys();
    for (i, (a, _)) in keys.iter().enumerate() {
        for (b, _) in keys.iter().skip(i + 1) {
            assert_ne!(hotkey_id(*a), hotkey_id(*b));
        }
    }
}

#[test]
fn only_a_release_counts() {
    assert_eq!(action_for(7, false, Some(7), Some(8), Some(9)), HotkeyAction::Ignore);
    assert_eq!(action_for(8, false, Some(7), Some(8), Some(9)), HotkeyAction::Ignore);
    assert_eq!(action_for(9, false, Some(7), Some(8), Some(9)), HotkeyAction::Ignore);
}

#[test]
fn release_of_a_bound_key_gives_its_action() {
    assert_eq!(action_for(7, true, Some(7), Some(8), Some(9)), HotkeyAction::ToggleCaptureBox);
    assert_eq!(action_for(8, true, Some(7), Some(8), Some(9)), HotkeyAction::ToggleActive);
    assert_eq!(action_for(9, true, Some(7), Some(8), Some(9)), HotkeyAction::Exit);
    assert_eq!(action_for(10, true, Some(7), Some(8), Some(9)), HotkeyAction::Ignore);
    assert_eq!(action_for(0, true, None, None, None), HotkeyAction::Ignore);
}

#[test]
fn first_binding_wins_where_two_share_a_key() {
    assert_eq!(action_for(7, true, Some(7), Some(7), Some(7)), HotkeyAction::ToggleCaptureBox);
    assert_eq!(action_for(7, true, None, Some(7), Some(7)), HotkeyAction::ToggleActive);
    assert_eq!(action_for(7, true, Some(1), Some(7), Some(7)), HotkeyAction::ToggleActive);
    assert_eq!(action_for(7, true, Some(1), None, Some(7)), HotkeyAction::Exit);
}

#[test]
fn event_is_matched_against_the_configured_texts() {
    let f1 = HotKey::new(None, Code::F1).id();
    let f2 = HotKey::new(None, Code::F2).id();
    let f3 = HotKey::new(None, Code::F3).id();
    let q = HotKey::new(None, Code::KeyQ).id();
    assert_eq!(on_hotkey(f1, true, "F1", "f2", " q "), HotkeyAction::ToggleCaptureBox);
    assert_eq!(on_hotkey(f2, true, "F1", "f2", " q "), HotkeyAction::ToggleActive);
    assert_eq!(on_hotkey(q, true, "F1", "f2", " q "), HotkeyAction::Exit);
    assert_eq!(on_hotkey(f3, true, "F1", "f2", " q "), HotkeyAction::Ignore);
    assert_eq!(on_hotkey(f1, false, "F1", "f2", " q "), HotkeyAction::Ignore);
    assert_eq!(on_hotkey(f3, true, "F1", "nonsense", "q"), HotkeyAction::ToggleActive);
    assert_eq!(on_hotkey(f3, true, "", "F3", "F3"), HotkeyAction::ToggleCaptureBox);
}

#[test]
fn bound_ids_are_those_of_the_parsed_keys() {
    let ids = BoundIds::resolve(" f1", "Enter", "z ");
    assert_eq!(
        ids,
        BoundIds {
            toggle_box: Some(HotKey::new(None, Code::F1).id()),
            toggle_action: Some(HotKey::new(None, Code::Enter).id()),
            exit_app: Some(HotKey::new(None, Code::KeyZ).id()),
        }
    );
    let fallback = BoundIds::resolve("", "?", "F33");
    let f3 = Some(HotKey::new(None, Code::F3).id());
    assert_eq!(fallback, BoundIds { toggle_box: f3, toggle_action: f3, exit_app: f3 });
}

#[test]
fn bound_ids_decide_as_the_texts_do() {
    let ids = BoundIds::resolve("F1", "f2", " q ");
    let events = [
        HotKey::new(None, Code::F1).id(),
        HotKey::new(None, Code::F2).id(),
        HotKey::new(None, Code::F3).id(),
        HotKey::new(None, Code::KeyQ).id(),
        0,
        u32::MAX,
    ];
    for id in events {
        for released in [false, true] {
            assert_eq!(ids.action(id, released), on_hotkey(id, released, "F1", "f2", " q "));
        }
    }
    assert_eq!(ids.action(events[0], true), HotkeyAction::ToggleCaptureBox);
    assert_eq!(ids.action(events[1], true), HotkeyAction::ToggleActive);
    assert_eq!(ids.action(events[3], true), HotkeyAction::Exit);
    assert_eq!(ids.action(events[2], true), HotkeyAction::Ignore);
    assert_eq!(ids.action(events[0], false), HotkeyAction::Ignore);
}

#[test]
fn actions_change_the_shell() {
    let mut shell = ShellState { show_capture_box: false, active: false };
    assert!(!shell.apply(HotkeyAction::ToggleCaptureBox));
    assert_eq!(shell, ShellState { show_capture_box: true, active: false });
    assert!(!shell.apply(HotkeyAction::ToggleActive));
    assert_eq!(shell, ShellState { show_capture_box: true, active: true });
    assert!(!shell.apply(HotkeyAction::Ignore));
    assert_eq!(shell, ShellState { show_capture_box: true, active: true });
    assert!(shell.apply(HotkeyAction::Exit));
    assert_eq!(shell, ShellState { show_capture_box: true, active: true });
    assert!(!shell.apply(HotkeyAction::ToggleCaptureBox));
    assert!(!shell.apply(HotkeyAction::ToggleActive));
    assert_eq!(shell, ShellState { show_capture_box: false, active: false });
}

#[test]
fn status_texts() {
    assert_eq!(status_message(true), "Status: Active");
    assert_eq!(status_message(false), "Status: Inactive");
    assert_eq!(overlay_label(true), "AutoShake: Active");
    assert_eq!(overlay_label(false), "AutoShake: Paused");
}
