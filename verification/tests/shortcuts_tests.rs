use std::str::FromStr;

use gigaam::shortcuts::{
    get_toggle_recording_shortcut, handle_shortcut_event, init, load_saved_shortcut, parse_error,
    parse_shortcut, set_toggle_recording_shortcut, KeyState, RecordingShortcut, ShortcutKey,
    shortcut_to_register, SettingStep, ShortcutSetting, StoredValue, STORE_FILE, STORE_KEY, TRIGGER_DEBOUNCE,
};
use global_hotkey::hotkey::{Code, HotKey, Modifiers};

fn key(text: &str) -> ShortcutKey {
    parse_shortcut(text).unwrap()
}

fn with(text: &str) -> RecordingShortcut {
    let mut s = RecordingShortcut::new();
    let set = Some(text.to_string());
    set_toggle_recording_shortcut(&mut s, &set, Ok(()), Ok(()), Ok(())).unwrap();
    s
}

fn stored(text: &str) -> Option<StoredValue> {
    Some(StoredValue::Text(text.to_string()))
}

#[test]
fn key_combinations_are_those_of_the_hotkey_crate() {
    let h = HotKey::new(Some(Modifiers::SHIFT | Modifiers::ALT), Code::KeyR);
    let k = key("Shift+Alt+R");
    assert_eq!((k.mods, k.key, k.id), (h.mods.bits(), h.key as u32, h.id()));
    assert_eq!(key("alt + shift + keyr"), k);
    assert_ne!(key("Shift+R"), k);
    let e = HotKey::from_str("R+Shift").unwrap_err().to_string();
    assert_eq!(parse_error("R+Shift"), Some(e));
    assert_eq!(parse_error("F5"), None);
}

#[test]
fn there_is_no_shortcut_at_first() {
    let mut s = RecordingShortcut::new();
    assert_eq!(s.current(), None);
    assert!(!handle_shortcut_event(&mut s, key("F5"), KeyState::Pressed, 0));
}

#[test]
fn a_press_of_the_shortcut_toggles() {
    let mut s = with("Shift+Alt+R");
    assert!(handle_shortcut_event(&mut s, key("alt+shift+KeyR"), KeyState::Pressed, 1));
}

#[test]
fn releases_and_other_keys_do_not_toggle() {
    let mut s = with("Shift+Alt+R");
    assert!(!handle_shortcut_event(&mut s, key("Shift+Alt+R"), KeyState::Released, 1));
    assert!(!handle_shortcut_event(&mut s, key("Shift+R"), KeyState::Pressed, 1));
    assert!(handle_shortcut_event(&mut s, key("Shift+Alt+R"), KeyState::Pressed, 1));
}

#[test]
fn rapid_presses_toggle_once() {
    let mut s = with("F5");
    let k = key("F5");
    assert_eq!(TRIGGER_DEBOUNCE, 700_000_000);
    assert!(handle_shortcut_event(&mut s, k, KeyState::Pressed, 1_000));
    assert!(!handle_shortcut_event(&mut s, k, KeyState::Pressed, 1_000));
    assert!(!handle_shortcut_event(&mut s, k, KeyState::Pressed, 700_000_999));
    assert!(!handle_shortcut_event(&mut s, k, KeyState::Pressed, 500));
    assert!(handle_shortcut_event(&mut s, k, KeyState::Pressed, 700_001_000));
}

#[test]
fn an_invalid_shortcut_keeps_the_old_one() {
    let mut s = with("F5");
    let bad = Some("Shift+".to_string());
    let why = HotKey::from_str("Shift+").unwrap_err().to_string();
    let words = format!("Invalid shortcut 'Shift+': {}", why);
    assert_eq!(s.begin_setting(&bad).err(), Some(words.clone()));
    assert_eq!(s.current(), Some("F5".to_string()));
    let r = set_toggle_recording_shortcut(&mut s, &bad, Ok(()), Ok(()), Ok(()));
    assert_eq!(r, Err(words));
    assert_eq!(s.current(), Some("F5".to_string()));
}

#[test]
fn a_new_shortcut_replaces_the_old_one() {
    let mut s = with("F5");
    let new = Some("F6".to_string());
    set_toggle_recording_shortcut(&mut s, &new, Ok(()), Ok(()), Ok(())).unwrap();
    assert_eq!(s.current(), new);
    assert!(!handle_shortcut_event(&mut s, key("F5"), KeyState::Pressed, 0));
    assert!(handle_shortcut_event(&mut s, key("F6"), KeyState::Pressed, 0));
}

#[test]
fn a_shortcut_that_is_taken_leaves_none() {
    let mut s = with("F5");
    let new = Some("F6".to_string());
    let r = set_toggle_recording_shortcut(&mut s, &new, Err("taken".to_string()), Ok(()), Ok(()));
    assert_eq!(r, Err("Failed to register shortcut 'F6': taken".to_string()));
    assert_eq!(s.current(), None);
}

#[test]
fn store_failures_are_reported() {
    let mut s = with("F5");
    let new = Some("F6".to_string());
    let r = set_toggle_recording_shortcut(&mut s, &new, Ok(()), Err("gone".to_string()), Ok(()));
    assert_eq!(r, Err("Failed to access store: gone".to_string()));
    let r = set_toggle_recording_shortcut(&mut s, &new, Ok(()), Ok(()), Err("full".to_string()));
    assert_eq!(r, Err("Failed to persist shortcut: full".to_string()));
    assert_eq!(s.current(), new);
}

#[test]
fn none_or_blank_clears_the_shortcut() {
    for cleared in [None, Some(String::new()), Some(" \t".to_string())] {
        let mut s = with("F5");
        set_toggle_recording_shortcut(&mut s, &cleared, Ok(()), Ok(()), Ok(())).unwrap();
        assert_eq!(s.current(), None);
    }
}

#[test]
fn the_store_gives_the_shortcut_back() {
    assert_eq!(STORE_FILE, "recording_preferences.json");
    assert_eq!(STORE_KEY, "toggle_recording_shortcut");
    assert_eq!(load_saved_shortcut(stored("Shift+F5")), Some("Shift+F5".to_string()));
    assert_eq!(load_saved_shortcut(stored("  ")), None);
    assert_eq!(load_saved_shortcut(Some(StoredValue::Other)), None);
    assert_eq!(load_saved_shortcut(None), None);
    assert_eq!(get_toggle_recording_shortcut(stored(" F5")), Ok(Some(" F5".to_string())));
    assert_eq!(get_toggle_recording_shortcut(None), Ok(None));
}

#[test]
fn the_saved_shortcut_is_registered_at_the_start() {
    let mut s = RecordingShortcut::new();
    assert_eq!(init(&mut s, None, Ok(())), Ok(None));
    assert_eq!(init(&mut s, stored("F5"), Ok(())), Ok(Some("F5".to_string())));
    assert!(handle_shortcut_event(&mut s, key("F5"), KeyState::Pressed, 0));
    let mut s = RecordingShortcut::new();
    assert_eq!(
        init(&mut s, stored("F5"), Err("taken".to_string())),
        Err("Failed to register shortcut 'F5': taken".to_string())
    );
    let why = HotKey::from_str("nonsense").unwrap_err().to_string();
    assert_eq!(
        init(&mut s, stored("nonsense"), Ok(())),
        Err(format!("Invalid shortcut 'nonsense': {}", why))
    );
    assert_eq!(s.current(), None);
}

#[test]
fn a_set_shortcut_survives_a_restart() {
    let mut s = RecordingShortcut::new();
    let new = Some("Ctrl+Shift+R".to_string());
    set_toggle_recording_shortcut(&mut s, &new, Ok(()), Ok(()), Ok(())).unwrap();
    let kept = new.map(StoredValue::Text);
    let mut restarted = RecordingShortcut::new();
    init(&mut restarted, kept, Ok(())).unwrap();
    assert_eq!(restarted.current(), s.current());
}

#[test]
fn unregistering_gives_the_shortcut_up() {
    let mut s = with("F5");
    assert_eq!(s.unregister_current(), Some("F5".to_string()));
    assert_eq!(s.current(), None);
    assert_eq!(s.unregister_current(), None);
    s.register("F6", Ok(())).unwrap();
    assert_eq!(s.current(), Some("F6".to_string()));
}

/// The steps of a setting, each but the one named ending well, and what the
/// user is told in the end.
fn steps(
    s: &mut RecordingShortcut,
    mut setting: ShortcutSetting,
    failing: &str,
) -> (Vec<String>, Result<(), String>) {
    let mut taken = Vec::new();
    loop {
        let step = setting.next();
        if matches!(step, SettingStep::Done) {
            return (taken, Ok(()));
        }
        let step = format!("{:?}", step);
        let outcome = if step.starts_with(failing) { Err("no".to_string()) } else { Ok(()) };
        taken.push(step);
        if let Err(words) = setting.accept(s, outcome) {
            assert!(matches!(setting.next(), SettingStep::Done));
            return (taken, Err(words));
        }
    }
}

const UNREGISTER: &str = "Unregister(\"F5\")";
const REGISTER: &str = "Register(\"F6\")";
const SAVE: &str = "Save(Some(\"F6\"))";

#[test]
fn a_setting_takes_its_steps_in_order() {
    let mut s = with("F5");
    let setting = s.begin_setting(&Some("F6".to_string())).unwrap();
    let (taken, told) = steps(&mut s, setting, "none of them");
    assert_eq!(taken, [UNREGISTER, REGISTER, "OpenStore", SAVE]);
    assert_eq!((told, s.current()), (Ok(()), Some("F6".to_string())));
}

#[test]
fn an_old_shortcut_that_stays_does_not_matter() {
    let mut s = with("F5");
    let setting = s.begin_setting(&Some("F6".to_string())).unwrap();
    let (taken, told) = steps(&mut s, setting, "Unregister");
    assert_eq!(taken, [UNREGISTER, REGISTER, "OpenStore", SAVE]);
    assert_eq!(told, Ok(()));
}

#[test]
fn a_refused_registration_leaves_the_store_alone() {
    let mut s = with("F5");
    let setting = s.begin_setting(&Some("F6".to_string())).unwrap();
    let (taken, told) = steps(&mut s, setting, "Register");
    assert_eq!(taken, [UNREGISTER, REGISTER]);
    assert_eq!(told, Err("Failed to register shortcut 'F6': no".to_string()));
    assert_eq!(s.current(), None);
}

#[test]
fn a_store_that_does_not_open_is_not_written() {
    let mut s = RecordingShortcut::new();
    let setting = s.begin_setting(&Some("F6".to_string())).unwrap();
    let (taken, told) = steps(&mut s, setting, "OpenStore");
    assert_eq!(taken, [REGISTER, "OpenStore"]);
    assert_eq!(told, Err("Failed to access store: no".to_string()));
    let setting = s.begin_setting(&Some("F6".to_string())).unwrap();
    let (taken, told) = steps(&mut s, setting, "Save");
    assert_eq!(taken, ["Unregister(\"F6\")", REGISTER, "OpenStore", SAVE]);
    assert_eq!(told, Err("Failed to persist shortcut: no".to_string()));
}

#[test]
fn clearing_needs_no_registration() {
    let mut s = with("F5");
    let setting = s.begin_setting(&Some("  ".to_string())).unwrap();
    let (taken, told) = steps(&mut s, setting, "none of them");
    assert_eq!(taken, [UNREGISTER, "OpenStore", "Save(None)"]);
    assert_eq!((told, s.current()), (Ok(()), None));
    let setting = s.begin_setting(&None).unwrap();
    assert_eq!(steps(&mut s, setting, "none of them").0, ["OpenStore", "Save(None)"]);
}

#[test]
fn only_a_key_combination_is_registered_at_the_start() {
    assert_eq!(shortcut_to_register(&stored("F5")), Some("F5".to_string()));
    assert_eq!(shortcut_to_register(&stored("nonsense")), None);
    assert_eq!(shortcut_to_register(&stored(" ")), None);
    assert_eq!(shortcut_to_register(&Some(StoredValue::Other)), None);
    assert_eq!(shortcut_to_register(&None), None);
}
