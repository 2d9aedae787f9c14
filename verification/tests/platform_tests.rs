use std::path::PathBuf;
use std::sync::atomic::AtomicBool;
use std::sync::mpsc;
use std::sync::Arc;

use typomorph::platform::{
    accepts_keyboard, activation_script, admit_listener, input_source_index, is_event_node,
    keeps_scanned_device, key_event, replacement_taps, virtual_keyboard_keys, KeySupport,
    KeyTap, MultiEvdevKeyboard, RawKeyEvent,
};

#[test]
fn raw_key_event_preserves_press_release_and_repeat_states() {
    assert_eq!(
        RawKeyEvent { keycode: 30, pressed: true, repeat: false, source: String::new(), timestamp_ms: 0 }.keycode,
        30
    );
    assert!(!RawKeyEvent { keycode: 30, pressed: false, repeat: true, source: String::new(), timestamp_ms: 0 }.pressed);
}

#[test]
fn platform_event_contract_is_stable_for_daemon_integration() {
    let event = RawKeyEvent {
        keycode: 28,
        pressed: true,
        repeat: false,
        source: "test-keyboard".to_string(),
        timestamp_ms: 0,
    };
    assert_eq!(event.keycode, 28);
    assert!(event.pressed);
    assert!(!event.repeat);
    assert_eq!(event.source, "test-keyboard");
}

#[test]
fn kernel_values_map_to_press_release_and_repeat() {
    let press = key_event(30, 1, "kbd".to_string(), 5);
    assert!(press.pressed && !press.repeat);
    let repeat = key_event(30, 2, "kbd".to_string(), 6);
    assert!(!repeat.pressed && repeat.repeat);
    let release = key_event(30, 0, "kbd".to_string(), 7);
    assert!(!release.pressed && !release.repeat);
    assert_eq!(release.timestamp_ms, 7);
}

#[test]
fn own_virtual_keyboard_is_never_read() {
    let keys = Some(KeySupport { key_a: true, space: true, enter: true });
    assert!(!accepts_keyboard("TypoMorph-Virtual-Keyboard", keys));
    assert!(!accepts_keyboard("my typomorph-virtual-keyboard 2", keys));
    assert!(accepts_keyboard("AT Translated Set 2 keyboard", keys));
}

#[test]
fn keyboards_need_one_of_the_marker_keys() {
    assert!(accepts_keyboard("receiver", Some(KeySupport { key_a: false, space: false, enter: true })));
    assert!(!accepts_keyboard("mouse", Some(KeySupport { key_a: false, space: false, enter: false })));
    assert!(!accepts_keyboard("lid switch", None));
}

#[test]
fn listeners_start_once_per_device_under_its_name() {
    let keys = Some(KeySupport { key_a: true, space: false, enter: false });
    assert_eq!(admit_listener(Some("kbd"), keys, false), Some("kbd".to_string()));
    assert_eq!(admit_listener(None, keys, false), Some("unnamed keyboard".to_string()));
    assert_eq!(admit_listener(Some("kbd"), keys, true), None);
    assert!(keeps_scanned_device(None, keys));
}

#[test]
fn only_event_nodes_are_scanned() {
    assert!(is_event_node(Some("event0")));
    assert!(is_event_node(Some("event12")));
    assert!(!is_event_node(Some("mouse0")));
    assert!(!is_event_node(Some("even")));
    assert!(!is_event_node(None));
}

#[test]
fn virtual_keyboard_registers_letters_and_editing_keys() {
    let keys = virtual_keyboard_keys();
    for code in [14u16, 57, 16, 25, 30, 38, 44, 50, 125, 42, 56] {
        assert!(keys.contains(&code), "{code}");
    }
    for code in [15u16, 26, 29, 39, 51, 58] {
        assert!(!keys.contains(&code), "{code}");
    }
}

#[test]
fn replacement_erases_every_typed_key_then_types_the_new_word() {
    let taps = replacement_taps(3, &[34, 35]);
    assert_eq!(
        taps,
        vec![
            KeyTap { keycode: 14, pause_ms: 15 },
            KeyTap { keycode: 14, pause_ms: 15 },
            KeyTap { keycode: 14, pause_ms: 15 },
            KeyTap { keycode: 34, pause_ms: 5 },
            KeyTap { keycode: 35, pause_ms: 5 },
        ]
    );
    assert!(replacement_taps(0, &[]).is_empty());
}

#[test]
fn gnome_input_source_choice_and_script() {
    assert_eq!(input_source_index("ru"), "1");
    assert_eq!(input_source_index("us"), "0");
    assert_eq!(
        activation_script("ru"),
        "global.display.get_input_source_manager().get_sources().forEach(s => { if (s.id == 'ru') s.activate(); })"
    );
    assert_eq!(
        activation_script("x'y"),
        "global.display.get_input_source_manager().get_sources().forEach(s => { if (s.id == 'x\\'y') s.activate(); })"
    );
}

#[test]
fn merged_keyboard_delivers_events_and_lists_devices() {
    let (sender, events) = mpsc::channel();
    let delivering = Arc::new(AtomicBool::new(true));
    let devices = vec![("kbd".to_string(), PathBuf::from("/dev/input/event3"))];
    let keyboard = MultiEvdevKeyboard::from_parts(devices.clone(), events, Arc::clone(&delivering));
    assert_eq!(keyboard.devices(), devices.as_slice());
    sender.send(key_event(30, 1, "kbd".to_string(), 1)).unwrap();
    assert_eq!(keyboard.recv().unwrap().keycode, 30);
    keyboard.suppress_delivery();
    assert!(!delivering.load(std::sync::atomic::Ordering::SeqCst));
    keyboard.resume_delivery();
    assert!(delivering.load(std::sync::atomic::Ordering::SeqCst));
    drop(sender);
    assert!(keyboard.recv().is_err());
}
