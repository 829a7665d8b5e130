use evdev::{AttributeSet, AttributeSetRef, KeyCode};
use mousekeys::config::Config;
use mousekeys::keyboards::{
    best_keyboard, calculate_keyboard_priority, find_all_keyboards, first_event_node, is_event_node,
    is_virtual_device, keyboard_on, no_keyboard_message, virtual_keyboard_name, virtual_mouse_name,
    KeyboardCandidate, ProbedDevice,
};
use mousekeys::keys::numpad_keys;
use mousekeys::watch::{
    generate_keyboard_list_signature, is_better_keyboard, keyboard_report,
    report_keyboards_if_changed, review_scan, scan_due, switch_message,
};

fn keys(codes: &[KeyCode]) -> AttributeSet<KeyCode> {
    codes.iter().collect()
}

fn basic() -> AttributeSet<KeyCode> {
    keys(&[KeyCode::KEY_A, KeyCode::KEY_NUMLOCK])
}

fn full() -> AttributeSet<KeyCode> {
    let mut set = basic();
    for code in numpad_keys() {
        set.insert(KeyCode(code));
    }
    set
}

fn device<'a>(
    path: &str,
    name: Option<&str>,
    keys: Option<&'a AttributeSetRef<KeyCode>>,
) -> ProbedDevice<'a> {
    ProbedDevice { path: path.to_string(), name: name.map(|n| n.to_string()), keys }
}

fn keyboard(path: &str, name: &str, priority: i32) -> KeyboardCandidate {
    KeyboardCandidate { path: path.to_string(), name: name.to_string(), priority }
}

#[test]
fn event_nodes_go_by_their_names() {
    assert!(is_event_node("event0"));
    assert!(is_event_node("event"));
    assert!(!is_event_node("mouse0"));
    assert!(!is_event_node("Event0"));
    assert!(!is_event_node(""));
    assert!(!is_event_node("my-event0"));
}

#[test]
fn the_first_event_node_is_found() {
    let names = |list: &[Option<&str>]| -> Vec<Option<String>> {
        list.iter().map(|n| n.map(|n| n.to_string())).collect()
    };
    let list = names(&[Some("mice"), None, Some("by-path"), Some("event7"), Some("event1")]);
    assert_eq!(first_event_node(&list), Some(3));
    assert_eq!(first_event_node(&names(&[Some("mice"), None])), None);
    assert_eq!(first_event_node(&vec![]), None);
}

#[test]
fn priorities() {
    let none = keys(&[]);
    let p = |name: &str, keys: &AttributeSetRef<KeyCode>| calculate_keyboard_priority(name, keys);
    assert_eq!(p("", &none), 0);
    assert_eq!(p("usb device", &none), 100);
    assert_eq!(p("external usb", &none), 100);
    assert_eq!(p("keyboard", &none), 50);
    assert_eq!(p("external keyboard", &none), 150);
    assert_eq!(p("laptop", &none), -50);
    assert_eq!(p("at translated set 2 keyboard", &none), 0);
    assert_eq!(p("atkbd built-in laptop", &none), -50);
    assert_eq!(p("usb keyboard of a laptop", &none), 100);
    assert_eq!(p("USB KEYBOARD", &none), 0);
    assert_eq!(p("", &keys(&[KeyCode::KEY_KP1])), 1);
    assert_eq!(p("", &keys(&[KeyCode::KEY_KP1, KeyCode::KEY_KP5])), 32);
    assert_eq!(p("", &basic()), 0);
    assert_eq!(p("", &full()), 65);
    assert_eq!(p("usb keyboard", &full()), 215);
    let mut almost = full();
    for code in [KeyCode::KEY_KP0, KeyCode::KEY_KPDOT, KeyCode::KEY_KPPLUS] {
        almost.remove(code);
    }
    assert_eq!(p("", &almost), 30 + 12 + 20);
    almost.remove(KeyCode::KEY_KPMINUS);
    assert_eq!(p("", &almost), 30 + 11);
}

#[test]
fn external_keyboards_come_before_built_in_ones() {
    let none = keys(&[]);
    assert!(
        calculate_keyboard_priority("usb", &none)
            > calculate_keyboard_priority("built-in keyboard", &full())
    );
}

#[test]
fn made_up_devices_are_known_by_name() {
    assert!(is_virtual_device("some virtual thing"));
    assert!(is_virtual_device("thrusty"));
    assert!(!is_virtual_device("usb keyboard"));
    assert!(!is_virtual_device("Virtual"));
}

#[test]
fn keyboards_are_told_from_other_devices() {
    let kb = full();
    let k = keyboard_on(&device("/dev/input/event3", Some("Acme USB Keyboard"), Some(&kb)));
    let k = k.unwrap();
    assert_eq!(k.path, "/dev/input/event3");
    assert_eq!(k.name, "Acme USB Keyboard");
    assert_eq!(k.priority, 215);
    assert!(keyboard_on(&device("p", Some("x"), None)).is_none());
    assert!(keyboard_on(&device("p", Some("x"), Some(&keys(&[])))).is_none());
    assert!(keyboard_on(&device("p", Some("x"), Some(&keys(&[KeyCode::KEY_A])))).is_none());
    assert!(keyboard_on(&device("p", Some("x"), Some(&keys(&[KeyCode::KEY_NUMLOCK])))).is_none());
    let unnamed = keyboard_on(&device("p", None, Some(&basic()))).unwrap();
    assert_eq!(unnamed.name, "Unknown");
    assert_eq!(unnamed.priority, 0);
}

#[test]
fn names_are_compared_in_lower_case() {
    let kb = basic();
    assert_eq!(keyboard_on(&device("p", Some("EXTERNAL"), Some(&kb))).unwrap().priority, 100);
    assert!(keyboard_on(&device("p", Some("VIRTUAL KEYBOARD"), Some(&kb))).is_none());
    assert!(keyboard_on(&device("p", Some("\u{c9}t\u{e9} RUST"), Some(&kb))).is_none());
    let kelvin = keyboard_on(&device("p", Some("\u{212a}EYBOARD"), Some(&kb))).unwrap();
    assert_eq!(kelvin.name, "\u{212a}EYBOARD");
    assert_eq!(kelvin.priority, 50);
}

#[test]
fn own_devices_are_passed_over() {
    assert_eq!(virtual_keyboard_name(), "Rust Virtual Keyboard");
    assert_eq!(virtual_mouse_name(), "Rust Virtual Mouse");
    let kb = full();
    assert!(keyboard_on(&device("p", Some(virtual_keyboard_name()), Some(&kb))).is_none());
    assert!(keyboard_on(&device("p", Some(virtual_mouse_name()), Some(&kb))).is_none());
}

#[test]
fn the_best_keyboards_come_first_and_equals_in_the_order_found() {
    let some = basic();
    let all = full();
    let mice = keys(&[KeyCode::BTN_LEFT]);
    let devices = vec![
        device("e0", Some("AT Translated Set 2 keyboard"), Some(&all)),
        device("e1", Some("Mouse"), Some(&mice)),
        device("e2", Some("first"), Some(&some)),
        device("e3", Some("usb one"), Some(&some)),
        device("e4", Some("second"), Some(&some)),
        device("e5", None, None),
        device("e6", Some("usb two"), Some(&some)),
        device("e7", Some("usb keyboard"), Some(&all)),
        device("e8", Some("Rust Virtual Keyboard"), Some(&all)),
    ];
    let found: Vec<(String, i32)> =
        find_all_keyboards(&devices).into_iter().map(|k| (k.path, k.priority)).collect();
    let expected = [("e7", 215), ("e3", 100), ("e6", 100), ("e0", 65), ("e2", 0), ("e4", 0)];
    assert_eq!(found.len(), expected.len());
    for (f, e) in found.iter().zip(expected) {
        assert_eq!((f.0.as_str(), f.1), e);
    }
    assert!(find_all_keyboards(&vec![]).is_empty());
    assert_eq!(best_keyboard(find_all_keyboards(&devices)).unwrap().path, "e7");
    assert!(best_keyboard(vec![]).is_none());
}

#[test]
fn copies_of_keyboards_are_alike() {
    let k = keyboard("p", "n", -3);
    let c = k.clone();
    assert_eq!((c.path, c.name, c.priority), (k.path, k.name, k.priority));
}

#[test]
fn signatures() {
    let list = vec![keyboard("/dev/input/event3", "a", 215), keyboard("/dev/input/event0", "b", -7)];
    assert_eq!(
        generate_keyboard_list_signature(&list),
        "/dev/input/event3:215|/dev/input/event0:-7"
    );
    assert_eq!(generate_keyboard_list_signature(&vec![]), "");
    assert_eq!(generate_keyboard_list_signature(&vec![keyboard("x", "y", 0)]), "x:0");
}

#[test]
fn the_same_places_have_the_same_signature_whatever_they_are_called() {
    let a = vec![keyboard("/a|b", "One", 1), keyboard(":", "Two", -2)];
    let b = vec![keyboard("/a|b", "Three", 1), keyboard(":", "Four", -2)];
    assert_eq!(generate_keyboard_list_signature(&a), generate_keyboard_list_signature(&b));
    assert_eq!(generate_keyboard_list_signature(&a), "/a|b:1|::-2");
}

#[test]
fn having_no_keyboard_is_put_in_words() {
    assert_eq!(no_keyboard_message(), "No suitable keyboard found");
}

#[test]
fn signatures_tell_lists_apart_but_not_names() {
    let s = |list: Vec<KeyboardCandidate>| generate_keyboard_list_signature(&list);
    let base = s(vec![keyboard("a", "n", 1), keyboard("b", "n", 2)]);
    assert_eq!(base, s(vec![keyboard("a", "other", 1), keyboard("b", "n", 2)]));
    assert_ne!(base, s(vec![keyboard("b", "n", 2), keyboard("a", "n", 1)]));
    assert_ne!(base, s(vec![keyboard("a", "n", 1)]));
    assert_ne!(base, s(vec![keyboard("a", "n", 1), keyboard("b", "n", 3)]));
    assert_ne!(base, s(vec![]));
    assert_eq!(base, s(vec![keyboard("a:1|b", "n", 2)]));
}

#[test]
fn reports() {
    assert_eq!(keyboard_report(&vec![]), vec!["No suitable keyboards found".to_string()]);
    let list = vec![keyboard("/p1", "One", 150), keyboard("/p2", "Two", -50)];
    assert_eq!(
        keyboard_report(&list),
        vec![
            "Available keyboards:".to_string(),
            "  0: One (/p1) - Priority: 150".to_string(),
            "  1: Two (/p2) - Priority: -50".to_string(),
            "Best keyboard: One (/p1) - Priority: 150".to_string(),
        ]
    );
}

#[test]
fn keyboards_are_reported_when_they_change() {
    let mut signature = String::new();
    assert!(report_keyboards_if_changed(&vec![], &mut signature).is_none());
    let list = vec![keyboard("/p1", "One", 150)];
    let told = report_keyboards_if_changed(&list, &mut signature).unwrap();
    assert_eq!(told, keyboard_report(&list));
    assert_eq!(signature, "/p1:150");
    assert!(report_keyboards_if_changed(&list, &mut signature).is_none());
    assert_eq!(signature, "/p1:150");
    let told = report_keyboards_if_changed(&vec![], &mut signature).unwrap();
    assert_eq!(told, vec!["No suitable keyboards found".to_string()]);
    assert_eq!(signature, "");
}

#[test]
fn what_counts_as_a_better_keyboard() {
    let current = "Mine".to_string();
    assert!(is_better_keyboard(&keyboard("p", "Mine", 11), &current, 10));
    assert!(is_better_keyboard(&keyboard("p", "Other", 10), &current, 10));
    assert!(!is_better_keyboard(&keyboard("p", "Mine", 10), &current, 10));
    assert!(!is_better_keyboard(&keyboard("p", "Other", 9), &current, 10));
}

#[test]
fn notices_of_a_better_keyboard() {
    let best = keyboard("/p", "Best", 150);
    let current = "Mine".to_string();
    assert_eq!(
        switch_message(&best, &current, -20, true),
        "Switching to better keyboard: Best (/p) - Priority: 150 (was: Mine - Priority: -20)"
    );
    assert_eq!(
        switch_message(&best, &current, -20, false),
        "Found better keyboard: Best (/p) - Priority: 150 (current: Mine - Priority: -20)"
    );
}

#[test]
fn scans_lead_to_better_keyboards() {
    let current = "Mine".to_string();
    let mut signature = String::new();

    let outcome = review_scan(vec![], &mut signature, &current, 10);
    assert!(outcome.report.is_none() && outcome.switch.is_none() && outcome.goes_on);

    let list = || vec![keyboard("/a", "Best", 20), keyboard("/b", "Mine", 10)];
    let outcome = review_scan(list(), &mut signature, &current, 10);
    assert_eq!(outcome.report, Some(keyboard_report(&list())));
    assert!(!outcome.goes_on);
    let (message, best) = outcome.switch.unwrap();
    assert_eq!(best.path, "/a");
    assert_eq!(message, switch_message(&best, &current, 10, true));

    let outcome = review_scan(list(), &mut signature, &current, 10);
    assert!(outcome.report.is_none());
    let (message, best) = outcome.switch.unwrap();
    assert_eq!(message, switch_message(&best, &current, 10, false));

    let outcome = review_scan(vec![keyboard("/b", "Mine", 10)], &mut signature, &current, 10);
    assert!(outcome.report.is_some() && outcome.switch.is_none() && outcome.goes_on);
}

#[test]
fn scans_are_due_after_the_interval() {
    let config = Config::default();
    assert!(!scan_due(2_999_999_999, &config));
    assert!(scan_due(3_000_000_000, &config));
    let mut config = Config::default();
    config.apply_line("keyboard_scan_interval = 18446744073709551615");
    assert!(!scan_due(u64::MAX as u128, &config));
}
