use key_logger::keylogger::{
    keycode_to_str, newly_pressed, summarize_statistics, total_fits, KeyCode,
};
use key_logger::keys::{parse_key_label, ArrowKey, KeyId, SymbolKey};
use key_logger::stats::{
    add_many, counts_fit, create_statistics, get_statistics_snapshot, sorted_rows, KeyStatistics,
};

fn add_key_press(stats: &mut KeyStatistics, key: &'static str) {
    add_many(stats, vec![key]).unwrap();
}

#[test]
fn stats_test_create_statistics() {
    let stats = create_statistics();
    let snapshot = get_statistics_snapshot(&stats).unwrap();
    assert!(snapshot.is_empty());
}

#[test]
fn test_create_statistics() {
    let stats = create_statistics();
    let snapshot = get_statistics_snapshot(&stats).unwrap();
    assert!(snapshot.is_empty());
}

#[test]
fn test_add_key_press() {
    let mut stats = create_statistics();

    add_key_press(&mut stats, "A");
    add_key_press(&mut stats, "A");
    add_key_press(&mut stats, "B");

    let snapshot = get_statistics_snapshot(&stats).unwrap();
    assert_eq!(snapshot.get("A"), Some(&2));
    assert_eq!(snapshot.get("B"), Some(&1));
}

#[test]
fn stats_test_add_key_press() {
    let mut stats = create_statistics();

    add_key_press(&mut stats, "A");
    add_key_press(&mut stats, "A");
    add_key_press(&mut stats, "B");

    let snapshot = get_statistics_snapshot(&stats).unwrap();
    assert_eq!(snapshot.get("A"), Some(&2));
    assert_eq!(snapshot.get("B"), Some(&1));
}

#[test]
fn test_add_many_function() {
    let mut stats = create_statistics();

    let keys = vec!["A", "B", "A", "C", "A"];
    add_many(&mut stats, keys).unwrap();

    let snapshot = get_statistics_snapshot(&stats).unwrap();
    assert_eq!(snapshot.get("A"), Some(&3));
    assert_eq!(snapshot.get("B"), Some(&1));
    assert_eq!(snapshot.get("C"), Some(&1));
}

#[test]
fn test_add_many_empty_iterator() {
    let mut stats = create_statistics();

    let keys: Vec<&'static str> = vec![];
    add_many(&mut stats, keys).unwrap();

    let snapshot = get_statistics_snapshot(&stats).unwrap();
    assert!(snapshot.is_empty());
}

#[test]
fn test_large_counts() {
    let mut stats = create_statistics();

    let large_keys: Vec<&'static str> = (0..10000).map(|_| "Space").collect();
    add_many(&mut stats, large_keys).unwrap();

    let snapshot = get_statistics_snapshot(&stats).unwrap();
    assert_eq!(snapshot.get("Space"), Some(&10000));
}

#[test]
fn test_special_characters_cross_platform() {
    let mut stats = create_statistics();

    let special_keys = vec![
        "Space",
        "Enter",
        "Tab",
        "Backspace",
        "Delete",
        "Escape",
        "LeftShift",
        "RightShift",
        "LeftControl",
        "RightControl",
        "LeftAlt",
        "RightAlt",
        "ArrowUp",
        "ArrowDown",
        "ArrowLeft",
        "ArrowRight",
        "Comma",
        "Period",
        "Semicolon",
        "Minus",
        "Equal",
        "LeftBracket",
        "RightBracket",
    ];

    add_many(&mut stats, special_keys.clone()).unwrap();

    let snapshot = get_statistics_snapshot(&stats).unwrap();

    for &key in &special_keys {
        assert_eq!(snapshot.get(key), Some(&1), "Key '{key}' was not recorded",);
    }

    assert_eq!(snapshot.len(), special_keys.len());
}

#[test]
fn test_statistics_capacity_handling() {
    let mut stats = create_statistics();

    let alphabet: Vec<&'static str> = (b'A'..=b'Z')
        .map(|c| match c {
            b'A' => "A",
            b'B' => "B",
            b'C' => "C",
            b'D' => "D",
            b'E' => "E",
            b'F' => "F",
            b'G' => "G",
            b'H' => "H",
            b'I' => "I",
            b'J' => "J",
            b'K' => "K",
            b'L' => "L",
            b'M' => "M",
            b'N' => "N",
            b'O' => "O",
            b'P' => "P",
            b'Q' => "Q",
            b'R' => "R",
            b'S' => "S",
            b'T' => "T",
            b'U' => "U",
            b'V' => "V",
            b'W' => "W",
            b'X' => "X",
            b'Y' => "Y",
            b'Z' => "Z",
            _ => "Unknown",
        })
        .collect();

    add_many(&mut stats, alphabet.clone()).unwrap();

    let snapshot = get_statistics_snapshot(&stats).unwrap();
    assert_eq!(snapshot.len(), 26);

    assert_eq!(snapshot.get("A"), Some(&1));
    assert_eq!(snapshot.get("Z"), Some(&1));
}

#[test]
fn test_memory_efficiency() {
    let mut stats = create_statistics();

    let test_key = "Space";
    add_key_press(&mut stats, test_key);

    let snapshot = get_statistics_snapshot(&stats).unwrap();

    for (key, _) in snapshot.iter() {
        if *key == "Space" {
            assert_eq!(key.as_ptr(), test_key.as_ptr());
            break;
        }
    }
}

#[test]
fn add_many_twice_adds_the_counts() {
    let mut stats = create_statistics();
    add_many(&mut stats, vec!["A", "B"]).unwrap();
    add_many(&mut stats, vec!["B", "C", "B"]).unwrap();
    assert_eq!(stats.get("A"), Some(&1));
    assert_eq!(stats.get("B"), Some(&3));
    assert_eq!(stats.get("C"), Some(&1));
    assert_eq!(stats.get("D"), None);
    assert_eq!(stats.len(), 3);
}

#[test]
fn snapshot_is_a_copy() {
    let mut stats = create_statistics();
    add_many(&mut stats, vec!["A"]).unwrap();
    let snapshot = get_statistics_snapshot(&stats).unwrap();
    add_many(&mut stats, vec!["A"]).unwrap();
    assert_eq!(snapshot.get("A"), Some(&1));
    assert_eq!(stats.get("A"), Some(&2));
}

#[test]
fn rows_are_sorted_by_count_then_name() {
    let mut stats = create_statistics();
    add_many(&mut stats, vec!["B", "A", "C", "C", "B", "Space", "Space", "Space"]).unwrap();
    let rows = sorted_rows(&stats);
    assert_eq!(rows, vec![("Space", 3), ("B", 2), ("C", 2), ("A", 1)]);
}

#[test]
fn summary_counts_and_top_ten() {
    let mut stats = create_statistics();
    let names = [
        "A", "B", "C", "D", "E", "F", "G", "H", "I", "J", "K", "L",
    ];
    let mut keys: Vec<&'static str> = Vec::new();
    for (i, n) in names.iter().enumerate() {
        for _ in 0..(i + 1) {
            keys.push(n);
        }
    }
    add_many(&mut stats, keys).unwrap();
    assert!(total_fits(&stats));
    let summary = summarize_statistics(&stats);
    assert_eq!(summary.total_keys, 78);
    assert_eq!(summary.unique_keys, 12);
    assert_eq!(summary.top_keys.len(), 10);
    assert_eq!(summary.top_keys[0], ("L", 12));
    assert_eq!(summary.top_keys[9], ("C", 3));
}

#[test]
fn summary_of_few_keys_lists_them_all() {
    let mut stats = create_statistics();
    add_many(&mut stats, vec!["X", "Y", "X"]).unwrap();
    let summary = summarize_statistics(&stats);
    assert_eq!(summary.total_keys, 3);
    assert_eq!(summary.unique_keys, 2);
    assert_eq!(summary.top_keys, vec![("X", 2), ("Y", 1)]);
}

#[test]
fn counts_fit_detects_an_overflow() {
    let mut stats = create_statistics();
    add_many(&mut stats, vec!["A"]).unwrap();
    assert!(counts_fit(&stats, &vec!["A", "A"]));
    assert!(counts_fit(&stats, &vec![]));
}

#[test]
fn key_names_of_codes() {
    assert_eq!(keycode_to_str(KeyCode::A), "A");
    assert_eq!(keycode_to_str(KeyCode::Key7), "7");
    assert_eq!(keycode_to_str(KeyCode::LShift), "LeftShift");
    assert_eq!(keycode_to_str(KeyCode::Dot), "Period");
    assert_eq!(keycode_to_str(KeyCode::BackSlash), "Backslash");
    assert_eq!(keycode_to_str(KeyCode::Up), "ArrowUp");
    assert_eq!(keycode_to_str(KeyCode::F5), "Unknown");
    assert_eq!(keycode_to_str(KeyCode::Apostrophe), "Unknown");
}

#[test]
fn newly_pressed_keys_are_those_not_held_before() {
    let prev = vec![KeyCode::A, KeyCode::LShift];
    let curr = vec![KeyCode::LShift, KeyCode::B, KeyCode::A, KeyCode::Space, KeyCode::B];
    assert_eq!(newly_pressed(&prev, &curr), vec!["B", "Space"]);
    assert_eq!(newly_pressed(&curr, &curr), Vec::<&str>::new());
    assert_eq!(newly_pressed(&vec![], &vec![KeyCode::F1, KeyCode::F2]), vec!["Unknown", "Unknown"]);
}

#[test]
fn logged_names_are_read_back_by_the_analyzer() {
    assert_eq!(parse_key_label(keycode_to_str(KeyCode::A)), None);
    assert_eq!(parse_key_label(keycode_to_str(KeyCode::Key7)), Some(KeyId::Digit(7)));
    assert_eq!(parse_key_label(keycode_to_str(KeyCode::Space)), Some(KeyId::Space));
    assert_eq!(parse_key_label(keycode_to_str(KeyCode::LShift)), Some(KeyId::ShiftL));
    assert_eq!(parse_key_label(keycode_to_str(KeyCode::RMeta)), Some(KeyId::MetaR));
    assert_eq!(parse_key_label(keycode_to_str(KeyCode::Up)), Some(KeyId::Arrow(ArrowKey::Up)));
    assert_eq!(parse_key_label(keycode_to_str(KeyCode::Dot)), Some(KeyId::Symbol(SymbolKey::Period)));
    assert_eq!(parse_key_label(keycode_to_str(KeyCode::Grave)), Some(KeyId::Symbol(SymbolKey::Backtick)));
    assert_eq!(parse_key_label(keycode_to_str(KeyCode::BackSlash)), Some(KeyId::Symbol(SymbolKey::Backslash)));
    assert_eq!(parse_key_label(keycode_to_str(KeyCode::F5)), None);
}

#[test]
fn counts_name_keys_only() {
    let all = [
        KeyCode::A, KeyCode::Key1, KeyCode::Space, KeyCode::LShift, KeyCode::Up, KeyCode::F3,
        KeyCode::Comma, KeyCode::Numpad4,
    ];
    let mut stats = create_statistics();
    let mut prev: Vec<KeyCode> = Vec::new();
    for step in 0..6 {
        let curr: Vec<KeyCode> = all.iter().copied().skip(step).step_by(2).collect();
        let names = newly_pressed(&prev, &curr);
        assert!(counts_fit(&stats, &names));
        add_many(&mut stats, names).unwrap();
        prev = curr;
    }
    let key_names: Vec<&str> = all.iter().map(|k| keycode_to_str(*k)).collect();
    for (name, _) in stats.iter() {
        assert!(key_names.contains(name));
    }
    assert!(stats.len() <= key_names.len());
}
