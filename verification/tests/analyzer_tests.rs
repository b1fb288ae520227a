use key_logger::arrows::{generate_horizontal_candidates, generate_t_shape_candidates, ArrowPlacement};
use key_logger::baseline::{baseline_evaluation_places, baseline_layout};
use key_logger::colors;
use key_logger::config::{Config, SolverConfig, V2Config};
use key_logger::csv_reader::{parse_count_value, read_key_freq_from_reader, KeyFreq};
use key_logger::error::KbOptError;
use key_logger::geometry::{
    extract_free_cell_intervals, finger_from_string, finger_from_x, finger_to_string, CellId,
    Finger, Geometry, GeometryName, PlacementType,
};
use key_logger::keys::{
    all_movable_keys, parse_key_label, str_to_keyid, ArrowClusterId, ArrowKey, DigitClusterId,
    KeyId, LetterKey, ParseOptions, SymbolKey,
};
use key_logger::model::{
    build_solution, count_key_placement_differences, create_decision_variables,
    key_uniqueness_groups, non_overlap_constraints, precompute_key_slots,
};
use key_logger::opt_config::{advanced_cluster_config, advanced_row_flexibility, TimedExecution};
use key_logger::text::IntErrorKind;
use key_logger::v2::{get_layer_candidate_keys, is_modifier, DigitClusterConfig};
use key_logger::vis;

fn config(geometry: &str, version: &str, rows: usize, include_digits: bool) -> Config {
    Config {
        solver: SolverConfig {
            version: version.to_string(),
            output_dir: "figs".to_string(),
            geometry: geometry.to_string(),
            csv_dir: "csv".to_string(),
            include_fkeys: false,
            include_digits,
            max_rows: rows,
            align_left_edge: false,
            align_right_edge: false,
        },
        v1: None,
        v2: None,
        v3: None,
    }
}

#[test]
fn test_digit_cluster_config_default() {
    let config = DigitClusterConfig::default();
    assert!(!config.enable_digit_cluster);
    assert!(config.enforce_order);
    assert_eq!(config.allowed_rows, vec![0, 1]);
}

#[test]
fn finger_names_round_trip() {
    let all = [
        Finger::LPinky,
        Finger::LRing,
        Finger::LMiddle,
        Finger::LIndex,
        Finger::LThumb,
        Finger::RThumb,
        Finger::RIndex,
        Finger::RMiddle,
        Finger::RRing,
        Finger::RPinky,
    ];
    for f in all {
        assert_eq!(finger_from_string(finger_to_string(&f)), Some(f));
    }
    assert_eq!(finger_from_string("Thumb"), None);
    assert_eq!(finger_from_string("lthumb"), None);
}

#[test]
fn fingers_by_column() {
    assert_eq!(finger_from_x(0), Finger::LPinky);
    assert_eq!(finger_from_x(23), Finger::LPinky);
    assert_eq!(finger_from_x(24), Finger::LRing);
    assert_eq!(finger_from_x(31), Finger::LMiddle);
    assert_eq!(finger_from_x(39), Finger::LIndex);
    assert_eq!(finger_from_x(40), Finger::RIndex);
    assert_eq!(finger_from_x(48), Finger::RMiddle);
    assert_eq!(finger_from_x(55), Finger::RRing);
    assert_eq!(finger_from_x(56), Finger::RPinky);
    assert_eq!(finger_from_x(79), Finger::RPinky);
}

#[test]
fn ortho_grid_reserves_letters_and_digits() {
    let g = Geometry::build(&config("ortho", "v1", 6, false)).unwrap();
    assert_eq!(g.name, GeometryName::Ortho);
    assert_eq!(g.max_layers, 1);
    assert_eq!(g.cells.len(), 6);
    assert!(g.cells.iter().all(|row| row.len() == 80));
    // the bottom letter row covers 7 keys from column 20
    assert!(!g.cells[1][19].occupied);
    assert!(g.cells[1][20].occupied);
    assert!(g.cells[1][47].occupied);
    assert!(!g.cells[1][48].occupied);
    // the number row is reserved when the digits are not placed
    assert!(g.cells[4][20].occupied);
    assert!(g.cells[4][59].occupied);
    assert!(!g.cells[4][60].occupied);
    assert_eq!(g.key_placements.len(), 7 + 9 + 10 + 10);
    let z = g.key_placements[0];
    assert_eq!(z.key_id, Some(KeyId::Letter(LetterKey::Z)));
    assert_eq!((z.row, z.col, z.width_cells), (1, 20, 4));
    assert_eq!(z.placement_type, PlacementType::Fixed);
    let zero = g.key_placements[35];
    assert_eq!(zero.key_id, Some(KeyId::Digit(0)));
    assert_eq!((zero.row, zero.col), (4, 56));
    // thumbs serve the bottom row but for the little finger columns
    assert_eq!(g.cells[0][10].finger, Finger::LPinky);
    assert_eq!(g.cells[0][30].finger, Finger::LThumb);
    assert_eq!(g.cells[0][45].finger, Finger::RThumb);
    assert_eq!(g.cells[0][70].finger, Finger::RPinky);
    assert_eq!(g.cells[2][30].finger, Finger::LMiddle);
    assert_eq!(g.cells[3][5].id, CellId::new(3, 5));
    assert!(g.homes.contains(&(Finger::RThumb, CellId::new(0, 44))));
    assert!(g.homes.contains(&(Finger::LPinky, CellId::new(2, 20))));
}

#[test]
fn row_stagger_grid_shifts_the_rows() {
    let g = Geometry::build(&config("row-stagger", "v1", 4, true)).unwrap();
    assert_eq!(g.name, GeometryName::RowStagger);
    assert_eq!(g.cells.len(), 4);
    assert!(!g.cells[1][21].occupied);
    assert!(g.cells[1][22].occupied);
    assert!(g.cells[3][19].occupied);
    assert!(g.cells[3][58].occupied);
    assert!(!g.cells[3][59].occupied);
    assert_eq!(g.key_placements.len(), 26);
    assert!(g.homes.contains(&(Finger::RThumb, CellId::new(0, 56))));
}

#[test]
fn column_stagger_is_refused() {
    match Geometry::build(&config("column-stagger", "v1", 6, false)) {
        Err(KbOptError::ConfigError(m)) => {
            assert_eq!(m, "column-stagger geometry is not yet implemented.")
        }
        _ => panic!("expected a configuration error"),
    }
}

#[test]
fn layer_count_comes_from_the_version_settings() {
    let mut c = config("ortho", "v2", 6, true);
    c.v2 = Some(V2Config { max_layers: 3 });
    let g = Geometry::build(&c).unwrap();
    assert_eq!(g.max_layers, 3);
}

#[test]
fn free_runs_of_the_rows() {
    let g = Geometry::build(&config("ortho", "v1", 5, false)).unwrap();
    let runs = extract_free_cell_intervals(&g);
    assert_eq!(runs.len(), 5);
    assert_eq!(runs[0], vec![(0, 80)]);
    assert_eq!(runs[1], vec![(0, 20), (48, 32)]);
    assert_eq!(runs[2], vec![(0, 20), (56, 24)]);
    assert_eq!(runs[4], vec![(0, 20), (60, 20)]);
}

#[test]
fn arrow_positions_and_cells() {
    let h = ArrowPlacement::Horizontal { r: 0, i: 10 };
    assert_eq!(
        h.get_arrow_positions(),
        vec![
            (ArrowKey::Left, 0, 10),
            (ArrowKey::Down, 0, 14),
            (ArrowKey::Up, 0, 18),
            (ArrowKey::Right, 0, 22)
        ]
    );
    let cells = h.get_occupied_cells();
    assert_eq!(cells.len(), 16);
    assert_eq!(cells[0], (0, 10));
    assert_eq!(cells[15], (0, 25));
    let t = ArrowPlacement::TShape { r: 1, i: 4 };
    assert_eq!(
        t.get_arrow_positions(),
        vec![
            (ArrowKey::Left, 1, 4),
            (ArrowKey::Down, 1, 8),
            (ArrowKey::Right, 1, 12),
            (ArrowKey::Up, 2, 8)
        ]
    );
    let cells = t.get_occupied_cells();
    assert_eq!(cells.len(), 16);
    assert_eq!(cells[11], (1, 15));
    assert_eq!(cells[12], (2, 8));
    assert_eq!(cells[15], (2, 11));
}

#[test]
fn arrow_candidates_fit_in_free_cells() {
    let g = Geometry::build(&config("ortho", "v1", 4, true)).unwrap();
    let h = generate_horizontal_candidates(&g);
    // row 0: 65 places; rows 1..3: the free runs on both sides of the letters
    let row0 = h.iter().filter(|p| matches!(p, ArrowPlacement::Horizontal { r: 0, .. })).count();
    assert_eq!(row0, 80 - 16 + 1);
    assert!(h.contains(&ArrowPlacement::Horizontal { r: 1, i: 4 }));
    assert!(!h.contains(&ArrowPlacement::Horizontal { r: 1, i: 5 }));
    assert!(h.contains(&ArrowPlacement::Horizontal { r: 1, i: 48 }));
    let t = generate_t_shape_candidates(&g);
    assert!(t.contains(&ArrowPlacement::TShape { r: 0, i: 0 }));
    assert!(t.contains(&ArrowPlacement::TShape { r: 0, i: 12 }));
    assert!(!t.contains(&ArrowPlacement::TShape { r: 0, i: 13 }));
    assert!(t.iter().all(|p| !matches!(p, ArrowPlacement::TShape { r: 3, .. })));
}

#[test]
fn key_slots_and_model() {
    let g = Geometry::build(&config("ortho", "v1", 4, true)).unwrap();
    let slots = precompute_key_slots(&g).unwrap();
    assert!(!slots.is_empty());
    assert!(slots.iter().all(|s| s.width >= 4 && s.width <= 12));
    let first = slots[0];
    assert_eq!((first.row, first.start, first.width), (0, 0, 4));
    assert_eq!(first.finger, Finger::LPinky);
    let keys = vec![KeyId::Tab, KeyId::Space];
    let x = create_decision_variables(&keys, slots.len());
    assert_eq!(x.len(), 2 * slots.len());
    assert_eq!(x[0], (KeyId::Tab, 0));
    assert_eq!(x[slots.len()], (KeyId::Space, 0));
    let groups = key_uniqueness_groups(&keys, &x);
    assert_eq!(groups.len(), 2);
    assert_eq!(groups[1].1.len(), slots.len());
    let h = vec![ArrowPlacement::Horizontal { r: 0, i: 0 }];
    let t: Vec<ArrowPlacement> = vec![];
    let covers = non_overlap_constraints(&g, &slots, &x, &h, &t);
    assert_eq!(covers.len(), 4);
    assert_eq!(covers[0][0].horizontal, vec![0]);
    assert!(covers[0][16].horizontal.is_empty());
    assert!(covers[1][20].fixed);
    assert!(covers[1][20].keys.is_empty());
}

#[test]
fn a_solution_places_keys_and_arrows() {
    let mut g = Geometry::build(&config("ortho", "v1", 4, true)).unwrap();
    let before = g.clone();
    let slots = precompute_key_slots(&g).unwrap();
    let keys = vec![KeyId::Space];
    let x = create_decision_variables(&keys, slots.len());
    let mut x_chosen = vec![false; x.len()];
    x_chosen[0] = true;
    let h = vec![ArrowPlacement::Horizontal { r: 0, i: 20 }];
    let t: Vec<ArrowPlacement> = vec![];
    build_solution(&mut g, &slots, &x, &h, &t, &x_chosen, &vec![true], &vec![]);
    assert_eq!(g.key_placements.len(), 26 + 1 + 4);
    let space = g.key_placements[26];
    assert_eq!(space.key_id, Some(KeyId::Space));
    assert_eq!(space.placement_type, PlacementType::Optimized);
    assert_eq!((space.row, space.col, space.width_cells), (0, 0, 4));
    let up = g.key_placements[29];
    assert_eq!(up.key_id, Some(KeyId::Arrow(ArrowKey::Up)));
    assert_eq!((up.row, up.col), (0, 28));
    assert_eq!(count_key_placement_differences(&before, &g), 5);
    assert_eq!(count_key_placement_differences(&g, &before), 5);
    assert_eq!(count_key_placement_differences(&g, &g), 0);
}

#[test]
fn timed_execution_keeps_the_result() {
    let t = TimedExecution::time(|| 41 + 1);
    assert_eq!(t.result, 42);
}

#[test]
fn advanced_settings_defaults() {
    let c = advanced_cluster_config(&None);
    assert!(c.enable_arrows && c.enable_digits && c.enforce_digit_sequence);
    assert_eq!(c.allowed_rows, vec![0, 1]);
    let r = advanced_row_flexibility(&None);
    assert!(!r.enable_free_positioning && r.fixed_alphabet_rows && r.optimizable_symbols);
    assert_eq!((r.min_rows_from_home, r.max_rows_from_home), (1, 2));
}

#[test]
fn layer_candidates_leave_out_modifiers() {
    let c = config("ortho", "v1", 6, false);
    let keys = get_layer_candidate_keys(&c);
    assert!(keys.iter().all(|k| !is_modifier(k)));
    assert!(keys.contains(&KeyId::Space));
    assert!(keys.contains(&KeyId::Arrow(ArrowKey::Up)));
    assert!(!keys.contains(&KeyId::ShiftL));
    assert_eq!(keys.len(), all_movable_keys(&c).len() - 8);
}

#[test]
fn key_labels() {
    assert_eq!(parse_key_label(" Space "), Some(KeyId::Space));
    assert_eq!(parse_key_label("key7"), Some(KeyId::Digit(7)));
    assert_eq!(parse_key_label("A"), None);
    assert_eq!(parse_key_label("3"), Some(KeyId::Digit(3)));
    assert_eq!(parse_key_label("ArrowUp"), Some(KeyId::Arrow(ArrowKey::Up)));
    assert_eq!(parse_key_label("comma"), Some(KeyId::Symbol(SymbolKey::Comma)));
    assert_eq!(str_to_keyid("Q"), Some(KeyId::Letter(LetterKey::Q)));
    assert_eq!(str_to_keyid("q"), None);
}

#[test]
fn key_display_names() {
    assert_eq!(KeyId::Letter(LetterKey::G).to_display_string(), "G");
    assert_eq!(KeyId::Digit(4).to_display_string(), "4");
    assert_eq!(KeyId::Function(11).to_display_string(), "F11");
    assert_eq!(KeyId::Arrow(ArrowKey::Left).to_display_string(), "ArrowLeft");
    assert_eq!(KeyId::ShiftL.to_display_string(), "LeftShift");
    assert_eq!(KeyId::NumpadDigit(0).to_display_string(), "Numpad0");
}

#[test]
fn clusters_round_trip() {
    for a in ArrowClusterId::all() {
        assert_eq!(ArrowClusterId::from_key_id(a.to_key_id()), Some(a));
    }
    for (i, d) in DigitClusterId::sequence().iter().enumerate() {
        assert_eq!(DigitClusterId::from_key_id(d.to_key_id()), Some(*d));
        assert_eq!(d.sequence_index(), i);
    }
}

#[test]
fn frequency_file_is_read() {
    let text = b"Key,Count\nSpace,10\ncomma,3\nA,5\nspace,2\n";
    let kf = read_key_freq_from_reader(text, &ParseOptions::default()).unwrap();
    assert_eq!(kf.get_count(KeyId::Space), 12);
    assert_eq!(kf.get_count(KeyId::Symbol(SymbolKey::Comma)), 3);
    assert_eq!(kf.total(), 15);
    assert_eq!(kf.unique_keys(), 2);
}

#[test]
fn frequency_file_errors() {
    let strict = ParseOptions { strict_unknown_keys: true };
    match read_key_freq_from_reader(b"Name,Count\nSpace,1\n", &strict) {
        Err(KbOptError::CsvHeader(m)) => assert_eq!(m, "Expected 'Key' in column 0, found 'Name'"),
        _ => panic!("expected a header error"),
    }
    match read_key_freq_from_reader(b"Key,Count\nFoo,1\n", &strict) {
        Err(KbOptError::UnknownKey { row, label }) => {
            assert_eq!(row, 2);
            assert_eq!(label, "Foo");
        }
        _ => panic!("expected an unknown key"),
    }
    match read_key_freq_from_reader(b"Key,Count\nSpace,x\n", &strict) {
        Err(KbOptError::CountParse { row, value, source }) => {
            assert_eq!(row, 2);
            assert_eq!(value, "x");
            assert_eq!(source, IntErrorKind::InvalidDigit);
        }
        _ => panic!("expected a count error"),
    }
    match parse_count_value("", 7) {
        Err(KbOptError::CountParse { row, source, .. }) => {
            assert_eq!(row, 7);
            assert_eq!(source, IntErrorKind::Empty);
        }
        _ => panic!("expected an empty count"),
    }
}

#[test]
fn merged_frequencies_add_up() {
    let mut a = KeyFreq::from_counts(vec![(KeyId::Space, 3), (KeyId::Tab, 1)]);
    let b = KeyFreq::from_counts(vec![(KeyId::Space, 2), (KeyId::Enter, 4)]);
    a.merge(b);
    assert_eq!(a.get_count(KeyId::Space), 5);
    assert_eq!(a.get_count(KeyId::Enter), 4);
    assert_eq!(a.total(), 10);
    assert_eq!(a.unique_keys(), 3);
}

#[test]
fn colours_and_labels() {
    assert_eq!(colors::color_of(Finger::LIndex), "#b9ffb7");
    assert_eq!(colors::finger_label(Finger::RRing), "RR");
    assert_eq!(vis::finger_label(Finger::RRing), "Right Ring");
    let freqs = vec![("Space".to_string(), 1500u64), ("Tab".to_string(), 120u64)];
    assert_eq!(colors::get_key_color("Space", &freqs), "#ff6b6b");
    assert_eq!(colors::get_key_color("Tab", &freqs), "#48dbfb");
    assert_eq!(colors::get_key_color("Enter", &freqs), "#ddd");
    assert_eq!(vis::get_key_color("Enter", &freqs), "#f0f0f0");
    assert_eq!(vis::get_key_color("ArrowUp", &freqs), "#e0e0e0");
    assert_eq!(vis::get_key_color("Space", &freqs), "#ff6b6b");
}

#[test]
fn markup_escaping() {
    assert_eq!(colors::html_encode("a<b & 'c'"), "a&lt;b &amp; &#x27;c&#x27;");
    assert_eq!(vis::html_encode("\"x\">'"), "&quot;x&quot;&gt;&apos;");
    assert_eq!(colors::html_encode("plain"), "plain");
}

#[test]
fn image_colours_of_regions_and_keys() {
    assert_eq!(colors::region_color(Finger::LPinky), [255, 230, 230]);
    assert_eq!(colors::region_color(Finger::RPinky), [255, 230, 230]);
    assert_eq!(colors::region_color(Finger::LThumb), [230, 230, 255]);
    assert_eq!(colors::region_color(Finger::RThumb), [240, 230, 255]);
    assert_eq!(colors::key_fill_color(PlacementType::Fixed), None);
    assert_eq!(colors::key_fill_color(PlacementType::Optimized), Some([0, 100, 255]));
    assert_eq!(colors::key_fill_color(PlacementType::Arrow), Some([0, 200, 0]));
    assert_eq!(colors::key_fill_color(PlacementType::Digit), Some([0, 200, 0]));
}

#[test]
fn a_choice_that_meets_the_key_constraints_places_each_key_once() {
    let mut g = Geometry::build(&config("ortho", "v1", 4, true)).unwrap();
    let slots = precompute_key_slots(&g).unwrap();
    let keys = vec![KeyId::Tab, KeyId::Space, KeyId::Enter];
    let x = create_decision_variables(&keys, slots.len());
    let groups = key_uniqueness_groups(&keys, &x);
    let mut x_chosen = vec![false; x.len()];
    for (n, (_, vars)) in groups.iter().enumerate() {
        x_chosen[vars[n]] = true;
    }
    for (_, vars) in &groups {
        assert_eq!(vars.iter().filter(|&&j| x_chosen[j]).count(), 1);
    }
    build_solution(&mut g, &slots, &x, &vec![], &vec![], &x_chosen, &vec![], &vec![]);
    for (n, key) in keys.iter().enumerate() {
        let placed: Vec<_> = g.key_placements.iter().filter(|p| p.key_id == Some(*key)).collect();
        assert_eq!(placed.len(), 1);
        let slot = slots[n];
        assert_eq!((placed[0].row, placed[0].col, placed[0].width_cells), (slot.row, slot.start, slot.width));
    }
}

#[test]
fn merging_counts_does_not_depend_on_grouping_or_order() {
    let a = || KeyFreq::from_counts(vec![(KeyId::Space, 3), (KeyId::Tab, 1)]);
    let b = || KeyFreq::from_counts(vec![(KeyId::Space, 2), (KeyId::Enter, 4)]);
    let c = || KeyFreq::from_counts(vec![(KeyId::Enter, 5), (KeyId::Escape, 7)]);
    let mut left = a();
    left.merge(b());
    left.merge(c());
    let mut bc = b();
    bc.merge(c());
    let mut right = a();
    right.merge(bc);
    let mut reversed = c();
    reversed.merge(b());
    reversed.merge(a());
    for key in [KeyId::Space, KeyId::Tab, KeyId::Enter, KeyId::Escape, KeyId::Delete] {
        assert_eq!(left.get_count(key), right.get_count(key));
        assert_eq!(left.get_count(key), reversed.get_count(key));
    }
    assert_eq!(left.get_count(KeyId::Enter), 9);
    assert_eq!(left.total(), 22);
    let mut with_empty = a();
    with_empty.merge(KeyFreq::new());
    assert_eq!(with_empty.get_count(KeyId::Space), 3);
    assert_eq!(with_empty.total(), 4);
}

#[test]
fn differences_do_not_depend_on_the_order_of_the_layouts() {
    let base = Geometry::build(&config("ortho", "v1", 4, true)).unwrap();
    let slots = precompute_key_slots(&base).unwrap();
    let keys = vec![KeyId::Space, KeyId::Tab];
    let x = create_decision_variables(&keys, slots.len());
    let none: Vec<ArrowPlacement> = vec![];
    let mut first = base.clone();
    let mut chosen = vec![false; x.len()];
    chosen[0] = true;
    build_solution(&mut first, &slots, &x, &none, &none, &chosen, &vec![], &vec![]);
    let mut second = base.clone();
    let mut chosen = vec![false; x.len()];
    chosen[1] = true;
    chosen[slots.len() + 2] = true;
    build_solution(&mut second, &slots, &x, &none, &none, &chosen, &vec![], &vec![]);
    assert_eq!(count_key_placement_differences(&first, &second), 2);
    assert_eq!(count_key_placement_differences(&second, &first), 2);
    assert_eq!(count_key_placement_differences(&base, &second), 2);
    assert_eq!(count_key_placement_differences(&second, &base), 2);
}

#[test]
fn reference_layout_places_the_counted_keys() {
    let layout = baseline_layout();
    assert_eq!(layout.len(), 68);
    assert_eq!(layout[3].key_name, "space");
    assert_eq!(layout[3].width_cells, 25);
    let cfg = config("ortho", "v1", 4, false);
    let freqs = KeyFreq::from_counts(vec![
        (KeyId::Space, 10),
        (KeyId::Enter, 3),
        (KeyId::Digit(1), 2),
        (KeyId::ShiftL, 1),
        (KeyId::Symbol(SymbolKey::Comma), 0),
    ]);
    let places = baseline_evaluation_places(&cfg, &freqs);
    let got: Vec<(KeyId, usize, usize, usize, Finger, CellId)> = places
        .iter()
        .map(|p| (p.key, p.row, p.start_cell, p.width_cells, p.finger, p.home))
        .collect();
    assert_eq!(
        got,
        vec![
            (KeyId::Space, 0, 28, 25, Finger::RThumb, CellId::new(0, 44)),
            (KeyId::ShiftL, 1, 13, 9, Finger::LPinky, CellId::new(2, 20)),
            (KeyId::Symbol(SymbolKey::Comma), 1, 50, 4, Finger::RRing, CellId::new(2, 52)),
            (KeyId::Enter, 2, 64, 9, Finger::RPinky, CellId::new(2, 56)),
            (KeyId::Digit(1), 4, 17, 4, Finger::LPinky, CellId::new(2, 20)),
        ]
    );
    assert!(baseline_evaluation_places(&cfg, &KeyFreq::new()).is_empty());
    let only_zero = KeyFreq::from_counts(vec![(KeyId::Space, 0)]);
    assert!(baseline_evaluation_places(&cfg, &only_zero).is_empty());
}

#[test]
fn one_chosen_cluster_places_each_arrow_once() {
    let mut g = Geometry::build(&config("ortho", "v1", 4, true)).unwrap();
    let slots = precompute_key_slots(&g).unwrap();
    let keys = vec![KeyId::Space];
    let x = create_decision_variables(&keys, slots.len());
    let mut x_chosen = vec![false; x.len()];
    x_chosen[0] = true;
    let h = generate_horizontal_candidates(&g);
    let t = generate_t_shape_candidates(&g);
    assert!(!t.is_empty());
    let h_chosen = vec![false; h.len()];
    let mut t_chosen = vec![false; t.len()];
    t_chosen[0] = true;
    build_solution(&mut g, &slots, &x, &h, &t, &x_chosen, &h_chosen, &t_chosen);
    for a in [ArrowKey::Left, ArrowKey::Down, ArrowKey::Up, ArrowKey::Right] {
        let n = g.key_placements.iter().filter(|p| p.key_id == Some(KeyId::Arrow(a))).count();
        assert_eq!(n, 1);
    }
}

#[test]
fn label_reading_ignores_case_and_blanks() {
    for label in ["ArrowUp", "leftshift", "Period", "key7", "3", "A", "Backspace", "nonsense", ""] {
        let r = parse_key_label(label);
        assert_eq!(parse_key_label(&label.to_ascii_uppercase()), r);
        assert_eq!(parse_key_label(&label.to_ascii_lowercase()), r);
        assert_eq!(parse_key_label(&format!("  {}  ", label)), r);
        assert_eq!(parse_key_label(&format!("\t{}\n", label)), r);
    }
}

#[test]
fn shown_names_read_back() {
    let keys = [
        KeyId::Digit(0),
        KeyId::Digit(7),
        KeyId::Arrow(ArrowKey::Up),
        KeyId::Arrow(ArrowKey::Left),
        KeyId::Tab,
        KeyId::CapsLock,
        KeyId::ShiftL,
        KeyId::MetaR,
        KeyId::Symbol(SymbolKey::Minus),
        KeyId::Symbol(SymbolKey::Backslash),
        KeyId::Symbol(SymbolKey::Period),
    ];
    for k in keys {
        assert_eq!(parse_key_label(&k.to_display_string()), Some(k));
    }
    assert_eq!(KeyId::ShiftL.to_display_string(), "LeftShift");
    assert_eq!(KeyId::Arrow(ArrowKey::Up).to_display_string(), "ArrowUp");
    assert_eq!(parse_key_label(&KeyId::Symbol(SymbolKey::Quote).to_display_string()), None);
}

#[test]
fn arrow_positions_of_the_largest_columns() {
    let t = ArrowPlacement::TShape { r: 1, i: 0 };
    assert_eq!(
        t.get_arrow_positions(),
        vec![(ArrowKey::Left, 1, 0), (ArrowKey::Down, 1, 4), (ArrowKey::Right, 1, 8), (ArrowKey::Up, 2, 4)]
    );
    let far = usize::MAX - 12;
    let h = ArrowPlacement::Horizontal { r: 3, i: far };
    assert_eq!(
        h.get_arrow_positions(),
        vec![
            (ArrowKey::Left, 3, far),
            (ArrowKey::Down, 3, far + 4),
            (ArrowKey::Up, 3, far + 8),
            (ArrowKey::Right, 3, far + 12)
        ]
    );
}
