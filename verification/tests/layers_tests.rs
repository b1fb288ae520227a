use key_logger::config::{Config, SolverConfig};
use key_logger::error::KbOptError;
use key_logger::geometry::{determine_finger_for_key, CustomKeyDef, Finger};
use key_logger::keys::{KeyId, SymbolKey};
use key_logger::layer_constraints::{generate_layer_constraints, Relation};
use key_logger::opt_config::{
    report_format, solver_for_version, validate_bigrams_config, validate_names, ReportFormat,
    SolverVersion,
};
use key_logger::csv_reader::KeyFreq;
use key_logger::v2::{
    create_layer_variables, get_layer_candidate_keys, get_layer_candidate_keys_with_frequencies,
    LayerConfig,
};

#[test]
fn layer_settings_from_rows() {
    let cfg = LayerConfig::from_config(true, &vec![1, 3, 4], None);
    assert!(cfg.enable_layers);
    assert_eq!(cfg.modifier_anchors, vec![30, 31, 40, 41]);
    assert_eq!(cfg.max_layers, 1);
    let cfg = LayerConfig::from_config(false, &vec![], Some(2));
    assert!(cfg.modifier_anchors.is_empty());
    assert_eq!(cfg.max_layers, 2);
    let d = LayerConfig::default();
    assert!(!d.enable_layers);
    assert_eq!(d.max_layers, 3);
}

#[test]
fn layer_variables_are_numbered_in_order() {
    let cfg = LayerConfig::from_config(true, &vec![3], Some(1));
    let mut next = 0usize;
    let lv = create_layer_variables(&mut next, &vec![KeyId::Space], 2, &cfg, &vec![KeyId::CtrlL]);
    assert_eq!(lv.modifier_placement_vars, vec![((KeyId::CtrlL, 0), 0), ((KeyId::CtrlL, 1), 1)]);
    assert_eq!(lv.q_vars, vec![((1, 30), 2), ((1, 31), 3)]);
    assert_eq!(lv.z_vars.len(), 4);
    assert_eq!(lv.z_vars[0], ((KeyId::Space, 1, 0, 30), 4));
    assert_eq!(lv.z_vars[3], ((KeyId::Space, 1, 1, 31), 7));
    assert_eq!(next, 8);
}

#[test]
fn layer_constraints_of_a_small_model() {
    let cfg = LayerConfig::from_config(true, &vec![3], Some(1));
    let mut next = 0usize;
    let keys = vec![KeyId::Space];
    let mods = vec![KeyId::CtrlL];
    let lv = create_layer_variables(&mut next, &keys, 2, &cfg, &mods);
    let base = vec![(KeyId::Space, next), (KeyId::Space, next + 1), (KeyId::Tab, next + 2)];
    let cs = generate_layer_constraints(&lv, &cfg, &mods, &keys, &base);
    assert_eq!(cs.len(), 10);
    assert_eq!(cs[0].terms, vec![(0, 1), (1, 1)]);
    assert_eq!((cs[0].relation, cs[0].rhs), (Relation::Eq, 1));
    assert_eq!(cs[1].terms, vec![(2, 1), (3, 1)]);
    assert_eq!((cs[1].relation, cs[1].rhs), (Relation::Le, 1));
    assert_eq!(cs[2].terms, vec![(4, 1), (2, -1)]);
    assert_eq!(cs[5].terms, vec![(7, 1), (3, -1)]);
    // each layer key placed once: its base placements and its layer places
    assert_eq!(cs[6].terms, vec![(8, 1), (9, 1), (4, 1), (5, 1), (6, 1), (7, 1)]);
    assert_eq!((cs[6].relation, cs[6].rhs), (Relation::Eq, 1));
    assert_eq!(cs[7].terms, vec![(2, 1)]);
    assert_eq!(cs[8].terms, vec![(3, 1)]);
    assert_eq!(cs[9].terms, vec![(4, 1), (5, 1), (6, 1), (7, 1), (2, -10), (3, -10)]);
    assert_eq!((cs[9].relation, cs[9].rhs), (Relation::Le, 0));
}

#[test]
fn a_key_stays_at_one_block_across_layers() {
    let cfg = LayerConfig::from_config(true, &vec![3], Some(2));
    let mut next = 0usize;
    let keys = vec![KeyId::Space];
    let mods: Vec<KeyId> = vec![];
    let lv = create_layer_variables(&mut next, &keys, 2, &cfg, &mods);
    let cs = generate_layer_constraints(&lv, &cfg, &mods, &keys, &vec![]);
    // the last two constraints: layer 1 block 0 with layer 2 block 1, and
    // layer 1 block 1 with layer 2 block 0
    let n = cs.len();
    let last = &cs[n - 1];
    assert_eq!(last.relation, Relation::Le);
    assert_eq!(last.rhs, 1);
    assert_eq!(last.terms.len(), 4);
    let z = &lv.z_vars;
    let var = |k: KeyId, l: usize, u: usize, m: usize| z.iter().find(|e| e.0 == (k, l, u, m)).unwrap().1;
    assert_eq!(
        last.terms,
        vec![
            (var(KeyId::Space, 1, 1, 30), 1),
            (var(KeyId::Space, 1, 1, 31), 1),
            (var(KeyId::Space, 2, 0, 30), 1),
            (var(KeyId::Space, 2, 0, 31), 1)
        ]
    );
}

#[test]
fn fingers_of_reference_keys() {
    let space = CustomKeyDef { key_name: "space", row: 0, start_cell_offset: -12, width_cells: 25 };
    assert_eq!(determine_finger_for_key(&space), Finger::RThumb);
    let ctrl = CustomKeyDef { key_name: "leftcontrol", row: 0, start_cell_offset: -27, width_cells: 5 };
    assert_eq!(determine_finger_for_key(&ctrl), Finger::LPinky);
    let f = CustomKeyDef { key_name: "F", row: 2, start_cell_offset: -8, width_cells: 4 };
    assert_eq!(determine_finger_for_key(&f), Finger::LIndex);
    let j = CustomKeyDef { key_name: "J", row: 2, start_cell_offset: 4, width_cells: 4 };
    assert_eq!(determine_finger_for_key(&j), Finger::RIndex);
    let semi = CustomKeyDef { key_name: ";", row: 2, start_cell_offset: 16, width_cells: 4 };
    assert_eq!(determine_finger_for_key(&semi), Finger::RPinky);
    let alt = CustomKeyDef { key_name: "leftalt", row: 0, start_cell_offset: -17, width_cells: 5 };
    assert_eq!(determine_finger_for_key(&alt), Finger::LThumb);
}

#[test]
fn optimizer_setting_names() {
    assert!(validate_names("v1_advanced", "ortho").is_ok());
    match validate_names("v9", "ortho") {
        Err(KbOptError::ConfigError(m)) => {
            assert_eq!(m, "Invalid solver version: v9. Must be 'v1', 'v1_advanced', or 'v2'")
        }
        _ => panic!("expected a version error"),
    }
    match validate_names("v2", "round") {
        Err(KbOptError::ConfigError(m)) => assert_eq!(
            m,
            "Invalid geometry: round. Must be 'row-stagger', 'ortho', or 'column-stagger'"
        ),
        _ => panic!("expected a geometry error"),
    }
    assert!(validate_bigrams_config(false, "anything").is_ok());
    assert!(validate_bigrams_config(true, "TopMLinearization").is_ok());
    match validate_bigrams_config(true, "Other") {
        Err(KbOptError::ConfigError(m)) => assert_eq!(
            m,
            "Invalid bigrams approach: Other. Must be 'DirectionalBucket' or 'TopMLinearization'"
        ),
        _ => panic!("expected a bigram error"),
    }
}

#[test]
fn report_formats_and_solver_versions() {
    assert_eq!(report_format("json").unwrap(), ReportFormat::Json);
    assert_eq!(report_format("csv").unwrap(), ReportFormat::Csv);
    match report_format("pdf") {
        Err(KbOptError::ConfigError(m)) => assert_eq!(m, "Unknown report format: pdf"),
        _ => panic!("expected a format error"),
    }
    assert_eq!(solver_for_version("v1").unwrap(), SolverVersion::V1);
    match solver_for_version("v3") {
        Err(KbOptError::ConfigError(m)) => assert_eq!(m, "v3 is not implemented yet"),
        _ => panic!("expected v3 to be refused"),
    }
}

#[test]
fn settings_are_validated() {
    let mut c = Config {
        solver: SolverConfig {
            version: "v1".to_string(),
            output_dir: "figs".to_string(),
            geometry: "ortho".to_string(),
            csv_dir: "csv".to_string(),
            include_fkeys: false,
            include_digits: false,
            max_rows: 6,
            align_left_edge: false,
            align_right_edge: false,
        },
        v1: None,
        v2: None,
        v3: None,
    };
    assert!(c.validate().is_ok());
    c.solver.max_rows = 7;
    match c.validate() {
        Err(KbOptError::ConfigError(m)) => {
            assert_eq!(m, "max_rows must be between 4 and 6 (currently), got 7")
        }
        _ => panic!("expected a row count error"),
    }
    c.solver.max_rows = 6;
    c.solver.version = "v2".to_string();
    match c.validate() {
        Err(KbOptError::ConfigError(m)) => assert_eq!(m, "v2 is under development"),
        _ => panic!("expected v2 to be refused"),
    }
}


#[test]
fn layer_candidates_by_frequency() {
    let mut cfg = Config::default();
    cfg.solver.include_digits = true;
    let all = get_layer_candidate_keys(&cfg);
    let freqs = KeyFreq::from_counts(vec![
        (KeyId::Space, 5),
        (KeyId::Enter, 9),
        (KeyId::Tab, 5),
        (KeyId::Symbol(SymbolKey::Comma), 1),
    ]);
    let top = get_layer_candidate_keys_with_frequencies(&cfg, &freqs);
    assert_eq!(top.len(), 10);
    assert_eq!(top[0], KeyId::Enter);
    let space_first = all.iter().position(|k| *k == KeyId::Space) < all.iter().position(|k| *k == KeyId::Tab);
    if space_first {
        assert_eq!((top[1], top[2]), (KeyId::Space, KeyId::Tab));
    } else {
        assert_eq!((top[1], top[2]), (KeyId::Tab, KeyId::Space));
    }
    assert_eq!(top[3], KeyId::Symbol(SymbolKey::Comma));
    let rest: Vec<KeyId> = all
        .iter()
        .copied()
        .filter(|k| freqs.get_count(*k) == 0)
        .take(6)
        .collect();
    assert_eq!(top[4..].to_vec(), rest);
    let none = get_layer_candidate_keys_with_frequencies(&cfg, &KeyFreq::new());
    assert_eq!(none, all.iter().copied().take(10).collect::<Vec<_>>());
}
