use termitype::variants::{CursorVariant, PickerVariant, ResultsVariant};

#[test]
fn test_cursor_variant() {
    let variant = CursorVariant::Beam;
    assert_eq!(variant.value(), "beam");
    assert_eq!(variant.label(), "Beam");
    assert_eq!(CursorVariant::name(), "cursor");
    assert_eq!(CursorVariant::default(), CursorVariant::Beam);
}

#[test]
fn test_picker_variant() {
    let variant = PickerVariant::Quake;
    assert_eq!(variant.value(), "quake");
    assert_eq!(variant.label(), "Quake");
    assert_eq!(PickerVariant::name(), "picker");
    assert_eq!(PickerVariant::default(), PickerVariant::Telescope);
}

#[test]
fn test_results_variant() {
    let variant = ResultsVariant::Graph;
    assert_eq!(variant.value(), "graph");
    assert_eq!(variant.label(), "Graph");
    assert_eq!(ResultsVariant::name(), "results");
    assert_eq!(ResultsVariant::default(), ResultsVariant::Graph);
}

#[test]
fn test_parsing() {
    assert_eq!("beam".parse::<CursorVariant>(), Ok(CursorVariant::Beam));
    assert_eq!("QUAKE".parse::<PickerVariant>(), Ok(PickerVariant::Quake));
    assert_eq!(
        "minimal".parse::<ResultsVariant>(),
        Ok(ResultsVariant::Minimal)
    );
    assert!("invalid".parse::<CursorVariant>().is_err());
}

#[test]
fn test_all_variants() {
    assert_eq!(CursorVariant::all().len(), 6);
    assert_eq!(PickerVariant::all().len(), 4);
    assert_eq!(ResultsVariant::all().len(), 3);
}

#[test]
fn variants_values_round_trip_through_parse() {
    for v in CursorVariant::all() {
        assert_eq!(v.value().parse::<CursorVariant>(), Ok(v));
    }
    for v in PickerVariant::all() {
        assert_eq!(v.value().parse::<PickerVariant>(), Ok(v));
    }
    for v in ResultsVariant::all() {
        assert_eq!(v.value().parse::<ResultsVariant>(), Ok(v));
    }
}

#[test]
fn variants_parse_ignores_case() {
    assert_eq!("Blinking-Underline".parse::<CursorVariant>(), Ok(CursorVariant::BlinkingUnderline));
    assert_eq!(CursorVariant::parse("BLOCK"), Ok(CursorVariant::Block));
    assert_eq!(ResultsVariant::parse("NeoFetch"), Ok(ResultsVariant::Neofetch));
    assert!(PickerVariant::parse("quake ").is_err());
    assert!(ResultsVariant::parse("").is_err());
}

#[test]
fn variants_from_lowercase_is_case_sensitive() {
    assert_eq!(PickerVariant::from_lowercase("ivy"), Ok(PickerVariant::Ivy));
    assert!(PickerVariant::from_lowercase("Ivy").is_err());
}

#[test]
fn variants_all_in_menu_order() {
    assert_eq!(
        CursorVariant::all(),
        vec![
            CursorVariant::Beam,
            CursorVariant::Block,
            CursorVariant::Underline,
            CursorVariant::BlinkingBeam,
            CursorVariant::BlinkingBlock,
            CursorVariant::BlinkingUnderline
        ]
    );
    assert_eq!(
        PickerVariant::all(),
        vec![PickerVariant::Quake, PickerVariant::Telescope, PickerVariant::Ivy, PickerVariant::Minimal]
    );
    assert_eq!(
        ResultsVariant::all(),
        vec![ResultsVariant::Graph, ResultsVariant::Neofetch, ResultsVariant::Minimal]
    );
    assert_eq!(CursorVariant::BlinkingBeam.label(), "Blinking Beam");
    assert_eq!(PickerVariant::Minimal.value(), "minimal");
}

#[test]
fn variants_upper_case_identifiers_parse() {
    for v in CursorVariant::all() {
        assert_eq!(v.value().to_uppercase().parse::<CursorVariant>(), Ok(v));
    }
    for v in PickerVariant::all() {
        assert_eq!(v.value().to_uppercase().parse::<PickerVariant>(), Ok(v));
    }
    for v in ResultsVariant::all() {
        assert_eq!(v.value().to_uppercase().parse::<ResultsVariant>(), Ok(v));
    }
}
