use bijoux::supplies::{
    create_item_and_validate, create_item_with_lowered_unit, determine_unit, entry_fields, lock_json,
    parse_quantity, process_entry, process_entry_with_lowered_unit, quantity_from_text, read_json, resolve_unit,
    validate_user_input, validate_with_lowered_unit, CostReading, CostSign, EntryOutcome, UnitOfMeasurment,
};

fn reading(cost: Result<f32, String>) -> Result<CostReading<f32>, String> {
    cost.map(|c| CostReading { value: c, sign: if c < 0.0 { CostSign::Negative } else { CostSign::NotNegative } })
}

fn read_cost(text: &str) -> Result<f32, String> {
    text.trim().parse::<f32>().map_err(|e| format!("Failed to parse cost: {}", e))
}

#[test]
fn quantity_ignores_surrounding_space() {
    assert_eq!(parse_quantity(" 12 "), Ok(12));
    assert_eq!(parse_quantity("\t-3\n"), Ok(-3));
    assert_eq!(parse_quantity("7"), Ok(7));
}

#[test]
fn quantity_errors_name_the_reason() {
    assert_eq!(parse_quantity("abc"), Err("Failed to parse quantity: invalid digit found in string".to_string()));
    assert_eq!(parse_quantity("   "), Err("Failed to parse quantity: cannot parse integer from empty string".to_string()));
    assert_eq!(parse_quantity("3000000000"), Err("Failed to parse quantity: number too large to fit in target type".to_string()));
    assert_eq!(parse_quantity("-3000000000"), Err("Failed to parse quantity: number too small to fit in target type".to_string()));
    assert_eq!(parse_quantity("1.5"), Err("Failed to parse quantity: invalid digit found in string".to_string()));
}

#[test]
fn quantity_matches_std_reading() {
    for text in [" 5 ", "x", "", "+9", "-2147483648", "2147483648", " 1 2 "].iter() {
        let expected = text.trim().parse::<i32>().map_err(|e| format!("Failed to parse quantity: {}", e));
        assert_eq!(parse_quantity(text), expected, "text {:?}", text);
    }
}

#[test]
fn quantity_from_trimmed_text_keeps_spaces_as_errors() {
    assert_eq!(quantity_from_text("4"), Ok(4));
    assert!(quantity_from_text(" 4").is_err());
}

#[test]
fn units_ignore_letter_case() {
    assert_eq!(determine_unit("yards"), Ok(UnitOfMeasurment::Yards));
    assert_eq!(determine_unit("YARDS"), Ok(UnitOfMeasurment::Yards));
    assert_eq!(determine_unit("Cms"), Ok(UnitOfMeasurment::Cms));
    assert_eq!(determine_unit("FeeT"), Ok(UnitOfMeasurment::Feet));
    assert_eq!(determine_unit("IN"), Ok(UnitOfMeasurment::Inches));
    assert_eq!(determine_unit("N/A"), Ok(UnitOfMeasurment::NotApplicable));
}

#[test]
fn unknown_units_are_refused_as_typed() {
    assert_eq!(determine_unit("count"), Err("unsupported unit: count".to_string()));
    assert_eq!(determine_unit("Inches"), Err("unsupported unit: Inches".to_string()));
    assert_eq!(determine_unit(" in"), Err("unsupported unit:  in".to_string()));
    assert_eq!(determine_unit(""), Err("unsupported unit: ".to_string()));
}

#[test]
fn resolve_unit_reports_the_typed_name() {
    assert_eq!(resolve_unit("feet", "FEET"), Ok(UnitOfMeasurment::Feet));
    assert_eq!(resolve_unit("meters", "Meters"), Err("unsupported unit: Meters".to_string()));
}

#[test]
fn validation_accepts_a_good_entry() {
    assert_eq!(validate_user_input("beads", &reading(read_cost("2.5")), "10", "in"), Ok(true));
    assert_eq!(validate_user_input("beads", &reading(read_cost("0")), "0", "n/a"), Ok(true));
}

#[test]
fn validation_reports_the_first_unreadable_field() {
    let bad_cost = &reading(read_cost("abc"));
    let cost_text = bad_cost.clone().unwrap_err();
    assert_eq!(validate_user_input("x", bad_cost, "zz", "meters"), Err(cost_text));
    assert_eq!(
        validate_user_input("x", &reading(read_cost("1")), "zz", "meters"),
        Err("Failed to parse quantity: invalid digit found in string".to_string())
    );
    assert_eq!(validate_user_input("x", &reading(read_cost("1")), "2", "meters"), Err("unsupported unit: meters".to_string()));
}

#[test]
fn validation_refuses_negative_values() {
    assert_eq!(validate_user_input("x", &reading(read_cost("-1")), "-2", "in"), Err("Cost cannot be negative.".to_string()));
    assert_eq!(validate_user_input("x", &reading(read_cost("1")), "-2", "in"), Err("Quantity cannot be negative.".to_string()));
    assert_eq!(validate_user_input("x", &reading(read_cost("-1")), "-2", "meters"), Err("unsupported unit: meters".to_string()));
}

#[test]
fn items_carry_the_values_read() {
    let item = create_item_and_validate("silver wire", reading(read_cost(" 12.5 ")), " 3 ", "Yards").unwrap();
    assert_eq!(item.name, "silver wire");
    assert_eq!(item.cost, 12.5f32);
    assert_eq!(item.quanity, 3);
    assert_eq!(item.unit, UnitOfMeasurment::Yards);
}

#[test]
fn item_creation_reports_the_first_unreadable_field() {
    let r = create_item_and_validate("x", reading(read_cost("nope")), "zz", "meters");
    assert_eq!(r.unwrap_err(), read_cost("nope").unwrap_err());
    let r = create_item_and_validate("x", reading(read_cost("1")), "zz", "meters");
    assert_eq!(r.unwrap_err(), "Failed to parse quantity: invalid digit found in string");
    let r = create_item_and_validate("x", reading(read_cost("1")), "1", "meters");
    assert_eq!(r.unwrap_err(), "unsupported unit: meters");
}

#[test]
fn item_creation_does_not_check_signs() {
    let item = create_item_and_validate("x", reading(read_cost("-4")), "-2", "cms").unwrap();
    assert_eq!(item.cost, -4.0f32);
    assert_eq!(item.quanity, -2);
}

#[test]
fn accepted_entries_always_make_items() {
    let entries = [("a", "1", "2", "in"), ("b", "0.5", "0", "N/A"), ("c", "3", "9", "FEET")];
    for (name, cost, quantity, unit) in entries.iter() {
        assert_eq!(validate_user_input(name, &reading(read_cost(cost)), quantity, unit), Ok(true));
        assert!(create_item_and_validate(name, reading(read_cost(cost)), quantity, unit).is_ok());
    }
}

#[test]
fn validation_never_answers_false() {
    let entries = [("a", "1", "2", "in"), ("b", "-1", "0", "in"), ("c", "x", "9", "feet"), ("d", "1", "-9", "feet")];
    for (name, cost, quantity, unit) in entries.iter() {
        assert_ne!(validate_user_input(name, &reading(read_cost(cost)), quantity, unit), Ok(false));
    }
}

#[test]
fn entry_lines_split_into_four_trimmed_fields() {
    assert_eq!(entry_fields("  beads, 2.5 , 10 ,in \n"), Some(vec!["beads", "2.5", "10", "in"]));
    assert_eq!(entry_fields(",,,"), Some(vec!["", "", "", ""]));
    assert_eq!(entry_fields("a,b,c"), None);
    assert_eq!(entry_fields("a,b,c,d,e"), None);
    assert_eq!(entry_fields(""), None);
}

#[test]
fn stored_entry_hooks_do_nothing() {
    lock_json();
    read_json();
}

#[test]
fn entries_are_validated_before_items_are_made() {
    match process_entry("beads", reading(read_cost("2.5")), "10", "IN") {
        EntryOutcome::Created(item) => {
            assert_eq!(item.name, "beads");
            assert_eq!(item.cost, 2.5f32);
            assert_eq!(item.quanity, 10);
            assert_eq!(item.unit, UnitOfMeasurment::Inches);
        }
        _ => panic!("expected an item"),
    }
    match process_entry("beads", reading(read_cost("-2.5")), "10", "in") {
        EntryOutcome::Rejected(e) => assert_eq!(e, "Cost cannot be negative."),
        _ => panic!("expected a refusal"),
    }
    match process_entry("beads", reading(read_cost("x")), "10", "in") {
        EntryOutcome::Rejected(e) => assert_eq!(e, read_cost("x").unwrap_err()),
        _ => panic!("expected a refusal"),
    }
}

#[test]
fn entries_with_a_given_lowercase_unit() {
    let cost = || reading(read_cost("3"));
    assert_eq!(validate_with_lowered_unit("cord", &cost(), "2", "CMS", "cms"), Ok(true));
    assert_eq!(
        validate_with_lowered_unit("cord", &cost(), "2", "Meters", "meters"),
        Err("unsupported unit: Meters".to_string())
    );
    let item = create_item_with_lowered_unit("cord", cost(), "2", "CMS", "cms").unwrap();
    assert_eq!((item.quanity, item.unit, item.cost), (2, UnitOfMeasurment::Cms, 3.0f32));
    match process_entry_with_lowered_unit("cord", cost(), "-1", "N/A", "n/a") {
        EntryOutcome::Rejected(e) => assert_eq!(e, "Quantity cannot be negative."),
        _ => panic!("expected a refusal"),
    }
}

#[test]
fn a_failed_item_fails_validation_with_the_same_reason() {
    let entries = [("a", "x", "2", "in"), ("b", "1", "q", "in"), ("c", "1", "2", "meters")];
    for (name, cost, quantity, unit) in entries.iter() {
        let e = create_item_and_validate(name, reading(read_cost(cost)), quantity, unit).unwrap_err();
        assert_eq!(validate_user_input(name, &reading(read_cost(cost)), quantity, unit), Err(e));
    }
}
