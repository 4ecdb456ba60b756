use bijoux::cost::{
    conversion, find_supply, from_inches_step, hours_step, length_unit, plan_material_cost, to_inches_step,
    Conversion, LengthUnit, Step, SupplyKey, UsageKey, UsagePlan,
};

fn apply(x: f64, step: Step) -> f64 {
    match step {
        Step::Multiply(c) => x * (c as f64 / 100.0),
        Step::Divide(c) => x / (c as f64 / 100.0),
    }
}

fn convert(amount: f64, from: &str, to: &str) -> f64 {
    match conversion(from, to) {
        Conversion::Keep => amount,
        Conversion::ViaInches(a, b) => apply(apply(amount, to_inches_step(a)), from_inches_step(b)),
    }
}

#[test]
fn names_of_lengths() {
    assert_eq!(length_unit("yards"), Some(LengthUnit::Yards));
    assert_eq!(length_unit("feet"), Some(LengthUnit::Feet));
    assert_eq!(length_unit("in"), Some(LengthUnit::Inches));
    assert_eq!(length_unit("cms"), Some(LengthUnit::Cms));
    assert_eq!(length_unit("count"), None);
    assert_eq!(length_unit("n/a"), None);
    assert_eq!(length_unit("Yards"), None);
}

#[test]
fn steps_carry_the_exact_factors() {
    assert_eq!(to_inches_step(LengthUnit::Yards), Step::Multiply(3600));
    assert_eq!(to_inches_step(LengthUnit::Feet), Step::Multiply(1200));
    assert_eq!(to_inches_step(LengthUnit::Inches), Step::Multiply(100));
    assert_eq!(to_inches_step(LengthUnit::Cms), Step::Divide(254));
    assert_eq!(from_inches_step(LengthUnit::Yards), Step::Divide(3600));
    assert_eq!(from_inches_step(LengthUnit::Cms), Step::Multiply(254));
    assert_eq!(from_inches_step(LengthUnit::Inches), Step::Divide(100));
}

#[test]
fn conversions_between_units() {
    assert_eq!(conversion("yards", "yards"), Conversion::Keep);
    assert_eq!(conversion("count", "count"), Conversion::Keep);
    assert_eq!(conversion("count", "in"), Conversion::Keep);
    assert_eq!(conversion("in", "n/a"), Conversion::Keep);
    assert_eq!(conversion("yards", "in"), Conversion::ViaInches(LengthUnit::Yards, LengthUnit::Inches));
    assert_eq!(conversion("cms", "feet"), Conversion::ViaInches(LengthUnit::Cms, LengthUnit::Feet));
}

#[test]
fn converted_amounts_match_the_inch_formulas() {
    assert_eq!(convert(2.0, "yards", "in"), 72.0);
    assert_eq!(convert(3.0, "feet", "yards"), (3.0f64 * 12.0) / 36.0);
    assert_eq!(convert(10.0, "cms", "in"), 10.0 / 2.54);
    assert_eq!(convert(10.0, "in", "cms"), 10.0 * 2.54);
    assert_eq!(convert(7.5, "count", "in"), 7.5);
    assert_eq!(convert(0.1, "cms", "cms"), 0.1);
}

#[test]
fn durations_in_hours_or_minutes() {
    assert_eq!(hours_step("hours"), Step::Multiply(100));
    assert_eq!(hours_step("minutes"), Step::Divide(6000));
    assert_eq!(hours_step("Hours"), Step::Divide(6000));
    assert_eq!(apply(90.0, hours_step("minutes")), 90.0 / 60.0);
    assert_eq!(apply(1.5, hours_step("hours")), 1.5);
}

#[test]
fn the_first_supply_with_an_id_is_found() {
    let supplies = [
        SupplyKey { id: "a", unit: "in" },
        SupplyKey { id: "b", unit: "yards" },
        SupplyKey { id: "a", unit: "cms" },
    ];
    assert_eq!(find_supply(&supplies, "a"), Some(0));
    assert_eq!(find_supply(&supplies, "b"), Some(1));
    assert_eq!(find_supply(&supplies, "c"), None);
    assert_eq!(find_supply(&[], "a"), None);
}

#[test]
fn material_plan_prices_each_usage() {
    let supplies = [SupplyKey { id: "wire", unit: "yards" }, SupplyKey { id: "bead", unit: "count" }];
    let usages = [
        UsageKey { supply_id: "wire", unit: Some("in") },
        UsageKey { supply_id: "bead", unit: None },
        UsageKey { supply_id: "gone", unit: Some("in") },
        UsageKey { supply_id: "wire", unit: None },
    ];
    let plan = plan_material_cost(&usages, &supplies);
    assert_eq!(
        plan,
        vec![
            Some(UsagePlan { supply: 0, conversion: Conversion::ViaInches(LengthUnit::Inches, LengthUnit::Yards) }),
            Some(UsagePlan { supply: 1, conversion: Conversion::Keep }),
            None,
            Some(UsagePlan { supply: 0, conversion: Conversion::Keep }),
        ]
    );
}

#[test]
fn material_cost_total_from_the_plan() {
    let supplies = [SupplyKey { id: "wire", unit: "yards" }];
    let cost_per = [(10.0f64, 5.0f64)];
    let usages = [UsageKey { supply_id: "wire", unit: Some("feet") }];
    let amounts = [3.0f64];
    let plan = plan_material_cost(&usages, &supplies);
    let mut total = 0.0;
    for (k, p) in plan.iter().enumerate() {
        if let Some(p) = p {
            let (cost, quantity) = cost_per[p.supply];
            let amount = match p.conversion {
                Conversion::Keep => amounts[k],
                Conversion::ViaInches(a, b) => apply(apply(amounts[k], to_inches_step(a)), from_inches_step(b)),
            };
            total = total + (cost / quantity) * amount;
        }
    }
    assert_eq!(total, (10.0 / 5.0) * ((3.0 * 12.0) / 36.0));
}

#[test]
fn leaving_inches_undoes_entering_them() {
    for u in [LengthUnit::Yards, LengthUnit::Feet, LengthUnit::Inches, LengthUnit::Cms].iter() {
        let back = match to_inches_step(*u) {
            Step::Multiply(c) => Step::Divide(c),
            Step::Divide(c) => Step::Multiply(c),
        };
        assert_eq!(from_inches_step(*u), back);
    }
    assert_eq!(convert(36.0, "in", "yards"), 1.0);
    assert_eq!(convert(convert(2.0, "yards", "in"), "in", "yards"), 2.0);
}
