//! The decisions behind cost figures.
//!
//! Amounts, costs and rates are floating-point numbers, which this library
//! does not hold. What it decides is everything around the arithmetic:
//! which units convert into each other and by which exact decimal factor,
//! which supply each usage draws on, and whether a duration is in hours.
//! Callers apply the steps to their numbers.

use vstd::prelude::*;
use crate::text::same_text;

verus! {

/// The units of length; they convert into each other through inches.
#[derive(Debug, Clone, Copy, PartialEq, Eq, Structural)]
pub enum LengthUnit {
    Yards,
    Feet,
    Inches,
    Cms,
}

/// One arithmetic step on an amount: multiply it, or divide it, by a
/// decimal factor given in hundredths (`Multiply(3600)` multiplies by 36).
#[derive(Debug, Clone, Copy, PartialEq, Eq, Structural)]
pub enum Step {
    Multiply(u32),
    Divide(u32),
}

/// The exact rational factor a step applies, as numerator and denominator.
pub open spec fn step_ratio(s: Step) -> (int, int) {
    match s {
        Step::Multiply(c) => (c as int, 100),
        Step::Divide(c) => (100, c as int),
    }
}

/// The step that undoes `s`.
pub open spec fn inverse_step(s: Step) -> Step {
    match s {
        Step::Multiply(c) => Step::Divide(c),
        Step::Divide(c) => Step::Multiply(c),
    }
}

/// The length unit a unit name stands for; `count`, `n/a` and any other
/// name are not lengths.
pub open spec fn length_unit_named(unit: Seq<char>) -> Option<LengthUnit> {
    if unit == "yards"@ {
        Some(LengthUnit::Yards)
    } else if unit == "feet"@ {
        Some(LengthUnit::Feet)
    } else if unit == "in"@ {
        Some(LengthUnit::Inches)
    } else if unit == "cms"@ {
        Some(LengthUnit::Cms)
    } else {
        None
    }
}

/// The length unit that `unit` names, if it names one.
pub fn length_unit(unit: &str) -> (r: Option<LengthUnit>)
    ensures
        r == length_unit_named(unit@),
{
    if same_text(unit, "yards") {
        Some(LengthUnit::Yards)
    } else if same_text(unit, "feet") {
        Some(LengthUnit::Feet)
    } else if same_text(unit, "in") {
        Some(LengthUnit::Inches)
    } else if same_text(unit, "cms") {
        Some(LengthUnit::Cms)
    } else {
        None
    }
}

pub open spec fn spec_to_inches_step(u: LengthUnit) -> Step {
    match u {
        LengthUnit::Yards => Step::Multiply(3600),
        LengthUnit::Feet => Step::Multiply(1200),
        LengthUnit::Inches => Step::Multiply(100),
        LengthUnit::Cms => Step::Divide(254),
    }
}

pub open spec fn spec_from_inches_step(u: LengthUnit) -> Step {
    match u {
        LengthUnit::Yards => Step::Divide(3600),
        LengthUnit::Feet => Step::Divide(1200),
        LengthUnit::Inches => Step::Divide(100),
        LengthUnit::Cms => Step::Multiply(254),
    }
}

/// The step that turns an amount in `u` into inches: a yard is 36 inches,
/// a foot 12, and an inch is 2.54 centimetres.
pub fn to_inches_step(u: LengthUnit) -> (s: Step)
    ensures
        s == spec_to_inches_step(u),
{
    match u {
        LengthUnit::Yards => Step::Multiply(3600),
        LengthUnit::Feet => Step::Multiply(1200),
        LengthUnit::Inches => Step::Multiply(100),
        LengthUnit::Cms => Step::Divide(254),
    }
}

/// The step that turns an amount in inches into `u`.
pub fn from_inches_step(u: LengthUnit) -> (s: Step)
    ensures
        s == spec_from_inches_step(u),
{
    match u {
        LengthUnit::Yards => Step::Divide(3600),
        LengthUnit::Feet => Step::Divide(1200),
        LengthUnit::Inches => Step::Divide(100),
        LengthUnit::Cms => Step::Multiply(254),
    }
}

/// How an amount in one unit is expressed in another.
#[derive(Debug, Clone, Copy, PartialEq, Eq, Structural)]
pub enum Conversion {
    /// The amount stays as it is.
    Keep,
    /// The amount goes into inches from the first unit, then out of inches
    /// into the second.
    ViaInches(LengthUnit, LengthUnit),
}

/// The same unit, or a unit that is not a length on either side, keeps
/// the amount; two length units convert through inches.
pub open spec fn conversion_between(from_unit: Seq<char>, to_unit: Seq<char>) -> Conversion {
    if from_unit == to_unit {
        Conversion::Keep
    } else {
        match (length_unit_named(from_unit), length_unit_named(to_unit)) {
            (Some(a), Some(b)) => Conversion::ViaInches(a, b),
            _ => Conversion::Keep,
        }
    }
}

/// How to convert an amount from `from_unit` into `to_unit`.
pub fn conversion(from_unit: &str, to_unit: &str) -> (c: Conversion)
    ensures
        c == conversion_between(from_unit@, to_unit@),
        converts_lengths(from_unit@, to_unit@, c),
{
    proof {
        lemma_conversion_scales_by_inches(from_unit@, to_unit@);
    }
    if same_text(from_unit, to_unit) {
        return Conversion::Keep;
    }
    match (length_unit(from_unit), length_unit(to_unit)) {
        (Some(a), Some(b)) => Conversion::ViaInches(a, b),
        _ => Conversion::Keep,
    }
}

/// The step that turns a duration in `unit` into hours: a duration in
/// `hours` stays as it is, any other unit counts minutes.
pub open spec fn spec_hours_step(unit: Seq<char>) -> Step {
    if unit == "hours"@ {
        Step::Multiply(100)
    } else {
        Step::Divide(6000)
    }
}

/// The step that turns a duration in `unit` into hours.
pub fn hours_step(unit: &str) -> (s: Step)
    ensures
        s == spec_hours_step(unit@),
        unit@ == "hours"@ ==> step_ratio(s).0 == step_ratio(s).1,
        unit@ != "hours"@ ==> step_ratio(s).1 == 60 * step_ratio(s).0,
{
    proof {
        lemma_hours_step(unit@);
    }
    if same_text(unit, "hours") {
        Step::Multiply(100)
    } else {
        Step::Divide(6000)
    }
}

/// A duration in hours is kept as it is; one in any other unit counts
/// minutes, sixty to the hour.
pub proof fn lemma_hours_step(unit: Seq<char>)
    ensures
        unit == "hours"@ ==> step_ratio(spec_hours_step(unit)).0 == step_ratio(spec_hours_step(unit)).1,
        unit != "hours"@ ==> step_ratio(spec_hours_step(unit)).1 == 60 * step_ratio(spec_hours_step(unit)).0,
{
}

/// Going out of inches undoes going into inches, for every length unit:
/// the two steps are inverse and their factors multiply to one.
pub proof fn lemma_inches_round_trip(u: LengthUnit)
    ensures
        spec_from_inches_step(u) == inverse_step(spec_to_inches_step(u)),
        step_ratio(spec_to_inches_step(u)).0 * step_ratio(spec_from_inches_step(u)).0
            == step_ratio(spec_to_inches_step(u)).1 * step_ratio(spec_from_inches_step(u)).1,
{
    let (a, b) = step_ratio(spec_to_inches_step(u));
    let (c, d) = step_ratio(spec_from_inches_step(u));
    assert(a == d && b == c);
    assert(a * c == c * a) by (nonlinear_arith);
}

/// How many inches one of the named unit measures, as a fraction
/// (numerator, denominator): a yard is 36 inches, a foot 12, an inch 1, a
/// centimetre 1/2.54 = 50/127 of an inch. Other names are not lengths.
pub open spec fn inches_per_unit(name: Seq<char>) -> Option<(int, int)> {
    if name == "yards"@ {
        Some((36, 1))
    } else if name == "feet"@ {
        Some((12, 1))
    } else if name == "in"@ {
        Some((1, 1))
    } else if name == "cms"@ {
        Some((50, 127))
    } else {
        None
    }
}

/// The factor, as a fraction, that a conversion multiplies an amount by.
pub open spec fn conversion_factor(c: Conversion) -> (int, int) {
    match c {
        Conversion::Keep => (1, 1),
        Conversion::ViaInches(a, b) => {
            let into = step_ratio(spec_to_inches_step(a));
            let out = step_ratio(spec_from_inches_step(b));
            (into.0 * out.0, into.1 * out.1)
        },
    }
}

/// `c` is the right way to express an amount in `from` as one in `to`:
/// between two different length units it goes through inches and
/// multiplies by (inches per `from`) / (inches per `to`); otherwise the
/// amount is kept.
pub open spec fn converts_lengths(from: Seq<char>, to: Seq<char>, c: Conversion) -> bool {
    match (inches_per_unit(from), inches_per_unit(to)) {
        (Some((fnum, fden)), Some((tnum, tden))) => if from == to {
            c == Conversion::Keep
        } else {
            &&& c is ViaInches
            &&& conversion_factor(c).1 != 0
            &&& conversion_factor(c).0 * fden * tnum == conversion_factor(c).1 * fnum * tden
        },
        _ => c == Conversion::Keep,
    }
}

/// Converting between units scales by the number of inches each measures:
/// two different length units convert through inches by the ratio of their
/// lengths in inches (a yard is 3 feet, an inch 2.54 centimetres), and the
/// same unit, or a name that is not a length, keeps the amount.
pub proof fn lemma_conversion_scales_by_inches(from: Seq<char>, to: Seq<char>)
    ensures
        converts_lengths(from, to, conversion_between(from, to)),
{
    reveal_strlit("yards");
    reveal_strlit("feet");
    reveal_strlit("in");
    reveal_strlit("cms");
    assert("yards"@.len() == 5 && "feet"@.len() == 4 && "cms"@.len() == 3 && "in"@.len() == 2);
    assert("yards"@ != "feet"@ && "yards"@ != "in"@ && "yards"@ != "cms"@);
    assert("feet"@ != "in"@ && "feet"@ != "cms"@ && "in"@ != "cms"@);
    let c = conversion_between(from, to);
    if from == "yards"@ {
        assert(length_unit_named(from) == Some(LengthUnit::Yards));
        if to == "yards"@ {
            assert(c == Conversion::Keep);
        }
        if to == "feet"@ {
            assert(length_unit_named(to) == Some(LengthUnit::Feet));
            assert(c == Conversion::ViaInches(LengthUnit::Yards, LengthUnit::Feet));
            assert(step_ratio(spec_to_inches_step(LengthUnit::Yards)) == (3600int, 100int));
            assert(step_ratio(spec_from_inches_step(LengthUnit::Feet)) == (100int, 1200int));
            assert(3600int * 100int == 360000int && 100int * 1200int == 120000int) by (nonlinear_arith);
            assert(conversion_factor(c) == (360000int, 120000int));
            assert(converts_lengths(from, to, c));
        }
        if to == "in"@ {
            assert(length_unit_named(to) == Some(LengthUnit::Inches));
            assert(c == Conversion::ViaInches(LengthUnit::Yards, LengthUnit::Inches));
            assert(step_ratio(spec_to_inches_step(LengthUnit::Yards)) == (3600int, 100int));
            assert(step_ratio(spec_from_inches_step(LengthUnit::Inches)) == (100int, 100int));
            assert(3600int * 100int == 360000int && 100int * 100int == 10000int) by (nonlinear_arith);
            assert(conversion_factor(c) == (360000int, 10000int));
            assert(converts_lengths(from, to, c));
        }
        if to == "cms"@ {
            assert(length_unit_named(to) == Some(LengthUnit::Cms));
            assert(c == Conversion::ViaInches(LengthUnit::Yards, LengthUnit::Cms));
            assert(step_ratio(spec_to_inches_step(LengthUnit::Yards)) == (3600int, 100int));
            assert(step_ratio(spec_from_inches_step(LengthUnit::Cms)) == (254int, 100int));
            assert(3600int * 254int == 914400int && 100int * 100int == 10000int) by (nonlinear_arith);
            assert(conversion_factor(c) == (914400int, 10000int));
            assert(converts_lengths(from, to, c));
        }
    }
    if from == "feet"@ {
        assert(length_unit_named(from) == Some(LengthUnit::Feet));
        if to == "yards"@ {
            assert(length_unit_named(to) == Some(LengthUnit::Yards));
            assert(c == Conversion::ViaInches(LengthUnit::Feet, LengthUnit::Yards));
            assert(step_ratio(spec_to_inches_step(LengthUnit::Feet)) == (1200int, 100int));
            assert(step_ratio(spec_from_inches_step(LengthUnit::Yards)) == (100int, 3600int));
            assert(1200int * 100int == 120000int && 100int * 3600int == 360000int) by (nonlinear_arith);
            assert(conversion_factor(c) == (120000int, 360000int));
            assert(converts_lengths(from, to, c));
        }
        if to == "feet"@ {
            assert(c == Conversion::Keep);
        }
        if to == "in"@ {
            assert(length_unit_named(to) == Some(LengthUnit::Inches));
            assert(c == Conversion::ViaInches(LengthUnit::Feet, LengthUnit::Inches));
            assert(step_ratio(spec_to_inches_step(LengthUnit::Feet)) == (1200int, 100int));
            assert(step_ratio(spec_from_inches_step(LengthUnit::Inches)) == (100int, 100int));
            assert(1200int * 100int == 120000int && 100int * 100int == 10000int) by (nonlinear_arith);
            assert(conversion_factor(c) == (120000int, 10000int));
            assert(converts_lengths(from, to, c));
        }
        if to == "cms"@ {
            assert(length_unit_named(to) == Some(LengthUnit::Cms));
            assert(c == Conversion::ViaInches(LengthUnit::Feet, LengthUnit::Cms));
            assert(step_ratio(spec_to_inches_step(LengthUnit::Feet)) == (1200int, 100int));
            assert(step_ratio(spec_from_inches_step(LengthUnit::Cms)) == (254int, 100int));
            assert(1200int * 254int == 304800int && 100int * 100int == 10000int) by (nonlinear_arith);
            assert(conversion_factor(c) == (304800int, 10000int));
            assert(converts_lengths(from, to, c));
        }
    }
    if from == "in"@ {
        assert(length_unit_named(from) == Some(LengthUnit::Inches));
        if to == "yards"@ {
            assert(length_unit_named(to) == Some(LengthUnit::Yards));
            assert(c == Conversion::ViaInches(LengthUnit::Inches, LengthUnit::Yards));
            assert(step_ratio(spec_to_inches_step(LengthUnit::Inches)) == (100int, 100int));
            assert(step_ratio(spec_from_inches_step(LengthUnit::Yards)) == (100int, 3600int));
            assert(100int * 100int == 10000int && 100int * 3600int == 360000int) by (nonlinear_arith);
            assert(conversion_factor(c) == (10000int, 360000int));
            assert(converts_lengths(from, to, c));
        }
        if to == "feet"@ {
            assert(length_unit_named(to) == Some(LengthUnit::Feet));
            assert(c == Conversion::ViaInches(LengthUnit::Inches, LengthUnit::Feet));
            assert(step_ratio(spec_to_inches_step(LengthUnit::Inches)) == (100int, 100int));
            assert(step_ratio(spec_from_inches_step(LengthUnit::Feet)) == (100int, 1200int));
            assert(100int * 100int == 10000int && 100int * 1200int == 120000int) by (nonlinear_arith);
            assert(conversion_factor(c) == (10000int, 120000int));
            assert(converts_lengths(from, to, c));
        }
        if to == "in"@ {
            assert(c == Conversion::Keep);
        }
        if to == "cms"@ {
            assert(length_unit_named(to) == Some(LengthUnit::Cms));
            assert(c == Conversion::ViaInches(LengthUnit::Inches, LengthUnit::Cms));
            assert(step_ratio(spec_to_inches_step(LengthUnit::Inches)) == (100int, 100int));
            assert(step_ratio(spec_from_inches_step(LengthUnit::Cms)) == (254int, 100int));
            assert(100int * 254int == 25400int && 100int * 100int == 10000int) by (nonlinear_arith);
            assert(conversion_factor(c) == (25400int, 10000int));
            assert(converts_lengths(from, to, c));
        }
    }
    if from == "cms"@ {
        assert(length_unit_named(from) == Some(LengthUnit::Cms));
        if to == "yards"@ {
            assert(length_unit_named(to) == Some(LengthUnit::Yards));
            assert(c == Conversion::ViaInches(LengthUnit::Cms, LengthUnit::Yards));
            assert(step_ratio(spec_to_inches_step(LengthUnit::Cms)) == (100int, 254int));
            assert(step_ratio(spec_from_inches_step(LengthUnit::Yards)) == (100int, 3600int));
            assert(100int * 100int == 10000int && 254int * 3600int == 914400int) by (nonlinear_arith);
            assert(conversion_factor(c) == (10000int, 914400int));
            assert(converts_lengths(from, to, c));
        }
        if to == "feet"@ {
            assert(length_unit_named(to) == Some(LengthUnit::Feet));
            assert(c == Conversion::ViaInches(LengthUnit::Cms, LengthUnit::Feet));
            assert(step_ratio(spec_to_inches_step(LengthUnit::Cms)) == (100int, 254int));
            assert(step_ratio(spec_from_inches_step(LengthUnit::Feet)) == (100int, 1200int));
            assert(100int * 100int == 10000int && 254int * 1200int == 304800int) by (nonlinear_arith);
            assert(conversion_factor(c) == (10000int, 304800int));
            assert(converts_lengths(from, to, c));
        }
        if to == "in"@ {
            assert(length_unit_named(to) == Some(LengthUnit::Inches));
            assert(c == Conversion::ViaInches(LengthUnit::Cms, LengthUnit::Inches));
            assert(step_ratio(spec_to_inches_step(LengthUnit::Cms)) == (100int, 254int));
            assert(step_ratio(spec_from_inches_step(LengthUnit::Inches)) == (100int, 100int));
            assert(100int * 100int == 10000int && 254int * 100int == 25400int) by (nonlinear_arith);
            assert(conversion_factor(c) == (10000int, 25400int));
            assert(converts_lengths(from, to, c));
        }
        if to == "cms"@ {
            assert(c == Conversion::Keep);
        }
    }
}

/// An amount converted into its own unit is kept as it is, and so is one
/// whose unit on either side is not a length (`count`, `n/a`).
pub proof fn lemma_conversion_keeps(from_unit: Seq<char>, to_unit: Seq<char>)
    ensures
        from_unit == to_unit ==> conversion_between(from_unit, to_unit) == Conversion::Keep,
        length_unit_named(from_unit) is None ==> conversion_between(from_unit, to_unit)
            == Conversion::Keep,
        length_unit_named(to_unit) is None ==> conversion_between(from_unit, to_unit)
            == Conversion::Keep,
{
}


/// What the cost plan needs of a supply: its id and its unit.
#[derive(Debug, Clone, Copy)]
pub struct SupplyKey<'a> {
    pub id: &'a str,
    pub unit: &'a str,
}

/// What the cost plan needs of a usage: the supply it draws on and the
/// unit its amount was entered in, if one was given.
#[derive(Debug, Clone, Copy)]
pub struct UsageKey<'a> {
    pub supply_id: &'a str,
    pub unit: Option<&'a str>,
}

/// How one usage enters the material cost: the supply (by position) whose
/// cost per quantity prices it, and how its amount converts into that
/// supply's unit.
#[derive(Debug, Clone, Copy, PartialEq, Eq, Structural)]
pub struct UsagePlan {
    pub supply: usize,
    pub conversion: Conversion,
}

/// `j` is the first position of a supply with id `id`.
pub open spec fn is_first_supply(supplies: Seq<SupplyKey>, id: Seq<char>, j: int) -> bool {
    &&& 0 <= j < supplies.len()
    &&& supplies[j].id@ == id
    &&& forall|k: int| 0 <= k < j ==> (#[trigger] supplies[k]).id@ != id
}

/// The first position of a supply with id `id`, if there is one.
pub open spec fn first_supply(supplies: Seq<SupplyKey>, id: Seq<char>) -> Option<int> {
    if exists|j: int| is_first_supply(supplies, id, j) {
        Some(choose|j: int| is_first_supply(supplies, id, j))
    } else {
        None
    }
}

/// How a usage is priced: by the first supply with its id, converting its
/// amount from its own unit (or the supply's, when it gives none) into the
/// supply's unit; a usage whose supply is not there adds nothing.
pub open spec fn usage_plan(u: UsageKey, supplies: Seq<SupplyKey>) -> Option<UsagePlan> {
    match first_supply(supplies, u.supply_id@) {
        None => None,
        Some(j) => {
            let sup = supplies[j];
            let from = match u.unit {
                Some(x) => x@,
                None => sup.unit@,
            };
            Some(UsagePlan { supply: j as usize, conversion: conversion_between(from, sup.unit@) })
        },
    }
}

/// A usage whose supply is not among the supplies adds nothing to the
/// material cost; one whose supply is there is priced by the first supply
/// with its id.
pub proof fn lemma_usage_needs_its_supply(u: UsageKey, supplies: Seq<SupplyKey>)
    requires
        supplies.len() <= usize::MAX,
    ensures
        (usage_plan(u, supplies) is None) == (forall|j: int|
            0 <= j < supplies.len() ==> (#[trigger] supplies[j]).id@ != u.supply_id@),
        usage_plan(u, supplies) matches Some(p) ==> is_first_supply(supplies, u.supply_id@, p.supply as int),
{
    if usage_plan(u, supplies) is None {
        assert forall|j: int| 0 <= j < supplies.len() implies (#[trigger] supplies[j]).id@ != u.supply_id@ by {
            if supplies[j].id@ == u.supply_id@ {
                lemma_some_first_supply(supplies, u.supply_id@, j);
            }
        }
    } else {
        let j = choose|j: int| is_first_supply(supplies, u.supply_id@, j);
        assert(supplies[j].id@ == u.supply_id@);
    }
}

/// When some supply has id `id`, there is a first one.
proof fn lemma_some_first_supply(supplies: Seq<SupplyKey>, id: Seq<char>, j: int)
    requires
        0 <= j < supplies.len(),
        supplies[j].id@ == id,
    ensures
        exists|k: int| is_first_supply(supplies, id, k),
    decreases j,
{
    if exists|k: int| 0 <= k < j && (#[trigger] supplies[k]).id@ == id {
        let k = choose|k: int| 0 <= k < j && (#[trigger] supplies[k]).id@ == id;
        lemma_some_first_supply(supplies, id, k);
    } else {
        assert(is_first_supply(supplies, id, j));
    }
}

/// A usage is charged by the first supply with its id, and its amount is
/// converted from the unit it was entered in (or the supply's, when it
/// gives none) into the supply's unit, scaling by inches between two
/// different length units.
pub proof fn lemma_plan_charges_in_supply_unit(u: UsageKey, supplies: Seq<SupplyKey>, j: int)
    requires
        supplies.len() <= usize::MAX,
        0 <= j < supplies.len(),
        supplies[j].id@ == u.supply_id@,
        forall|k: int| 0 <= k < j ==> (#[trigger] supplies[k]).id@ != u.supply_id@,
    ensures
        usage_plan(u, supplies) is Some,
        usage_plan(u, supplies)->Some_0.supply == j,
        converts_lengths(
            match u.unit {
                Some(x) => x@,
                None => supplies[j].unit@,
            },
            supplies[j].unit@,
            usage_plan(u, supplies)->Some_0.conversion,
        ),
{
    assert(is_first_supply(supplies, u.supply_id@, j));
    let c = choose|c: int| is_first_supply(supplies, u.supply_id@, c);
    lemma_first_supply_unique(supplies, u.supply_id@, c, j);
    let from = match u.unit {
        Some(x) => x@,
        None => supplies[j].unit@,
    };
    lemma_conversion_scales_by_inches(from, supplies[j].unit@);
}

proof fn lemma_first_supply_unique(supplies: Seq<SupplyKey>, id: Seq<char>, j: int, k: int)
    requires
        is_first_supply(supplies, id, j),
        is_first_supply(supplies, id, k),
    ensures
        j == k,
{
    if j < k {
        assert(supplies[j].id@ != id);
    } else if k < j {
        assert(supplies[k].id@ != id);
    }
}

/// The position of the first supply with id `id`.
pub fn find_supply(supplies: &[SupplyKey], id: &str) -> (r: Option<usize>)
    ensures
        match first_supply(supplies@, id@) {
            None => r is None,
            Some(j) => r == Some(j as usize),
        },
{
    let mut j: usize = 0;
    while j < supplies.len()
        invariant
            j <= supplies@.len(),
            forall|k: int| 0 <= k < j ==> (#[trigger] supplies@[k]).id@ != id@,
        decreases supplies.len() - j,
    {
        if same_text(supplies[j].id, id) {
            assert(is_first_supply(supplies@, id@, j as int));
            proof {
                let c = choose|c: int| is_first_supply(supplies@, id@, c);
                lemma_first_supply_unique(supplies@, id@, c, j as int);
            }
            return Some(j);
        }
        j = j + 1;
    }
    assert(!exists|c: int| is_first_supply(supplies@, id@, c));
    None
}

/// The unit a usage's amount was entered in: its own, or the supply's when
/// it gives none.
pub open spec fn entered_unit(u: UsageKey, sup: SupplyKey) -> Seq<char> {
    match u.unit {
        Some(x) => x@,
        None => sup.unit@,
    }
}

/// `p` prices usage `u` correctly against `supplies`: no plan exactly when
/// no supply has its id; otherwise the first supply with its id, and the
/// amount converted from the unit it was entered in into that supply's
/// unit.
pub open spec fn prices_usage(u: UsageKey, supplies: Seq<SupplyKey>, p: Option<UsagePlan>) -> bool {
    match p {
        None => forall|j: int| 0 <= j < supplies.len() ==> (#[trigger] supplies[j]).id@ != u.supply_id@,
        Some(plan) => {
            &&& is_first_supply(supplies, u.supply_id@, plan.supply as int)
            &&& converts_lengths(
                entered_unit(u, supplies[plan.supply as int]),
                supplies[plan.supply as int].unit@,
                plan.conversion,
            )
        },
    }
}

/// Plans the material cost of an item: for each usage, in order, how it
/// is priced.
pub fn plan_material_cost(usages: &[UsageKey], supplies: &[SupplyKey]) -> (plan: Vec<Option<UsagePlan>>)
    ensures
        plan.len() == usages.len(),
        forall|i: int| 0 <= i < usages.len() ==> #[trigger] plan@[i] == usage_plan(usages@[i], supplies@),
        forall|i: int| 0 <= i < usages.len() ==> prices_usage(usages@[i], supplies@, #[trigger] plan@[i]),
{
    let mut plan: Vec<Option<UsagePlan>> = Vec::new();
    let mut i: usize = 0;
    while i < usages.len()
        invariant
            i <= usages@.len(),
            plan.len() == i,
            forall|k: int| 0 <= k < i ==> #[trigger] plan@[k] == usage_plan(usages@[k], supplies@),
            forall|k: int| 0 <= k < i ==> prices_usage(usages@[k], supplies@, #[trigger] plan@[k]),
        decreases usages.len() - i,
    {
        let u = usages[i];
        let step = match find_supply(supplies, u.supply_id) {
            None => None,
            Some(j) => {
                let sup = supplies[j];
                let from = match u.unit {
                    Some(x) => x,
                    None => sup.unit,
                };
                Some(UsagePlan { supply: j, conversion: conversion(from, sup.unit) })
            },
        };
        let supply_count = supplies.len();
        proof {
            assert(supplies@.len() == supply_count);
            lemma_usage_needs_its_supply(u, supplies@);
            if let Some(p) = step {
                lemma_plan_charges_in_supply_unit(u, supplies@, p.supply as int);
            }
        }
        plan.push(step);
        i = i + 1;
    }
    plan
}

} // verus!
