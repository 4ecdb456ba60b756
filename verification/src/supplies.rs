//! Supply entries typed by a maker: `name, cost, quantity, unit`.
//!
//! The cost is a floating-point amount that this library does not read;
//! callers read it and hand over what came of it: the error text, or a
//! `CostReading` holding the amount (kept by an item) and its sign (checked
//! by validation).

use vstd::prelude::*;
use vstd::string::*;
use crate::decimal::{IntErrorKind, spec_parse_i32, int_error_text, parse_i32_text, int_error_message};
use crate::text::{text_result, trimmed, lowercased, trim_text, lowercase_text, same_text, split_text, split_at_char};

verus! {

/// The units a supply can be measured in.
#[derive(Debug, Clone, Copy, PartialEq, Eq, Structural)]
pub enum UnitOfMeasurment {
    Yards,
    Cms,
    Feet,
    Inches,
    NotApplicable,
    Unsupported,
}

/// One supply of a configuration.
#[derive(Debug, Clone)]
pub struct Item<C> {
    pub name: String,
    pub cost: C,
    pub quanity: i32,
    pub unit: UnitOfMeasurment,
}

/// What an item is, in mathematical terms.
pub struct ItemView<C> {
    pub name: Seq<char>,
    pub cost: C,
    pub quanity: i32,
    pub unit: UnitOfMeasurment,
}

impl<C> View for Item<C> {
    type V = ItemView<C>;

    open spec fn view(&self) -> ItemView<C> {
        ItemView { name: self.name@, cost: self.cost, quanity: self.quanity, unit: self.unit }
    }
}

/// The sign of a cost that was read.
#[derive(Debug, Clone, Copy, PartialEq, Eq, Structural)]
pub enum CostSign {
    Negative,
    NotNegative,
}

/// A cost amount read from the cost field, with its sign: validation looks
/// at the sign, an item keeps the amount.
#[derive(Debug, Clone)]
pub struct CostReading<C> {
    pub value: C,
    pub sign: CostSign,
}

/// What reading an already trimmed quantity gives.
pub open spec fn quantity_reading(t: Seq<char>) -> Result<i32, Seq<char>> {
    match spec_parse_i32(t) {
        Ok(v) => Ok(v),
        Err(k) => Err("Failed to parse quantity: "@ + int_error_text(k)),
    }
}

/// What reading a quantity as typed gives.
pub open spec fn quantity_outcome(input: Seq<char>) -> Result<i32, Seq<char>> {
    quantity_reading(trimmed(input))
}

/// Reads an already trimmed quantity as a decimal `i32`.
pub fn quantity_from_text(t: &str) -> (r: Result<i32, String>)
    ensures
        text_result(r) == quantity_reading(t@),
{
    match parse_i32_text(t) {
        Ok(v) => Ok(v),
        Err(k) => Err(String::from_str("Failed to parse quantity: ").concat(int_error_message(k))),
    }
}

/// Reads the quantity field of an entry: surrounding white space is
/// ignored, the rest must be a decimal `i32`.
pub fn parse_quantity(quantity_input: &str) -> (r: Result<i32, String>)
    ensures
        text_result(r) == quantity_outcome(quantity_input@),
{
    quantity_from_text(trim_text(quantity_input))
}

/// The unit that a lowercase unit name stands for.
pub open spec fn unit_named(lowered: Seq<char>) -> Option<UnitOfMeasurment> {
    if lowered == "yards"@ {
        Some(UnitOfMeasurment::Yards)
    } else if lowered == "cms"@ {
        Some(UnitOfMeasurment::Cms)
    } else if lowered == "feet"@ {
        Some(UnitOfMeasurment::Feet)
    } else if lowered == "in"@ {
        Some(UnitOfMeasurment::Inches)
    } else if lowered == "n/a"@ {
        Some(UnitOfMeasurment::NotApplicable)
    } else {
        None
    }
}

/// The unit for the lowercased name `lowered` of the typed `input`.
pub open spec fn unit_reading(lowered: Seq<char>, input: Seq<char>) -> Result<UnitOfMeasurment, Seq<char>> {
    match unit_named(lowered) {
        Some(u) => Ok(u),
        None => Err("unsupported unit: "@ + input),
    }
}

/// What reading a unit as typed gives.
pub open spec fn unit_outcome(input: Seq<char>) -> Result<UnitOfMeasurment, Seq<char>> {
    unit_reading(lowercased(input), input)
}

/// Picks the unit for `lowered`, the lowercase form of the typed
/// `unit_input`; an unknown name is refused with the name as typed.
pub fn resolve_unit(lowered: &str, unit_input: &str) -> (r: Result<UnitOfMeasurment, String>)
    ensures
        text_result(r) == unit_reading(lowered@, unit_input@),
        (r is Ok) == is_unit_name(lowered@),
        r matches Ok(u) ==> names_unit(lowered@, u),
{
    if same_text(lowered, "yards") {
        Ok(UnitOfMeasurment::Yards)
    } else if same_text(lowered, "cms") {
        Ok(UnitOfMeasurment::Cms)
    } else if same_text(lowered, "feet") {
        Ok(UnitOfMeasurment::Feet)
    } else if same_text(lowered, "in") {
        Ok(UnitOfMeasurment::Inches)
    } else if same_text(lowered, "n/a") {
        Ok(UnitOfMeasurment::NotApplicable)
    } else {
        Err(String::from_str("unsupported unit: ").concat(unit_input))
    }
}

/// Reads the unit field of an entry, ignoring letter case.
pub fn determine_unit(unit_input: &str) -> (r: Result<UnitOfMeasurment, String>)
    ensures
        text_result(r) == unit_outcome(unit_input@),
        (r is Ok) == is_unit_name(lowercased(unit_input@)),
        r matches Ok(u) ==> names_unit(lowercased(unit_input@), u),
{
    let lowered = lowercase_text(unit_input);
    resolve_unit(lowered.as_str(), unit_input)
}


/// What validating an entry gives, with `lowered` the lowercase form of
/// the unit field: the first field that cannot be read (cost, then
/// quantity, then unit) decides the error; then a negative cost, then a
/// negative quantity, is refused.
pub open spec fn validation_reading<C>(
    cost: Result<CostReading<C>, Seq<char>>,
    quantity_input: Seq<char>,
    lowered: Seq<char>,
    unit_input: Seq<char>,
) -> Result<bool, Seq<char>> {
    match cost {
        Err(e) => Err(e),
        Ok(reading) => match quantity_outcome(quantity_input) {
            Err(e) => Err(e),
            Ok(quantity) => match unit_reading(lowered, unit_input) {
                Err(e) => Err(e),
                Ok(_) => if reading.sign == CostSign::Negative {
                    Err("Cost cannot be negative."@)
                } else if quantity < 0 {
                    Err("Quantity cannot be negative."@)
                } else {
                    Ok(true)
                },
            },
        },
    }
}

/// What validating an entry as typed gives.
pub open spec fn validation_outcome<C>(
    cost: Result<CostReading<C>, Seq<char>>,
    quantity_input: Seq<char>,
    unit_input: Seq<char>,
) -> Result<bool, Seq<char>> {
    validation_reading(cost, quantity_input, lowercased(unit_input), unit_input)
}

/// Checks a typed entry whose unit field lowercases to `lowered`. `cost` is
/// what reading the cost field gave: its error text, or the amount with its
/// sign.
pub fn validate_with_lowered_unit<C>(
    name_input: &str,
    cost: &Result<CostReading<C>, String>,
    quantity_input: &str,
    unit_input: &str,
    lowered: &str,
) -> (r: Result<bool, String>)
    ensures
        text_result(r) == validation_reading(text_result(*cost), quantity_input@, lowered@, unit_input@),
{
    let sign = match cost {
        Err(e) => {
            return Err(e.clone());
        },
        Ok(reading) => reading.sign,
    };
    let quantity = match parse_quantity(quantity_input) {
        Err(e) => {
            return Err(e);
        },
        Ok(q) => q,
    };
    match resolve_unit(lowered, unit_input) {
        Err(e) => {
            return Err(e);
        },
        Ok(_) => {},
    }
    match sign {
        CostSign::Negative => Err(String::from_str("Cost cannot be negative.")),
        CostSign::NotNegative => if quantity < 0 {
            Err(String::from_str("Quantity cannot be negative."))
        } else {
            Ok(true)
        },
    }
}

/// Checks a typed entry. `cost` is what reading the cost field gave: its
/// error text, or the amount with its sign.
pub fn validate_user_input<C>(
    name_input: &str,
    cost: &Result<CostReading<C>, String>,
    quantity_input: &str,
    unit_input: &str,
) -> (r: Result<bool, String>)
    ensures
        text_result(r) == validation_outcome(text_result(*cost), quantity_input@, unit_input@),
{
    let lowered = lowercase_text(unit_input);
    validate_with_lowered_unit(name_input, cost, quantity_input, unit_input, lowered.as_str())
}

/// What making an item from a typed entry gives, with `lowered` the
/// lowercase form of the unit field: the first field that cannot be read
/// (cost, then quantity, then unit) decides the error.
pub open spec fn creation_reading<C>(
    name_input: Seq<char>,
    cost: Result<CostReading<C>, Seq<char>>,
    quantity_input: Seq<char>,
    lowered: Seq<char>,
    unit_input: Seq<char>,
) -> Result<ItemView<C>, Seq<char>> {
    match cost {
        Err(e) => Err(e),
        Ok(reading) => match quantity_outcome(quantity_input) {
            Err(e) => Err(e),
            Ok(quantity) => match unit_reading(lowered, unit_input) {
                Err(e) => Err(e),
                Ok(unit) => Ok(
                    ItemView { name: name_input, cost: reading.value, quanity: quantity, unit },
                ),
            },
        },
    }
}

/// What making an item from a typed entry gives.
pub open spec fn creation_outcome<C>(
    name_input: Seq<char>,
    cost: Result<CostReading<C>, Seq<char>>,
    quantity_input: Seq<char>,
    unit_input: Seq<char>,
) -> Result<ItemView<C>, Seq<char>> {
    creation_reading(name_input, cost, quantity_input, lowercased(unit_input), unit_input)
}

/// An item result taken by its view.
pub open spec fn item_result<C>(r: Result<Item<C>, String>) -> Result<ItemView<C>, Seq<char>> {
    match r {
        Ok(item) => Ok(item@),
        Err(e) => Err(e@),
    }
}

/// The lowercase unit names and the units they stand for: `yards`,
/// `cms`, `feet`, `in` and `n/a`.
pub open spec fn names_unit(lowered: Seq<char>, unit: UnitOfMeasurment) -> bool {
    ||| lowered == "yards"@ && unit == UnitOfMeasurment::Yards
    ||| lowered == "cms"@ && unit == UnitOfMeasurment::Cms
    ||| lowered == "feet"@ && unit == UnitOfMeasurment::Feet
    ||| lowered == "in"@ && unit == UnitOfMeasurment::Inches
    ||| lowered == "n/a"@ && unit == UnitOfMeasurment::NotApplicable
}

/// `lowered` is one of the lowercase unit names.
pub open spec fn is_unit_name(lowered: Seq<char>) -> bool {
    lowered == "yards"@ || lowered == "cms"@ || lowered == "feet"@ || lowered == "in"@ || lowered == "n/a"@
}

/// `item` is what the typed fields say: the name as typed, the amount
/// read from the cost field, the quantity read from the trimmed quantity
/// field, and the unit that the lowercase unit name stands for.
pub open spec fn item_from_fields<C>(
    name_input: Seq<char>,
    cost: Result<CostReading<C>, Seq<char>>,
    quantity_input: Seq<char>,
    lowered: Seq<char>,
    item: ItemView<C>,
) -> bool {
    &&& cost is Ok
    &&& item.cost == cost->Ok_0.value
    &&& item.name == name_input
    &&& spec_parse_i32(trimmed(quantity_input)) == Ok::<i32, IntErrorKind>(item.quanity)
    &&& names_unit(lowered, item.unit)
}

/// An item is made exactly when the cost was read, the quantity reads as a
/// number and the unit names a unit; and the item made carries what the
/// fields say, the unit not remapped.
pub proof fn lemma_item_keeps_fields_read<C>(
    name_input: Seq<char>,
    cost: Result<CostReading<C>, Seq<char>>,
    quantity_input: Seq<char>,
    lowered: Seq<char>,
    unit_input: Seq<char>,
)
    ensures
        (creation_reading(name_input, cost, quantity_input, lowered, unit_input) is Ok) == (cost is Ok
            && spec_parse_i32(trimmed(quantity_input)) is Ok && is_unit_name(lowered)),
        creation_reading(name_input, cost, quantity_input, lowered, unit_input) matches Ok(item)
            ==> item_from_fields(name_input, cost, quantity_input, lowered, item),
{
}

/// Makes an item from a typed entry whose unit field lowercases to
/// `lowered`. `cost` is what reading the cost field gave.
pub fn create_item_with_lowered_unit<C>(
    name_input: &str,
    cost: Result<CostReading<C>, String>,
    quantity_input: &str,
    unit_input: &str,
    lowered: &str,
) -> (r: Result<Item<C>, String>)
    ensures
        item_result(r) == creation_reading(
            name_input@,
            text_result(cost),
            quantity_input@,
            lowered@,
            unit_input@,
        ),
        r matches Ok(item) ==> item_from_fields(name_input@, text_result(cost), quantity_input@, lowered@, item@),
{
    proof {
        lemma_item_keeps_fields_read(name_input@, text_result(cost), quantity_input@, lowered@, unit_input@);
    }
    let converted_cost = match cost {
        Err(e) => {
            return Err(e);
        },
        Ok(reading) => reading.value,
    };
    let converted_quantity = match parse_quantity(quantity_input) {
        Err(e) => {
            return Err(e);
        },
        Ok(q) => q,
    };
    let unit = match resolve_unit(lowered, unit_input) {
        Err(e) => {
            return Err(e);
        },
        Ok(u) => u,
    };
    Ok(Item { name: String::from_str(name_input), cost: converted_cost, quanity: converted_quantity, unit })
}

/// Makes an item from a typed entry. `cost` is what reading the cost field
/// gave: its error text, or the amount with its sign.
pub fn create_item_and_validate<C>(
    name_input: &str,
    cost: Result<CostReading<C>, String>,
    quantity_input: &str,
    unit_input: &str,
) -> (r: Result<Item<C>, String>)
    ensures
        item_result(r) == creation_outcome(name_input@, text_result(cost), quantity_input@, unit_input@),
        r matches Ok(item) ==> item_from_fields(
            name_input@,
            text_result(cost),
            quantity_input@,
            lowercased(unit_input@),
            item@,
        ),
{
    let lowered = lowercase_text(unit_input);
    create_item_with_lowered_unit(name_input, cost, quantity_input, unit_input, lowered.as_str())
}

/// Validation never answers `Ok(false)`: an entry is either accepted or
/// refused with a reason.
pub proof fn lemma_validation_never_false<C>(
    cost: Result<CostReading<C>, Seq<char>>,
    quantity_input: Seq<char>,
    unit_input: Seq<char>,
)
    ensures
        validation_outcome(cost, quantity_input, unit_input) != Ok::<bool, Seq<char>>(false),
{
}

/// Validation accepts an entry exactly when an item can be made from it
/// with a cost whose sign is not negative and a quantity that is not
/// negative; when no item can be made, validation refuses the entry with
/// the same reason.
pub proof fn lemma_valid_entry_makes_item<C>(
    name_input: Seq<char>,
    cost: Result<CostReading<C>, Seq<char>>,
    quantity_input: Seq<char>,
    unit_input: Seq<char>,
)
    ensures
        (validation_outcome(cost, quantity_input, unit_input) == Ok::<bool, Seq<char>>(true)) == (
        creation_outcome(name_input, cost, quantity_input, unit_input) is Ok
            && cost->Ok_0.sign == CostSign::NotNegative
            && creation_outcome(name_input, cost, quantity_input, unit_input)->Ok_0.quanity >= 0),
        creation_outcome(name_input, cost, quantity_input, unit_input) is Err ==> validation_outcome(
            cost,
            quantity_input,
            unit_input,
        ) == Err::<bool, Seq<char>>(
            creation_outcome(name_input, cost, quantity_input, unit_input)->Err_0,
        ),
        validation_outcome(cost, quantity_input, unit_input) is Ok ==> creation_outcome(
            name_input,
            cost,
            quantity_input,
            unit_input,
        ) is Ok,
{
}

/// Letter case does not matter to units: two names with the same
/// lowercase form name the same unit, or are both refused.
pub proof fn lemma_units_ignore_case(a: Seq<char>, b: Seq<char>)
    requires
        lowercased(a) == lowercased(b),
    ensures
        unit_outcome(a) is Ok == unit_outcome(b) is Ok,
        unit_outcome(a) is Ok ==> unit_outcome(a) == unit_outcome(b),
{
}

/// What becomes of a typed entry.
pub enum EntryOutcome<C> {
    /// Validation refused the entry, for this reason.
    Rejected(String),
    /// The entry made this item.
    Created(Item<C>),
    /// The entry was valid but no item could be made of it, for this reason.
    Failed(String),
}

/// What becomes of a typed entry, in mathematical terms.
pub enum EntryOutcomeView<C> {
    Rejected(Seq<char>),
    Created(ItemView<C>),
    Failed(Seq<char>),
}

impl<C> View for EntryOutcome<C> {
    type V = EntryOutcomeView<C>;

    open spec fn view(&self) -> EntryOutcomeView<C> {
        match self {
            EntryOutcome::Rejected(e) => EntryOutcomeView::Rejected(e@),
            EntryOutcome::Created(item) => EntryOutcomeView::Created(item@),
            EntryOutcome::Failed(e) => EntryOutcomeView::Failed(e@),
        }
    }
}

/// An entry whose unit field lowercases to `lowered` is validated first;
/// only a valid one is made into an item.
pub open spec fn entry_outcome_reading<C>(
    name_input: Seq<char>,
    cost: Result<CostReading<C>, Seq<char>>,
    quantity_input: Seq<char>,
    lowered: Seq<char>,
    unit_input: Seq<char>,
) -> EntryOutcomeView<C> {
    match validation_reading(cost, quantity_input, lowered, unit_input) {
        Err(e) => EntryOutcomeView::Rejected(e),
        Ok(_) => match creation_reading(name_input, cost, quantity_input, lowered, unit_input) {
            Ok(item) => EntryOutcomeView::Created(item),
            Err(e) => EntryOutcomeView::Failed(e),
        },
    }
}

/// What becomes of a typed entry.
pub open spec fn entry_outcome_of<C>(
    name_input: Seq<char>,
    cost: Result<CostReading<C>, Seq<char>>,
    quantity_input: Seq<char>,
    unit_input: Seq<char>,
) -> EntryOutcomeView<C> {
    entry_outcome_reading(name_input, cost, quantity_input, lowercased(unit_input), unit_input)
}

/// An entry that passes validation is created with exactly the item that
/// making an item from the same fields gives, carrying what the fields say;
/// one that does not is refused with validation's reason.
pub proof fn lemma_entry_creates_the_item<C>(
    name_input: Seq<char>,
    cost: Result<CostReading<C>, Seq<char>>,
    quantity_input: Seq<char>,
    lowered: Seq<char>,
    unit_input: Seq<char>,
)
    ensures
        entry_outcome_reading(name_input, cost, quantity_input, lowered, unit_input) matches EntryOutcomeView::Created(item)
            ==> creation_reading(name_input, cost, quantity_input, lowered, unit_input) == Ok::<ItemView<C>, Seq<char>>(item)
            && validation_reading(cost, quantity_input, lowered, unit_input) == Ok::<bool, Seq<char>>(true)
            && item_from_fields(name_input, cost, quantity_input, lowered, item),
        validation_reading(cost, quantity_input, lowered, unit_input) is Ok ==> entry_outcome_reading(
            name_input,
            cost,
            quantity_input,
            lowered,
            unit_input,
        ) == EntryOutcomeView::Created(creation_reading(name_input, cost, quantity_input, lowered, unit_input)->Ok_0),
        validation_reading(cost, quantity_input, lowered, unit_input) matches Err(e) ==> entry_outcome_reading(
            name_input,
            cost,
            quantity_input,
            lowered,
            unit_input,
        ) == EntryOutcomeView::<C>::Rejected(e),
{
    lemma_item_keeps_fields_read(name_input, cost, quantity_input, lowered, unit_input);
}

/// Handles one typed entry whose unit field lowercases to `lowered`:
/// validates it, then makes the item. `cost` is what reading the cost field
/// gave.
pub fn process_entry_with_lowered_unit<C>(
    name_input: &str,
    cost: Result<CostReading<C>, String>,
    quantity_input: &str,
    unit_input: &str,
    lowered: &str,
) -> (outcome: EntryOutcome<C>)
    ensures
        outcome@ == entry_outcome_reading(
            name_input@,
            text_result(cost),
            quantity_input@,
            lowered@,
            unit_input@,
        ),
        outcome@ matches EntryOutcomeView::Created(item) ==> item_from_fields(
            name_input@,
            text_result(cost),
            quantity_input@,
            lowered@,
            item,
        ) && creation_reading(name_input@, text_result(cost), quantity_input@, lowered@, unit_input@)
            == Ok::<ItemView<C>, Seq<char>>(item),
{
    proof {
        lemma_entry_creates_the_item(name_input@, text_result(cost), quantity_input@, lowered@, unit_input@);
    }
    match validate_with_lowered_unit(name_input, &cost, quantity_input, unit_input, lowered) {
        Err(e) => EntryOutcome::Rejected(e),
        Ok(_) => match create_item_with_lowered_unit(name_input, cost, quantity_input, unit_input, lowered) {
            Ok(item) => EntryOutcome::Created(item),
            Err(e) => EntryOutcome::Failed(e),
        },
    }
}

/// Handles one typed entry: validates it, then makes the item. `cost` is
/// what reading the cost field gave: its error text, or the amount with its
/// sign.
pub fn process_entry<C>(
    name_input: &str,
    cost: Result<CostReading<C>, String>,
    quantity_input: &str,
    unit_input: &str,
) -> (outcome: EntryOutcome<C>)
    ensures
        outcome@ == entry_outcome_of(name_input@, text_result(cost), quantity_input@, unit_input@),
        outcome@ matches EntryOutcomeView::Created(item) ==> item_from_fields(
            name_input@,
            text_result(cost),
            quantity_input@,
            lowercased(unit_input@),
            item,
        ) && creation_outcome(name_input@, text_result(cost), quantity_input@, unit_input@)
            == Ok::<ItemView<C>, Seq<char>>(item),
{
    let lowered = lowercase_text(unit_input);
    process_entry_with_lowered_unit(name_input, cost, quantity_input, unit_input, lowered.as_str())
}

/// A typed entry is either refused by validation or made into an item
/// whose cost sign and quantity are not negative; it never fails after
/// passing validation.
pub proof fn lemma_entry_never_fails<C>(
    name_input: Seq<char>,
    cost: Result<CostReading<C>, Seq<char>>,
    quantity_input: Seq<char>,
    unit_input: Seq<char>,
)
    ensures
        !(entry_outcome_of(name_input, cost, quantity_input, unit_input) is Failed),
        entry_outcome_of(name_input, cost, quantity_input, unit_input) matches EntryOutcomeView::Created(item)
            ==> item.quanity >= 0 && cost->Ok_0.sign == CostSign::NotNegative,
{
    lemma_valid_entry_makes_item(name_input, cost, quantity_input, unit_input);
    lemma_validation_never_false(cost, quantity_input, unit_input);
}

/// The fields of a typed entry line: the line without surrounding white
/// space, split at each comma, each piece without surrounding white space.
pub open spec fn entry_fields_of(line: Seq<char>) -> Seq<Seq<char>> {
    split_text(trimmed(trimmed(line)), ',').map_values(|p: Seq<char>| trimmed(p))
}

/// Splits a typed entry line into its fields; `None` unless there are
/// exactly four of them.
pub fn entry_fields<'a>(line: &'a str) -> (fields: Option<Vec<&'a str>>)
    ensures
        (fields is Some) == (entry_fields_of(line@).len() == 4),
        fields matches Some(f) ==> f@.map_values(|p: &str| p@) == entry_fields_of(line@),
{
    let input = trim_text(line);
    let pieces = split_at_char(trim_text(input), ',');
    let mut fields: Vec<&'a str> = Vec::new();
    let ghost split = split_text(trimmed(trimmed(line@)), ',');
    let mut i: usize = 0;
    while i < pieces.len()
        invariant
            pieces@.map_values(|p: &str| p@) == split,
            i <= pieces.len(),
            fields@.map_values(|p: &str| p@) == split.take(i as int).map_values(|p: Seq<char>| trimmed(p)),
        decreases pieces.len() - i,
    {
        let ghost before = fields@.map_values(|p: &str| p@);
        let piece = trim_text(pieces[i]);
        fields.push(piece);
        assert(split[i as int] == pieces@[i as int]@);
        assert(split.take(i + 1).map_values(|p: Seq<char>| trimmed(p)) =~= split.take(i as int).map_values(|p: Seq<char>| trimmed(p)).push(trimmed(split[i as int])));
        assert(fields@.map_values(|p: &str| p@) =~= before.push(piece@));
        i = i + 1;
    }
    assert(split.take(pieces.len() as int) =~= split);
    if fields.len() == 4 {
        Some(fields)
    } else {
        None
    }
}

/// Locks the stored entries of a configuration; nothing is stored to lock
/// yet, so this does nothing.
pub fn lock_json() {
}

/// Reads the stored entries back; nothing is read yet, so this does
/// nothing.
pub fn read_json() {
}

} // verus!
