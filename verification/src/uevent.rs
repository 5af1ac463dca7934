//! The battery snapshot: typed fields coerced from a raw record, with the
//! documented defaults, classification tables and error reporting.

use vstd::prelude::*;

use crate::numbers::{
    dec_val, is_i64_str, is_u64_str, is_u8_str, i64_str_val, parse_i64, parse_u64, parse_u8,
    signed_digits, u64_str_val, u8_str_val, unsigned_digits,
};
use crate::record::{parse_record, record_of, RawRecord};
use crate::text::str_eq;

verus! {

/// Charging state reported by the power source.
#[derive(Debug, Clone, Copy, PartialEq, Eq, Structural)]
pub enum Status {
    Full,
    Discharging,
    Charging,
    NotCharging,
    Unknown,
}

/// Coarse capacity bucket reported by the power source.
#[derive(Debug, Clone, Copy, PartialEq, Eq, Structural)]
pub enum Level {
    Full,
    Normal,
    Low,
    Critical,
    Unknown,
}

/// Failure to obtain a snapshot.
#[derive(Debug, Clone, PartialEq, Eq)]
pub enum ParseError {
    /// The status file could not be read.
    Io,
    /// A recorded field's text does not parse as its numeric type; carries
    /// the field name and the offending text.
    InvalidNumber { field: String, value: String },
}

/// Classification of raw status text. Only the three spellings below are
/// recognized; any other text, the spelling `"Not charging"` among them,
/// classifies as `Unknown`, so `NotCharging` is never produced here.
pub open spec fn status_of(s: Seq<char>) -> Status {
    if s == "Full"@ {
        Status::Full
    } else if s == "Discharging"@ {
        Status::Discharging
    } else if s == "Charging"@ {
        Status::Charging
    } else {
        Status::Unknown
    }
}

/// Display text of a charging state.
pub open spec fn status_label(s: Status) -> Seq<char> {
    match s {
        Status::Full => "Full"@,
        Status::Discharging => "Discharging"@,
        Status::Charging => "Charging"@,
        Status::NotCharging => "Not charging"@,
        Status::Unknown => "???"@,
    }
}

impl Status {
    /// Classifies raw status text by the exact-match table of `status_of`.
    pub fn from(value: &str) -> (r: Status)
        ensures
            r == status_of(value@),
    {
        if str_eq(value, "Full") {
            Status::Full
        } else if str_eq(value, "Discharging") {
            Status::Discharging
        } else if str_eq(value, "Charging") {
            Status::Charging
        } else {
            Status::Unknown
        }
    }

    /// The display text of this state.
    pub fn label(&self) -> (r: String)
        ensures
            r@ == status_label(*self),
    {
        match self {
            Status::Full => "Full".to_owned(),
            Status::Discharging => "Discharging".to_owned(),
            Status::Charging => "Charging".to_owned(),
            Status::NotCharging => "Not charging".to_owned(),
            Status::Unknown => "???".to_owned(),
        }
    }
}

/// Classification of raw capacity-level text. Only `"Full"` and `"Normal"`
/// are recognized; any other text classifies as `Unknown`, so `Low` and
/// `Critical` are never produced here.
pub open spec fn level_of(s: Seq<char>) -> Level {
    if s == "Full"@ {
        Level::Full
    } else if s == "Normal"@ {
        Level::Normal
    } else {
        Level::Unknown
    }
}

/// Display text of a capacity bucket.
pub open spec fn level_label(l: Level) -> Seq<char> {
    match l {
        Level::Full => "Full"@,
        Level::Normal => "Normal"@,
        Level::Low => "Low"@,
        Level::Critical => "Critical"@,
        Level::Unknown => "???"@,
    }
}

impl Level {
    /// Classifies raw capacity-level text by the exact-match table of
    /// `level_of`.
    pub fn from(value: &str) -> (r: Level)
        ensures
            r == level_of(value@),
    {
        if str_eq(value, "Full") {
            Level::Full
        } else if str_eq(value, "Normal") {
            Level::Normal
        } else {
            Level::Unknown
        }
    }

    /// The display text of this bucket.
    pub fn label(&self) -> (r: String)
        ensures
            r@ == level_label(*self),
    {
        match self {
            Level::Full => "Full".to_owned(),
            Level::Normal => "Normal".to_owned(),
            Level::Low => "Low".to_owned(),
            Level::Critical => "Critical".to_owned(),
            Level::Unknown => "???".to_owned(),
        }
    }
}

/// One immutable, fully coerced reading of a power-source status file.
#[derive(Debug, Clone)]
pub struct Snapshot {
    pub name: String,
    pub status: Status,
    pub technology: String,
    pub cycle_count: i64,
    pub voltage_min_design: u64,
    pub voltage_now: u64,
    pub power_now: u64,
    pub energy_full_design: u64,
    pub energy_full: u64,
    pub energy_now: u64,
    pub capacity: u8,
    pub capacity_level: Level,
    pub model_name: String,
    pub manufacturer: String,
    pub serial_number: String,
}

pub open spec fn key_name() -> Seq<char> {
    "POWER_SUPPLY_NAME"@
}

pub open spec fn key_status() -> Seq<char> {
    "POWER_SUPPLY_STATUS"@
}

pub open spec fn key_technology() -> Seq<char> {
    "POWER_SUPPLY_TECHNOLOGY"@
}

pub open spec fn key_cycle_count() -> Seq<char> {
    "POWER_SUPPLY_CYCLE_COUNT"@
}

pub open spec fn key_voltage_min_design() -> Seq<char> {
    "POWER_SUPPLY_VOLTAGE_MIN_DESIGN"@
}

pub open spec fn key_voltage_now() -> Seq<char> {
    "POWER_SUPPLY_VOLTAGE_NOW"@
}

pub open spec fn key_power_now() -> Seq<char> {
    "POWER_SUPPLY_POWER_NOW"@
}

pub open spec fn key_energy_full_design() -> Seq<char> {
    "POWER_SUPPLY_ENERGY_FULL_DESIGN"@
}

pub open spec fn key_energy_full() -> Seq<char> {
    "POWER_SUPPLY_ENERGY_FULL"@
}

pub open spec fn key_energy_now() -> Seq<char> {
    "POWER_SUPPLY_ENERGY_NOW"@
}

pub open spec fn key_capacity() -> Seq<char> {
    "POWER_SUPPLY_CAPACITY"@
}

pub open spec fn key_capacity_level() -> Seq<char> {
    "POWER_SUPPLY_CAPACITY_LEVEL"@
}

pub open spec fn key_model_name() -> Seq<char> {
    "POWER_SUPPLY_MODEL_NAME"@
}

pub open spec fn key_manufacturer() -> Seq<char> {
    "POWER_SUPPLY_MANUFACTURER"@
}

pub open spec fn key_serial_number() -> Seq<char> {
    "POWER_SUPPLY_SERIAL_NUMBER"@
}

/// The raw text consulted for a field: the recorded value, or `dflt` when
/// the record has none.
pub open spec fn field_or(
    m: Map<Seq<char>, Seq<char>>,
    k: Seq<char>,
    dflt: Seq<char>,
) -> Seq<char> {
    if m.contains_key(k) {
        m[k]
    } else {
        dflt
    }
}

/// Whether every numeric field of `m`, present or defaulted to `"0"`, parses
/// as its target type. Building succeeds exactly on such records.
pub open spec fn numerics_ok(m: Map<Seq<char>, Seq<char>>) -> bool {
    &&& is_i64_str(field_or(m, key_cycle_count(), "0"@))
    &&& is_u64_str(field_or(m, key_voltage_min_design(), "0"@))
    &&& is_u64_str(field_or(m, key_voltage_now(), "0"@))
    &&& is_u64_str(field_or(m, key_power_now(), "0"@))
    &&& is_u64_str(field_or(m, key_energy_full_design(), "0"@))
    &&& is_u64_str(field_or(m, key_energy_full(), "0"@))
    &&& is_u64_str(field_or(m, key_energy_now(), "0"@))
    &&& is_u8_str(field_or(m, key_capacity(), "0"@))
}

/// The field blamed when building fails: the first numeric field, in the
/// order they are coerced, whose raw text does not parse.
pub open spec fn first_invalid_field(m: Map<Seq<char>, Seq<char>>) -> Seq<char> {
    if !is_i64_str(field_or(m, key_cycle_count(), "0"@)) {
        key_cycle_count()
    } else if !is_u64_str(field_or(m, key_voltage_min_design(), "0"@)) {
        key_voltage_min_design()
    } else if !is_u64_str(field_or(m, key_voltage_now(), "0"@)) {
        key_voltage_now()
    } else if !is_u64_str(field_or(m, key_power_now(), "0"@)) {
        key_power_now()
    } else if !is_u64_str(field_or(m, key_energy_full_design(), "0"@)) {
        key_energy_full_design()
    } else if !is_u64_str(field_or(m, key_energy_full(), "0"@)) {
        key_energy_full()
    } else if !is_u64_str(field_or(m, key_energy_now(), "0"@)) {
        key_energy_now()
    } else {
        key_capacity()
    }
}

/// Every field of `s` agrees with the record `m`: string fields hold the
/// recorded text or their default, numeric fields the parsed value of the
/// recorded text or of `"0"`, and the two enumerated fields the
/// classification of the recorded text or of `"Unknown"`.
pub open spec fn snapshot_matches(m: Map<Seq<char>, Seq<char>>, s: Snapshot) -> bool {
    &&& s.name@ == field_or(m, key_name(), ""@)
    &&& s.status == status_of(field_or(m, key_status(), "Unknown"@))
    &&& s.technology@ == field_or(m, key_technology(), "Unknown"@)
    &&& s.cycle_count as int == i64_str_val(field_or(m, key_cycle_count(), "0"@))
    &&& s.voltage_min_design as int == u64_str_val(field_or(m, key_voltage_min_design(), "0"@))
    &&& s.voltage_now as int == u64_str_val(field_or(m, key_voltage_now(), "0"@))
    &&& s.power_now as int == u64_str_val(field_or(m, key_power_now(), "0"@))
    &&& s.energy_full_design as int == u64_str_val(field_or(m, key_energy_full_design(), "0"@))
    &&& s.energy_full as int == u64_str_val(field_or(m, key_energy_full(), "0"@))
    &&& s.energy_now as int == u64_str_val(field_or(m, key_energy_now(), "0"@))
    &&& s.capacity as int == u8_str_val(field_or(m, key_capacity(), "0"@))
    &&& s.capacity_level == level_of(field_or(m, key_capacity_level(), "Unknown"@))
    &&& s.model_name@ == field_or(m, key_model_name(), ""@)
    &&& s.manufacturer@ == field_or(m, key_manufacturer(), ""@)
    &&& s.serial_number@ == field_or(m, key_serial_number(), ""@)
}

/// The error reported when a numeric field fails: it names the first failing
/// field and carries that field's raw text.
pub open spec fn invalid_number_matches(m: Map<Seq<char>, Seq<char>>, e: ParseError) -> bool {
    match e {
        ParseError::InvalidNumber { field, value } => {
            &&& field@ == first_invalid_field(m)
            &&& value@ == field_or(m, first_invalid_field(m), "0"@)
        },
        _ => false,
    }
}

/// The default numeral `"0"` parses as every numeric target type.
proof fn lemma_zero_default_parses()
    ensures
        is_i64_str("0"@),
        is_u64_str("0"@),
        is_u8_str("0"@),
{
    reveal_strlit("0");
    assert("0"@ =~= seq!['0']);
    assert(seq!['0'].subrange(0, 0) =~= Seq::<char>::empty());
    assert(dec_val(Seq::<char>::empty()) == 0);
    assert(dec_val(seq!['0']) == 0);
    assert(unsigned_digits("0"@) =~= seq!['0']);
    assert(signed_digits("0"@) =~= seq!['0']);
}

/// A failed build can only blame a recorded field: every numeric field
/// defaults to `"0"`, which parses, so when a record does not build, the
/// blamed field is present in it and its recorded text is the text that
/// failed to parse.
pub proof fn lemma_error_blames_recorded_field(m: Map<Seq<char>, Seq<char>>)
    requires
        !numerics_ok(m),
    ensures
        m.contains_key(first_invalid_field(m)),
        field_or(m, first_invalid_field(m), "0"@) == m[first_invalid_field(m)],
{
    lemma_zero_default_parses();
}

/// The recorded value for `key`, or `dflt` when the record has none.
fn get_or(rec: &RawRecord, key: &str, dflt: &str) -> (r: String)
    ensures
        r@ == field_or(rec@, key@, dflt@),
{
    match rec.get(key) {
        Some(v) => v.clone(),
        None => dflt.to_owned(),
    }
}

/// Coerces the numeric field `key`, defaulting to `"0"`, into a `u64`.
fn u64_field(rec: &RawRecord, key: &str) -> (r: Result<u64, ParseError>)
    ensures
        r is Ok <==> is_u64_str(field_or(rec@, key@, "0"@)),
        r matches Ok(n) ==> n as int == u64_str_val(field_or(rec@, key@, "0"@)),
        r matches Err(e) ==> (match e {
            ParseError::InvalidNumber { field, value } => field@ == key@ && value@ == field_or(
                rec@,
                key@,
                "0"@,
            ),
            _ => false,
        }),
{
    let raw = get_or(rec, key, "0");
    match parse_u64(raw.as_str()) {
        Some(n) => Ok(n),
        None => Err(ParseError::InvalidNumber { field: key.to_owned(), value: raw }),
    }
}

/// Coerces the numeric field `key`, defaulting to `"0"`, into an `i64`.
fn i64_field(rec: &RawRecord, key: &str) -> (r: Result<i64, ParseError>)
    ensures
        r is Ok <==> is_i64_str(field_or(rec@, key@, "0"@)),
        r matches Ok(n) ==> n as int == i64_str_val(field_or(rec@, key@, "0"@)),
        r matches Err(e) ==> (match e {
            ParseError::InvalidNumber { field, value } => field@ == key@ && value@ == field_or(
                rec@,
                key@,
                "0"@,
            ),
            _ => false,
        }),
{
    let raw = get_or(rec, key, "0");
    match parse_i64(raw.as_str()) {
        Some(n) => Ok(n),
        None => Err(ParseError::InvalidNumber { field: key.to_owned(), value: raw }),
    }
}

/// Coerces the numeric field `key`, defaulting to `"0"`, into a `u8`.
fn u8_field(rec: &RawRecord, key: &str) -> (r: Result<u8, ParseError>)
    ensures
        r is Ok <==> is_u8_str(field_or(rec@, key@, "0"@)),
        r matches Ok(n) ==> n as int == u8_str_val(field_or(rec@, key@, "0"@)),
        r matches Err(e) ==> (match e {
            ParseError::InvalidNumber { field, value } => field@ == key@ && value@ == field_or(
                rec@,
                key@,
                "0"@,
            ),
            _ => false,
        }),
{
    let raw = get_or(rec, key, "0");
    match parse_u8(raw.as_str()) {
        Some(n) => Ok(n),
        None => Err(ParseError::InvalidNumber { field: key.to_owned(), value: raw }),
    }
}

/// Builds a snapshot from a parsed record. String fields default to the
/// empty string or to `"Unknown"`, numeric fields to `"0"`, and the two
/// enumerated fields classify their raw text, so a record whose numeric
/// fields all parse — any record with them absent among such — always
/// builds. The build fails exactly when a recorded numeric field's text does
/// not parse, blaming the first such field in coercion order.
pub fn build(rec: &RawRecord) -> (r: Result<Snapshot, ParseError>)
    ensures
        r is Ok <==> numerics_ok(rec@),
        r matches Ok(s) ==> snapshot_matches(rec@, s),
        r matches Err(e) ==> invalid_number_matches(rec@, e),
{
    let name = get_or(rec, "POWER_SUPPLY_NAME", "");
    let status = Status::from(get_or(rec, "POWER_SUPPLY_STATUS", "Unknown").as_str());
    let technology = get_or(rec, "POWER_SUPPLY_TECHNOLOGY", "Unknown");
    let cycle_count = match i64_field(rec, "POWER_SUPPLY_CYCLE_COUNT") {
        Ok(n) => n,
        Err(e) => {
            return Err(e);
        },
    };
    let voltage_min_design = match u64_field(rec, "POWER_SUPPLY_VOLTAGE_MIN_DESIGN") {
        Ok(n) => n,
        Err(e) => {
            return Err(e);
        },
    };
    let voltage_now = match u64_field(rec, "POWER_SUPPLY_VOLTAGE_NOW") {
        Ok(n) => n,
        Err(e) => {
            return Err(e);
        },
    };
    let power_now = match u64_field(rec, "POWER_SUPPLY_POWER_NOW") {
        Ok(n) => n,
        Err(e) => {
            return Err(e);
        },
    };
    let energy_full_design = match u64_field(rec, "POWER_SUPPLY_ENERGY_FULL_DESIGN") {
        Ok(n) => n,
        Err(e) => {
            return Err(e);
        },
    };
    let energy_full = match u64_field(rec, "POWER_SUPPLY_ENERGY_FULL") {
        Ok(n) => n,
        Err(e) => {
            return Err(e);
        },
    };
    let energy_now = match u64_field(rec, "POWER_SUPPLY_ENERGY_NOW") {
        Ok(n) => n,
        Err(e) => {
            return Err(e);
        },
    };
    let capacity = match u8_field(rec, "POWER_SUPPLY_CAPACITY") {
        Ok(n) => n,
        Err(e) => {
            return Err(e);
        },
    };
    let capacity_level = Level::from(get_or(rec, "POWER_SUPPLY_CAPACITY_LEVEL", "Unknown").as_str());
    let model_name = get_or(rec, "POWER_SUPPLY_MODEL_NAME", "");
    let manufacturer = get_or(rec, "POWER_SUPPLY_MANUFACTURER", "");
    let serial_number = get_or(rec, "POWER_SUPPLY_SERIAL_NUMBER", "");
    Ok(
        Snapshot {
            name,
            status,
            technology,
            cycle_count,
            voltage_min_design,
            voltage_now,
            power_now,
            energy_full_design,
            energy_full,
            energy_now,
            capacity,
            capacity_level,
            model_name,
            manufacturer,
            serial_number,
        },
    )
}

/// Parses status-file text and builds the snapshot in one step.
pub fn snapshot_from_text(text: &str) -> (r: Result<Snapshot, ParseError>)
    ensures
        r is Ok <==> numerics_ok(record_of(text@)),
        r matches Ok(s) ==> snapshot_matches(record_of(text@), s),
        r matches Err(e) ==> invalid_number_matches(record_of(text@), e),
{
    let rec = parse_record(text);
    build(&rec)
}

} // verus!
