use xbattory::uevent::{snapshot_from_text, Level, ParseError, Status};

fn full_input() -> String {
    [
        "POWER_SUPPLY_NAME=BAT0",
        "POWER_SUPPLY_STATUS=Discharging",
        "POWER_SUPPLY_TECHNOLOGY=Li-ion",
        "POWER_SUPPLY_CYCLE_COUNT=321",
        "POWER_SUPPLY_VOLTAGE_MIN_DESIGN=11400000",
        "POWER_SUPPLY_VOLTAGE_NOW=12123000",
        "POWER_SUPPLY_POWER_NOW=8450000",
        "POWER_SUPPLY_ENERGY_FULL_DESIGN=57510000",
        "POWER_SUPPLY_ENERGY_FULL=48970000",
        "POWER_SUPPLY_ENERGY_NOW=31230000",
        "POWER_SUPPLY_CAPACITY=63",
        "POWER_SUPPLY_CAPACITY_LEVEL=Normal",
        "POWER_SUPPLY_MODEL_NAME=DELL XYZ",
        "POWER_SUPPLY_MANUFACTURER=SMP",
        "POWER_SUPPLY_SERIAL_NUMBER=1234",
    ]
    .join("\n")
}

#[test]
fn full_input_round_trip() {
    let snap = snapshot_from_text(&full_input()).unwrap();
    assert_eq!(snap.name, "BAT0");
    assert_eq!(snap.status, Status::Discharging);
    assert_eq!(snap.technology, "Li-ion");
    assert_eq!(snap.cycle_count, 321);
    assert_eq!(snap.voltage_min_design, 11400000);
    assert_eq!(snap.voltage_now, 12123000);
    assert_eq!(snap.power_now, 8450000);
    assert_eq!(snap.energy_full_design, 57510000);
    assert_eq!(snap.energy_full, 48970000);
    assert_eq!(snap.energy_now, 31230000);
    assert_eq!(snap.capacity, 63);
    assert_eq!(snap.capacity_level, Level::Normal);
    assert_eq!(snap.model_name, "DELL XYZ");
    assert_eq!(snap.manufacturer, "SMP");
    assert_eq!(snap.serial_number, "1234");
}

#[test]
fn empty_input_defaults() {
    let snap = snapshot_from_text("").unwrap();
    assert_eq!(snap.name, "");
    assert_eq!(snap.status, Status::Unknown);
    assert_eq!(snap.technology, "Unknown");
    assert_eq!(snap.cycle_count, 0);
    assert_eq!(snap.voltage_min_design, 0);
    assert_eq!(snap.voltage_now, 0);
    assert_eq!(snap.power_now, 0);
    assert_eq!(snap.energy_full_design, 0);
    assert_eq!(snap.energy_full, 0);
    assert_eq!(snap.energy_now, 0);
    assert_eq!(snap.capacity, 0);
    assert_eq!(snap.capacity_level, Level::Unknown);
    assert_eq!(snap.model_name, "");
    assert_eq!(snap.manufacturer, "");
    assert_eq!(snap.serial_number, "");
}

#[test]
fn health_ratio_of_energy_fields() {
    let text = "POWER_SUPPLY_ENERGY_FULL=50000000\nPOWER_SUPPLY_ENERGY_FULL_DESIGN=60000000";
    let snap = snapshot_from_text(text).unwrap();
    assert_eq!(snap.energy_full, 50000000);
    assert_eq!(snap.energy_full_design, 60000000);
    let health = snap.energy_full as f32 / snap.energy_full_design as f32 * 100.0;
    assert!((health - 83.333336).abs() < 0.001);
}

#[test]
fn health_infinite_when_design_is_zero() {
    let text = "POWER_SUPPLY_ENERGY_FULL=50000000\nPOWER_SUPPLY_ENERGY_FULL_DESIGN=0";
    let snap = snapshot_from_text(text).unwrap();
    assert_eq!(snap.energy_full, 50000000);
    assert_eq!(snap.energy_full_design, 0);
    let health = snap.energy_full as f32 / snap.energy_full_design as f32 * 100.0;
    assert!(health.is_infinite() && health > 0.0);
}

#[test]
fn health_nan_when_both_zero() {
    let text = "POWER_SUPPLY_ENERGY_FULL=0\nPOWER_SUPPLY_ENERGY_FULL_DESIGN=0";
    let snap = snapshot_from_text(text).unwrap();
    let health = snap.energy_full as f32 / snap.energy_full_design as f32 * 100.0;
    assert!(health.is_nan());
}

#[test]
fn status_charging_classifies() {
    let snap = snapshot_from_text("POWER_SUPPLY_STATUS=Charging").unwrap();
    assert_eq!(snap.status, Status::Charging);
}

#[test]
fn status_not_charging_is_unknown() {
    let snap = snapshot_from_text("POWER_SUPPLY_STATUS=Not charging").unwrap();
    assert_eq!(snap.status, Status::Unknown);
}

#[test]
fn status_full_and_discharging_classify() {
    assert_eq!(
        snapshot_from_text("POWER_SUPPLY_STATUS=Full").unwrap().status,
        Status::Full
    );
    assert_eq!(
        snapshot_from_text("POWER_SUPPLY_STATUS=Discharging").unwrap().status,
        Status::Discharging
    );
}

#[test]
fn level_classification() {
    assert_eq!(
        snapshot_from_text("POWER_SUPPLY_CAPACITY_LEVEL=Full").unwrap().capacity_level,
        Level::Full
    );
    assert_eq!(
        snapshot_from_text("POWER_SUPPLY_CAPACITY_LEVEL=Normal").unwrap().capacity_level,
        Level::Normal
    );
    assert_eq!(
        snapshot_from_text("POWER_SUPPLY_CAPACITY_LEVEL=Low").unwrap().capacity_level,
        Level::Unknown
    );
    assert_eq!(
        snapshot_from_text("POWER_SUPPLY_CAPACITY_LEVEL=Critical").unwrap().capacity_level,
        Level::Unknown
    );
}

#[test]
fn malformed_line_does_not_corrupt() {
    let text = "POWER_SUPPLY_NAME=BAT0\nthis line has no separator\nPOWER_SUPPLY_CAPACITY=55";
    let snap = snapshot_from_text(text).unwrap();
    assert_eq!(snap.name, "BAT0");
    assert_eq!(snap.capacity, 55);
}

#[test]
fn invalid_cycle_count_reports_field() {
    let text = "POWER_SUPPLY_CYCLE_COUNT=abc";
    match snapshot_from_text(text) {
        Err(ParseError::InvalidNumber { field, value }) => {
            assert_eq!(field, "POWER_SUPPLY_CYCLE_COUNT");
            assert_eq!(value, "abc");
        }
        other => panic!("expected InvalidNumber, got {:?}", other),
    }
}

#[test]
fn invalid_capacity_reports_field() {
    let text = "POWER_SUPPLY_CAPACITY=12%";
    match snapshot_from_text(text) {
        Err(ParseError::InvalidNumber { field, value }) => {
            assert_eq!(field, "POWER_SUPPLY_CAPACITY");
            assert_eq!(value, "12%");
        }
        other => panic!("expected InvalidNumber, got {:?}", other),
    }
}

#[test]
fn capacity_over_byte_range_fails() {
    let text = "POWER_SUPPLY_CAPACITY=300";
    match snapshot_from_text(text) {
        Err(ParseError::InvalidNumber { field, value }) => {
            assert_eq!(field, "POWER_SUPPLY_CAPACITY");
            assert_eq!(value, "300");
        }
        other => panic!("expected InvalidNumber, got {:?}", other),
    }
}

#[test]
fn first_invalid_field_is_blamed() {
    let text = "POWER_SUPPLY_VOLTAGE_NOW=x\nPOWER_SUPPLY_CAPACITY=y";
    match snapshot_from_text(text) {
        Err(ParseError::InvalidNumber { field, value }) => {
            assert_eq!(field, "POWER_SUPPLY_VOLTAGE_NOW");
            assert_eq!(value, "x");
        }
        other => panic!("expected InvalidNumber, got {:?}", other),
    }
}

#[test]
fn negative_cycle_count_parses() {
    let snap = snapshot_from_text("POWER_SUPPLY_CYCLE_COUNT=-3").unwrap();
    assert_eq!(snap.cycle_count, -3);
}

#[test]
fn plus_sign_accepted() {
    let snap =
        snapshot_from_text("POWER_SUPPLY_CYCLE_COUNT=+3\nPOWER_SUPPLY_CAPACITY=+7").unwrap();
    assert_eq!(snap.cycle_count, 3);
    assert_eq!(snap.capacity, 7);
}

#[test]
fn empty_numeric_value_fails() {
    match snapshot_from_text("POWER_SUPPLY_POWER_NOW=") {
        Err(ParseError::InvalidNumber { field, value }) => {
            assert_eq!(field, "POWER_SUPPLY_POWER_NOW");
            assert_eq!(value, "");
        }
        other => panic!("expected InvalidNumber, got {:?}", other),
    }
}

#[test]
fn status_labels() {
    assert_eq!(Status::Full.label(), "Full");
    assert_eq!(Status::Discharging.label(), "Discharging");
    assert_eq!(Status::Charging.label(), "Charging");
    assert_eq!(Status::NotCharging.label(), "Not charging");
    assert_eq!(Status::Unknown.label(), "???");
}

#[test]
fn level_labels() {
    assert_eq!(Level::Full.label(), "Full");
    assert_eq!(Level::Normal.label(), "Normal");
    assert_eq!(Level::Low.label(), "Low");
    assert_eq!(Level::Critical.label(), "Critical");
    assert_eq!(Level::Unknown.label(), "???");
}

#[test]
fn status_from_classifies_directly() {
    assert_eq!(Status::from("Charging"), Status::Charging);
    assert_eq!(Status::from("charging"), Status::Unknown);
    assert_eq!(Level::from("Normal"), Level::Normal);
    assert_eq!(Level::from(""), Level::Unknown);
}
