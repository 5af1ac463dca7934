use xbattory::record::{parse_record, RawRecord};

#[test]
fn simple_pairs_are_recorded() {
    let rec = parse_record("A=1\nB=2");
    assert_eq!(rec.get("A").unwrap(), "1");
    assert_eq!(rec.get("B").unwrap(), "2");
    assert!(rec.get("C").is_none());
}

#[test]
fn duplicate_key_last_wins() {
    let rec = parse_record("K=first\nK=second");
    assert_eq!(rec.get("K").unwrap(), "second");
}

#[test]
fn surrounding_whitespace_is_trimmed() {
    let rec = parse_record("  POWER_SUPPLY_CAPACITY  =  42  ");
    assert_eq!(rec.get("POWER_SUPPLY_CAPACITY").unwrap(), "42");
}

#[test]
fn carriage_return_is_trimmed() {
    let rec = parse_record("A=1\r\nB=2\r\n");
    assert_eq!(rec.get("A").unwrap(), "1");
    assert_eq!(rec.get("B").unwrap(), "2");
}

#[test]
fn value_keeps_later_separators() {
    let rec = parse_record("A=b=c");
    assert_eq!(rec.get("A").unwrap(), "b=c");
}

#[test]
fn empty_value_is_recorded() {
    let rec = parse_record("A=");
    assert_eq!(rec.get("A").unwrap(), "");
}

#[test]
fn line_without_separator_is_skipped() {
    let rec = parse_record("A=1\nno separator here\nB=2");
    assert_eq!(rec.get("A").unwrap(), "1");
    assert_eq!(rec.get("B").unwrap(), "2");
    assert!(rec.get("no separator here").is_none());
    assert!(rec.get("").is_none());
}

#[test]
fn empty_text_records_nothing() {
    let rec = parse_record("");
    assert!(rec.get("").is_none());
    assert!(rec.get("A").is_none());
}

#[test]
fn insert_replaces_earlier_value() {
    let mut rec = RawRecord::new();
    rec.insert("K".to_owned(), "v1".to_owned());
    rec.insert("K".to_owned(), "v2".to_owned());
    assert_eq!(rec.get("K").unwrap(), "v2");
}
