use potions_balance::merge::PotionSet;
use potions_balance::order::{extension, resolve_order, text_less, ContentEntry};
use potions_balance::output::{output_header, FORMAT_VERSION};
use potions_balance::potion::{EffectEntry, PotionRecord, Weight};
use potions_balance::scan::{
    check_file, collect_file, is_own_output, scan_files, ContentFile, DecodedRecord, FileError,
    FileErrorKind, ScanError,
};

fn potion(id: &str, value: u32) -> PotionRecord {
    PotionRecord {
        id: id.to_string(),
        value,
        weight: Weight::Stored(0),
        auto_calculate: false,
        effects: vec![EffectEntry { index: Some(75), duration: 1, magnitude_min: 1, magnitude_max: 1 }],
    }
}

fn file(name: &str, author: &str, modified: i64, records: Vec<DecodedRecord>) -> ContentFile {
    ContentFile { name: name.to_string(), author: author.to_string(), modified, records }
}

fn entry(name: &str, seconds: i64) -> ContentEntry {
    ContentEntry { name: name.to_string(), modified_seconds: seconds, modified_nanos: 0 }
}

fn values(set: PotionSet) -> Vec<(String, u32)> {
    set.into_records().into_iter().map(|p| (p.id, p.value)).collect()
}

#[test]
fn extension_then_time_order() {
    let order = resolve_order(vec![entry("c.esp", 200), entry("a.esm", 100), entry("b.esp", 50)]);
    let names: Vec<&str> = order.iter().map(|e| e.name.as_str()).collect();
    assert_eq!(names, ["a.esm", "b.esp", "c.esp"]);
}

#[test]
fn extension_compared_in_upper_case() {
    let order = resolve_order(vec![
        entry("x.ESP", 10),
        entry("y.esm", 30),
        entry("noext", 99),
        entry("z.Esp", 5),
    ]);
    let names: Vec<&str> = order.iter().map(|e| e.name.as_str()).collect();
    assert_eq!(names, ["noext", "y.esm", "z.Esp", "x.ESP"]);
}

#[test]
fn extensions() {
    assert_eq!(extension("a.esm").as_deref(), Some("esm"));
    assert_eq!(extension("a.b.esp").as_deref(), Some("esp"));
    assert_eq!(extension(".hidden"), None);
    assert_eq!(extension("plain"), None);
    assert_eq!(extension("end.").as_deref(), Some(""));
}

#[test]
fn later_files_override_earlier() {
    let files = vec![
        file("a.esm", "x", 10, vec![DecodedRecord::Potion(potion("p_one", 1)), DecodedRecord::Potion(potion("p_two", 2))]),
        file("b.esp", "y", 20, vec![DecodedRecord::Other]),
        file("c.esp", "z", 30, vec![DecodedRecord::Potion(potion("P_ONE", 3))]),
    ];
    let s = scan_files(files, true).unwrap();
    assert_eq!(s.output_time, 150);
    assert_eq!(values(s.potions), [("P_ONE".to_string(), 3), ("p_two".to_string(), 2)]);
}

#[test]
fn own_output_is_skipped_and_not_dated() {
    let files = vec![
        file("a.esm", "x", 10, vec![DecodedRecord::Potion(potion("p_one", 1))]),
        file("out.esp", "potions_balance", 500, vec![DecodedRecord::Potion(potion("p_one", 9))]),
    ];
    let s = scan_files(files.clone(), true).unwrap();
    assert_eq!(s.output_time, 130);
    assert_eq!(values(s.potions), [("p_one".to_string(), 1)]);
    let forced = scan_files(files, false).unwrap();
    assert_eq!(forced.output_time, 130);
    assert_eq!(values(forced.potions), [("p_one".to_string(), 9)]);
    assert!(is_own_output("potions_balance"));
    assert!(!is_own_output("potions_balance "));
}

#[test]
fn scan_errors() {
    assert_eq!(scan_files(vec![file("a.esm", "x", 1, vec![DecodedRecord::Other])], true).err(), Some(ScanError::NoPotions));
    let late = vec![file("a.esm", "x", i64::MAX - 119, vec![DecodedRecord::Potion(potion("p", 1))])];
    assert_eq!(scan_files(late, true).err(), Some(ScanError::TimeOverflow));
    let edge = vec![file("a.esm", "x", i64::MAX - 120, vec![DecodedRecord::Potion(potion("p", 1))])];
    assert_eq!(scan_files(edge, true).unwrap().output_time, i64::MAX);
    let broken = vec![
        file("a.esm", "x", 1, vec![DecodedRecord::Potion(potion("p", 1))]),
        file("b.esp", "x", 2, vec![DecodedRecord::Broken { potion: false }, DecodedRecord::Broken { potion: true }]),
    ];
    assert_eq!(
        scan_files(broken, true).err(),
        Some(ScanError::File { file: 1, error: FileError { record: 1, kind: FileErrorKind::Decode } })
    );
}

#[test]
fn file_errors() {
    let dup = vec![DecodedRecord::Potion(potion("p a", 1)), DecodedRecord::Other, DecodedRecord::Potion(potion("P  A", 2))];
    assert_eq!(check_file(&dup), Some(FileError { record: 2, kind: FileErrorKind::DuplicateId }));
    let unnamed = vec![DecodedRecord::Broken { potion: false }, DecodedRecord::UnnamedPotion];
    assert_eq!(check_file(&unnamed), Some(FileError { record: 1, kind: FileErrorKind::MissingId }));
    let mut set = PotionSet::new();
    let f = file("a.esp", "x", 1, dup);
    assert_eq!(collect_file(&mut set, f, true), Err(FileError { record: 2, kind: FileErrorKind::DuplicateId }));
    assert_eq!(set.len(), 0);
    let g = file("b.esp", "x", 1, vec![DecodedRecord::Broken { potion: false }, DecodedRecord::Potion(potion("q", 4))]);
    assert_eq!(collect_file(&mut set, g, true), Ok(true));
    assert_eq!(set.len(), 1);
    let h = file("c.esp", "x", 1, vec![DecodedRecord::Other]);
    assert_eq!(collect_file(&mut set, h, true), Ok(false));
}

#[test]
fn header_counts_potions() {
    let h = output_header("Potions balance.", 3).unwrap();
    assert_eq!(h.version, FORMAT_VERSION);
    assert_eq!(h.author, "potions_balance");
    assert_eq!(h.description, "Potions balance.");
    assert_eq!(h.records, 3);
    assert_eq!(output_header("d", usize::MAX), None);
}

#[test]
fn text_order() {
    assert!(text_less("ESM", "ESP"));
    assert!(!text_less("ESP", "ESP"));
    assert!(text_less("ES", "ESP"));
    assert!(!text_less("ESP", "ES"));
    assert!(text_less("", "A"));
}

#[test]
fn equal_keys_keep_their_order() {
    let order = resolve_order(vec![entry("b.esp", 5), entry("a.esp", 5), entry("c.esm", 9)]);
    let names: Vec<&str> = order.iter().map(|e| e.name.as_str()).collect();
    assert_eq!(names, ["c.esm", "b.esp", "a.esp"]);
}
