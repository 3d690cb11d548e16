use potions_balance::decimal::Decimal;
use potions_balance::layout::TableError;
use potions_balance::number::{i32_text, parse_i32, parse_u32, u32_text};
use potions_balance::table::BalanceTable;

fn texts(rows: &[csv::StringRecord]) -> Vec<Vec<String>> {
    rows.iter().map(|r| r.iter().map(|c| c.to_string()).collect()).collect()
}

fn rows_of(cells: &[Vec<String>]) -> Vec<csv::StringRecord> {
    cells.iter().map(|r| csv::StringRecord::from(r.clone())).collect()
}

#[test]
fn presets_round_trip() {
    for t in [BalanceTable::original(), BalanceTable::recommended()] {
        let rows = t.to_rows();
        assert_eq!(rows.len(), 14);
        assert_eq!(BalanceTable::from_rows(&rows), Ok(t));
    }
}

#[test]
fn export_layout() {
    let rows = texts(&BalanceTable::original().to_rows());
    assert_eq!(rows[0][1], "Value");
    assert_eq!(rows[0][8], "Others Magnitude");
    assert_eq!(rows[1], vec!["Bargain", "5", "1.5", "8", "5", "5", "1", "8", "5"]);
    assert_eq!(rows[3], vec!["Standard", "35", "0.75", "30", "10", "5", "10", "30", "10"]);
    assert_eq!(rows[6], vec![""; 9]);
    assert_eq!(rows[7][..3], ["", "Value", "Weight"]);
    assert_eq!(rows[10][..3], ["Cure Poison / Paralyzation", "20", "0.5"]);
    assert_eq!(rows[13], vec!["Vampirism", "5000", "1.5", "", "", "", "", "", ""]);
}

#[test]
fn import_reads_by_position() {
    let mut cells = texts(&BalanceTable::recommended().to_rows());
    cells[3][1] = "+36".to_string();
    cells[3][3] = "-4".to_string();
    cells[8][2] = ".25".to_string();
    cells[0][0] = "anything".to_string();
    cells.push(vec!["extra".to_string()]);
    let t = BalanceTable::from_rows(&rows_of(&cells)).unwrap();
    assert_eq!(t.value.standard, 36);
    assert_eq!(t.duration_only.standard, -4);
    assert_eq!(t.tierless_weight.mark, Decimal { mantissa: 25, scale: 2 });
}

#[test]
fn import_errors() {
    let cells = texts(&BalanceTable::original().to_rows());
    assert_eq!(BalanceTable::from_rows(&rows_of(&cells[..12])), Err(TableError::MissingRow { row: 12 }));
    assert_eq!(BalanceTable::from_rows(&Vec::new()), Err(TableError::MissingRow { row: 0 }));
    let mut bad = cells.clone();
    bad[2][4] = "x".to_string();
    bad[9][1] = "y".to_string();
    assert_eq!(BalanceTable::from_rows(&rows_of(&bad)), Err(TableError::BadCell { row: 2, column: 4 }));
    let mut short = cells.clone();
    short[11].truncate(2);
    assert_eq!(BalanceTable::from_rows(&rows_of(&short)), Err(TableError::BadCell { row: 11, column: 2 }));
    let mut big = cells.clone();
    big[1][1] = "4294967296".to_string();
    assert_eq!(BalanceTable::from_rows(&rows_of(&big)), Err(TableError::BadCell { row: 1, column: 1 }));
}

#[test]
fn integer_texts() {
    assert_eq!(parse_u32("+5"), Some(5));
    assert_eq!(parse_u32("4294967295"), Some(u32::MAX));
    assert_eq!(parse_u32("4294967296"), None);
    assert_eq!(parse_u32(""), None);
    assert_eq!(parse_u32("+"), None);
    assert_eq!(parse_u32("-1"), None);
    assert_eq!(parse_u32(" 1"), None);
    assert_eq!(parse_i32("-2147483648"), Some(i32::MIN));
    assert_eq!(parse_i32("2147483648"), None);
    assert_eq!(parse_i32("-0"), Some(0));
    assert_eq!(parse_i32("-"), None);
    assert_eq!(u32_text(0), "0");
    assert_eq!(u32_text(4096), "4096");
    assert_eq!(i32_text(i32::MIN), "-2147483648");
    assert_eq!(i32_text(-7), "-7");
}

#[test]
fn decimal_texts() {
    assert_eq!(Decimal::parse("0.75"), Some(Decimal { mantissa: 75, scale: 2 }));
    assert_eq!(Decimal::parse("1"), Some(Decimal { mantissa: 1, scale: 0 }));
    assert_eq!(Decimal::parse("1."), Some(Decimal { mantissa: 1, scale: 0 }));
    assert_eq!(Decimal::parse(".5"), Some(Decimal { mantissa: 5, scale: 1 }));
    assert_eq!(Decimal::parse("+2.50"), Some(Decimal { mantissa: 250, scale: 2 }));
    assert_eq!(Decimal::parse("."), None);
    assert_eq!(Decimal::parse(""), None);
    assert_eq!(Decimal::parse("1e3"), None);
    assert_eq!(Decimal::parse("1.2.3"), None);
    assert_eq!(Decimal::parse("-1"), None);
    assert_eq!(Decimal::parse("18446744073709551616"), None);
    assert_eq!(Decimal { mantissa: 75, scale: 2 }.to_text(), "0.75");
    assert_eq!(Decimal { mantissa: 5, scale: 3 }.to_text(), "0.005");
    assert_eq!(Decimal { mantissa: 1234, scale: 1 }.to_text(), "123.4");
    assert_eq!(Decimal { mantissa: 250, scale: 2 }.to_text(), "2.50");
    assert_eq!(Decimal { mantissa: 0, scale: 0 }.to_text(), "0");
}
