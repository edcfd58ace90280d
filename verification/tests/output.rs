//! Tests for the four-fractional-digit decimal rendering.

use toy_processor::account::Account;
use toy_processor::output::format_units;
use toy_processor::output::AccountOutput;

#[test]
fn format_whole_amounts() {
    assert_eq!(format_units(800_000), "80.0000");
    assert_eq!(format_units(1_000_000), "100.0000");
    assert_eq!(format_units(0), "0.0000");
}

#[test]
fn format_fractional_amounts() {
    assert_eq!(format_units(151_235), "15.1235");
    assert_eq!(format_units(1), "0.0001");
    assert_eq!(format_units(10_001), "1.0001");
    assert_eq!(format_units(505_000), "50.5000");
}

#[test]
fn format_negative_amounts() {
    assert_eq!(format_units(-800_000), "-80.0000");
    assert_eq!(format_units(-1), "-0.0001");
}

#[test]
fn format_large_amounts() {
    assert_eq!(format_units(92_233_720_368_547_758_070), "9223372036854775.8070");
    assert_eq!(format_units(i128::MIN), "-17014118346046923173168730371588410.5728");
}

#[test]
fn output_snapshot_totals_at_emission() {
    let mut account = Account::new(3);
    account.deposit(1_000_000).unwrap();
    account.dispute(250_000).unwrap();

    let out = AccountOutput::from(account);
    assert_eq!(out.client, 3);
    assert_eq!(out.available, "75.0000");
    assert_eq!(out.held, "25.0000");
    assert_eq!(out.total, "100.0000");
    assert!(!out.locked);
}
