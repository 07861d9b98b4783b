//! The unit enumeration serializes to the exact wire-format names.

use aws_embedded_metrics::Unit;

#[test]
fn unit_serializes() {
    for (unit, expected) in &[
        (Unit::Seconds, "Seconds"),
        (Unit::Microseconds, "Microseconds"),
        (Unit::Milliseconds, "Milliseconds"),
        (Unit::Bytes, "Bytes"),
        (Unit::Kilobytes, "Kilobytes"),
        (Unit::Gigabytes, "Gigabytes"),
        (Unit::Terabytes, "Terabytes"),
        (Unit::Bits, "Bits"),
        (Unit::Kilobits, "Kilobits"),
        (Unit::Megabits, "Megabits"),
        (Unit::Gigabits, "Gigabits"),
        (Unit::Terabits, "Terabits"),
        (Unit::Percent, "Percent"),
        (Unit::Count, "Count"),
        (Unit::BytesPerSecond, "Bytes/Second"),
        (Unit::KilobytesPerSecond, "Kilobytes/Second"),
        (Unit::MegabytesPerSecond, "Megabytes/Second"),
        (Unit::GigabytesPerSecond, "Gigabytes/Second"),
        (Unit::TerabytesPerSecond, "Terabytes/Second"),
        (Unit::BitsPerSecond, "Bits/Second"),
        (Unit::KilobitsPerSecond, "Kilobits/Second"),
        (Unit::MegabitsPerSecond, "Megabits/Second"),
        (Unit::GigabitsPerSecond, "Gigabits/Second"),
        (Unit::TerabitsPerSecond, "Terabits/Second"),
        (Unit::CountPerSecond, "Count/Second"),
        (Unit::NoUnit, "None"),
    ] {
        assert_eq!(
            format!("\"{}\"", unit.as_str()),
            format!("\"{}\"", expected)
        );
    }
}

#[test]
fn remaining_units_serialize() {
    assert_eq!(Unit::Megabytes.as_str(), "Megabytes");
}

#[test]
fn default_unit_is_none() {
    assert_eq!(Unit::default().as_str(), "None");
}
