use plato_calibre::datetime::{format_datetime, parse_datetime, DateTimeFields};

fn fields(year: i32, month: u32, day: u32, hour: u32, minute: u32, second: u32) -> DateTimeFields {
    DateTimeFields { year, month, day, hour, minute, second }
}

#[test]
fn format_pads_every_field() {
    assert_eq!(format_datetime(&fields(2024, 1, 1, 0, 0, 0)), "2024-01-01 00:00:00");
    assert_eq!(format_datetime(&fields(999, 12, 31, 23, 59, 59)), "0999-12-31 23:59:59");
    assert_eq!(format_datetime(&fields(2023, 7, 9, 5, 4, 3)), "2023-07-09 05:04:03");
}

#[test]
fn parse_reads_the_exact_shape() {
    assert_eq!(
        parse_datetime("2024-01-01 00:00:00"),
        Some(fields(2024, 1, 1, 0, 0, 0))
    );
    assert_eq!(
        parse_datetime("1999-12-31 23:59:59"),
        Some(fields(1999, 12, 31, 23, 59, 59))
    );
}

#[test]
fn parse_refuses_other_shapes() {
    assert_eq!(parse_datetime(""), None);
    assert_eq!(parse_datetime("not a date"), None);
    assert_eq!(parse_datetime("2024-01-01T00:00:00"), None);
    assert_eq!(parse_datetime("2024-01-01 00:00"), None);
    assert_eq!(parse_datetime("2024-01-01 00:00:00 "), None);
    assert_eq!(parse_datetime("2024-1-01 00:00:00"), None);
}

#[test]
fn parse_refuses_fields_out_of_range() {
    assert_eq!(parse_datetime("2024-13-01 00:00:00"), None);
    assert_eq!(parse_datetime("2024-00-01 00:00:00"), None);
    assert_eq!(parse_datetime("2024-01-32 00:00:00"), None);
    assert_eq!(parse_datetime("2024-01-00 00:00:00"), None);
    assert_eq!(parse_datetime("2024-01-01 24:00:00"), None);
    assert_eq!(parse_datetime("2024-01-01 00:60:00"), None);
    assert_eq!(parse_datetime("2024-01-01 00:00:60"), None);
}

#[test]
fn format_then_parse_round_trips() {
    let f = fields(2024, 2, 29, 12, 34, 56);
    assert_eq!(parse_datetime(&format_datetime(&f)), Some(f));
}
