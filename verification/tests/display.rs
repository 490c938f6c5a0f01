use l2companion::display::{format_number, format_unix_timestamp};
use l2companion::endpoint::Endpoint;

#[test]
fn numbers_get_thousands_separators() {
    assert_eq!(format_number(0), "0");
    assert_eq!(format_number(999), "999");
    assert_eq!(format_number(1000), "1,000");
    assert_eq!(format_number(1234567), "1,234,567");
    assert_eq!(format_number(u64::MAX), "18,446,744,073,709,551,615");
}

#[test]
fn timestamps_render_as_utc_dates() {
    assert_eq!(format_unix_timestamp(0), "-");
    assert_eq!(format_unix_timestamp(1), "1970/01/01 00:00");
    assert_eq!(format_unix_timestamp(951782400), "2000/02/29 00:00");
    assert_eq!(format_unix_timestamp(1700000000), "2023/11/14 22:13");
    assert_eq!(format_unix_timestamp(1704067199), "2023/12/31 23:59");
    assert_eq!(format_unix_timestamp(u32::MAX), "2106/02/07 06:28");
}

#[test]
fn endpoints_render_dotted() {
    let e = Endpoint::new(192, 168, 1, 50, 60001);
    assert_eq!(e.to_text(), "192.168.1.50:60001");
    assert_eq!(e.octets(), [192, 168, 1, 50]);
    assert_eq!(Endpoint::new(0, 0, 0, 0, 0).to_text(), "0.0.0.0:0");
}

#[test]
fn separators_keep_the_digits() {
    for n in [0u64, 7, 12345, 1000000, 987654321012] {
        assert_eq!(format_number(n).replace(',', ""), n.to_string());
    }
}
