use tunnelblick::status::format_status;
use tunnelblick::{parse_and_format, parse_status, StatusError};

#[test]
fn parses_one_well_formed_row() {
    let reply = "yes\u{1f}connected\u{1f}Office\u{1f}1024\u{1f}2048\u{1e}";
    let rows = parse_status(reply).unwrap();
    assert_eq!(rows.len(), 1);
    assert_eq!(rows[0].autoconnect, "yes");
    assert_eq!(rows[0].state, "connected");
    assert_eq!(rows[0].name, "Office");
    assert_eq!(rows[0].bytesin, 1024);
    assert_eq!(rows[0].bytesout, 2048);
}

#[test]
fn reemits_one_row_tab_delimited_in_field_order() {
    let reply = "yes\u{1f}connected\u{1f}Office\u{1f}1024\u{1f}2048\u{1e}";
    let rows = parse_status(reply).unwrap();
    assert_eq!(format_status(&rows), "yes\tconnected\tOffice\t1024\t2048\n");
}

#[test]
fn parses_row_without_final_terminator() {
    let reply = "no\u{1f}idle\u{1f}Home\u{1f}1\u{1f}2";
    let rows = parse_status(reply).unwrap();
    assert_eq!(rows.len(), 1);
    assert_eq!(rows[0].name, "Home");
}

#[test]
fn non_numeric_byte_count_fails_whole_reply() {
    let reply = "yes\u{1f}connected\u{1f}Office\u{1f}abc\u{1f}2048\u{1e}";
    assert_eq!(parse_status(reply).unwrap_err(), StatusError::BadByteCount);
    assert_eq!(parse_and_format(reply), Err(StatusError::BadByteCount));
}

#[test]
fn bad_row_after_good_row_yields_error_not_partial_output() {
    let reply = "yes\u{1f}connected\u{1f}Office\u{1f}1024\u{1f}2048\u{1e}\
                 no\u{1f}idle\u{1f}Home\u{1f}1\u{1f}oops\u{1e}";
    assert_eq!(parse_and_format(reply), Err(StatusError::BadByteCount));
}

#[test]
fn wrong_field_count_is_its_own_error() {
    let reply = "yes\u{1f}connected\u{1e}";
    assert_eq!(parse_status(reply).unwrap_err(), StatusError::WrongFieldCount);
}

#[test]
fn first_bad_row_decides_the_error() {
    let reply = "yes\u{1f}connected\u{1e}\
                 no\u{1f}idle\u{1f}Home\u{1f}1\u{1f}oops\u{1e}";
    assert_eq!(parse_status(reply).unwrap_err(), StatusError::WrongFieldCount);
}

#[test]
fn empty_reply_gives_empty_output_not_error() {
    assert_eq!(parse_status("").unwrap().len(), 0);
    assert_eq!(parse_and_format(""), Ok(String::new()));
}

#[test]
fn two_rows_come_out_aligned_in_arrival_order() {
    let reply = "yes\u{1f}connected\u{1f}Office\u{1f}1024\u{1f}2048\u{1e}\
                 no\u{1f}disconnected\u{1f}Home\u{1f}1\u{1f}2\u{1e}";
    let formatted = parse_and_format(reply).unwrap();
    assert_eq!(
        formatted,
        "yes  connected     Office  1024  2048\nno   disconnected  Home    1     2\n"
    );
}

#[test]
fn byte_counters_up_to_u64_max_parse() {
    let reply = "yes\u{1f}connected\u{1f}Big\u{1f}18446744073709551615\u{1f}0\u{1e}";
    let rows = parse_status(reply).unwrap();
    assert_eq!(rows[0].bytesin, u64::MAX);
    assert_eq!(rows[0].bytesout, 0);
}

#[test]
fn byte_counter_overflow_is_a_decode_failure() {
    let reply = "yes\u{1f}connected\u{1f}Big\u{1f}18446744073709551616\u{1f}0\u{1e}";
    assert_eq!(parse_status(reply).unwrap_err(), StatusError::BadByteCount);
}

#[test]
fn empty_byte_counter_is_a_decode_failure() {
    let reply = "yes\u{1f}connected\u{1f}Office\u{1f}\u{1f}2048\u{1e}";
    assert_eq!(parse_status(reply).unwrap_err(), StatusError::BadByteCount);
}
