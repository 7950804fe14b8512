use wg_restarter::parse::first_peer_handshake_ts;

#[test]
fn empty_input_is_absent() {
    assert_eq!(first_peer_handshake_ts(""), None);
}

#[test]
fn no_tab_on_first_line_is_absent() {
    assert_eq!(first_peer_handshake_ts("abc123"), None);
    assert_eq!(first_peer_handshake_ts("abc 123\n"), None);
}

#[test]
fn no_tab_on_first_line_even_when_later_lines_have_one() {
    assert_eq!(first_peer_handshake_ts("abc\ndef\t5\n"), None);
}

#[test]
fn plain_line_parses() {
    assert_eq!(
        first_peer_handshake_ts("abc123\t1700000000\n"),
        Some(1700000000)
    );
}

#[test]
fn line_without_trailing_newline_parses() {
    assert_eq!(first_peer_handshake_ts("abc123\t42"), Some(42));
}

#[test]
fn whitespace_around_number_is_trimmed() {
    assert_eq!(first_peer_handshake_ts("peer\t  42  \n"), Some(42));
    assert_eq!(first_peer_handshake_ts("peer\t\t42\r\n"), Some(42));
}

#[test]
fn leading_plus_sign_is_accepted() {
    assert_eq!(first_peer_handshake_ts("peer\t+7\n"), Some(7));
}

#[test]
fn zero_timestamp_parses_to_zero() {
    assert_eq!(first_peer_handshake_ts("abc123\t0\n"), Some(0));
}

#[test]
fn only_first_line_is_consulted() {
    assert_eq!(
        first_peer_handshake_ts("a\t5\nb\t9\nc\t11\n"),
        Some(5)
    );
}

#[test]
fn non_numeric_field_is_absent() {
    assert_eq!(first_peer_handshake_ts("peer\tsoon\n"), None);
    assert_eq!(first_peer_handshake_ts("peer\t12a\n"), None);
    assert_eq!(first_peer_handshake_ts("peer\t12 34\n"), None);
    assert_eq!(first_peer_handshake_ts("peer\t-5\n"), None);
}

#[test]
fn empty_field_is_absent() {
    assert_eq!(first_peer_handshake_ts("peer\t\n"), None);
    assert_eq!(first_peer_handshake_ts("peer\t   \n"), None);
    assert_eq!(first_peer_handshake_ts("peer\t+\n"), None);
}

#[test]
fn largest_value_parses() {
    assert_eq!(
        first_peer_handshake_ts("peer\t18446744073709551615\n"),
        Some(u64::MAX)
    );
}

#[test]
fn overflowing_value_is_absent() {
    assert_eq!(first_peer_handshake_ts("peer\t18446744073709551616\n"), None);
    assert_eq!(
        first_peer_handshake_ts("peer\t99999999999999999999999999\n"),
        None
    );
}

#[test]
fn leading_zeros_parse() {
    assert_eq!(first_peer_handshake_ts("peer\t007\n"), Some(7));
}
