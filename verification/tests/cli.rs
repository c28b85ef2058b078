use std::str::FromStr;

use tarballin::cli::Conn;

#[test]
fn test_str() {
    assert_eq!(Conn::from_str("-").unwrap(), Conn::Stdio);
}

#[test]
fn rejects_unknown_connection() {
    let err = Conn::from_str("tcp:9000").unwrap_err();
    assert_eq!(err.0, "tcp:9000");
}

#[test]
fn default_connection_is_stdio() {
    assert_eq!(Conn::default(), Conn::Stdio);
}
