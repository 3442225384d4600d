use flowframe::connection::{ConnectionContext, ConnectionError};
use flowframe::frames::FramingError;

#[test]
fn new_connection_has_no_error() {
    let c = ConnectionContext::new(3);
    assert!(!c.has_err());
}

#[test]
fn errors_convert_to_general() {
    match ConnectionError::from(()) {
        ConnectionError::General => {}
        other => panic!("unexpected {:?}", other),
    }
    match ConnectionError::from(FramingError::InvalidFrame) {
        ConnectionError::General => {}
        other => panic!("unexpected {:?}", other),
    }
}
