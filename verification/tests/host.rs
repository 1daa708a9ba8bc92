use lance::error::{Error, ErrorKind};
use lance::host::{host_error, HostErrorKind, Operation};

fn one_of_each() -> Vec<Error> {
    vec![
        Error::InvalidRef {
            message: "m".to_string(),
        },
        Error::VersionNotFound {
            message: "m".to_string(),
        },
        Error::NotFound {
            uri: "u".to_string(),
        },
        Error::RefConflict {
            message: "m".to_string(),
        },
        Error::RefNotFound {
            message: "m".to_string(),
        },
        Error::IOError {
            message: "m".to_string(),
        },
        Error::ParseError {
            message: "m".to_string(),
        },
    ]
}

#[test]
fn every_failure_of_a_list_is_a_value_error() {
    for error in one_of_each() {
        assert_eq!(host_error(Operation::List, &error).kind, HostErrorKind::Value);
    }
}

#[test]
fn create_failures_for_the_host() {
    for error in one_of_each() {
        let expected = match error.kind() {
            ErrorKind::NotFound | ErrorKind::RefConflict | ErrorKind::VersionNotFound => {
                HostErrorKind::Value
            }
            _ => HostErrorKind::Io,
        };
        assert_eq!(host_error(Operation::Create, &error).kind, expected);
    }
}

#[test]
fn delete_failures_for_the_host() {
    for error in one_of_each() {
        let expected = match error.kind() {
            ErrorKind::NotFound | ErrorKind::RefNotFound => HostErrorKind::Value,
            _ => HostErrorKind::Io,
        };
        assert_eq!(host_error(Operation::Delete, &error).kind, expected);
    }
}

#[test]
fn the_message_is_the_full_text() {
    let error = Error::RefConflict {
        message: "tag v1 already exists".to_string(),
    };
    let raised = host_error(Operation::Create, &error);
    assert_eq!(raised.kind, HostErrorKind::Value);
    assert_eq!(raised.message, "Ref conflict error: tag v1 already exists");
    assert_eq!(raised.message, error.to_string());
}

#[test]
fn error_texts_open_with_their_kind() {
    let texts: Vec<String> = one_of_each().iter().map(|e| e.to_string()).collect();
    assert_eq!(
        texts,
        vec![
            "Ref is invalid. Ref must confirm to git ref formatting rules. m",
            "Version not found error: m",
            "Not found: u",
            "Ref conflict error: m",
            "Ref not found error: m",
            "IO error: m",
            "Parse error: m",
        ]
    );
}

#[test]
fn error_kinds() {
    let kinds: Vec<ErrorKind> = one_of_each().iter().map(|e| e.kind()).collect();
    assert_eq!(
        kinds,
        vec![
            ErrorKind::InvalidRef,
            ErrorKind::VersionNotFound,
            ErrorKind::NotFound,
            ErrorKind::RefConflict,
            ErrorKind::RefNotFound,
            ErrorKind::IOError,
            ErrorKind::ParseError,
        ]
    );
}
