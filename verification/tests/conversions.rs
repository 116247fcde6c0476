use holochain_core::error::{
    describe_io_failure, reason_for_io_error, walk_failure, HolochainError, IoFailure,
};
use std::io::{Error, ErrorKind};

#[test]
fn io_reasons_by_class() {
    assert_eq!("contains invalid data: x", describe_io_failure(IoFailure::InvalidData, "x"));
    assert_eq!(
        "missing permissions to read: x",
        describe_io_failure(IoFailure::PermissionDenied, "x")
    );
    assert_eq!("unexpected error: x", describe_io_failure(IoFailure::Other, "x"));
}

#[test]
fn reason_for_io_error_names_kind_and_text() {
    let invalid = Error::new(ErrorKind::InvalidData, "broken bytes");
    assert_eq!("contains invalid data: broken bytes", reason_for_io_error(&invalid));
    let denied = Error::new(ErrorKind::PermissionDenied, "no entry");
    assert_eq!("missing permissions to read: no entry", reason_for_io_error(&denied));
    let other = Error::new(ErrorKind::TimedOut, "too slow");
    assert_eq!("unexpected error: too slow", reason_for_io_error(&other));
    let missing = Error::new(ErrorKind::NotFound, "gone");
    assert_eq!("unexpected error: gone", reason_for_io_error(&missing));
    let plain = Error::new(ErrorKind::Other, "");
    assert_eq!("unexpected error: ", reason_for_io_error(&plain));
}

#[test]
fn io_error_becomes_io_variant() {
    let err = HolochainError::from(Error::new(ErrorKind::InvalidData, "bad"));
    assert_eq!(HolochainError::IoError("contains invalid data: bad".to_string()), err);
}

#[test]
fn walk_failure_names_path_and_reason() {
    assert_eq!(
        HolochainError::IoError("error at path: /a/b, reason: why".to_string()),
        walk_failure(Some("/a/b".to_string()), Some("why".to_string()))
    );
    assert_eq!(
        HolochainError::IoError("error at path: , reason: ".to_string()),
        walk_failure(None, None)
    );
}

#[test]
fn walkdir_error_becomes_io_variant() {
    let missing = "/this/path/does/not/exist/for/the/chain";
    let first = walkdir::WalkDir::new(missing).into_iter().next();
    let failure = match first {
        Some(Err(failure)) => failure,
        _ => panic!("walking a missing directory reports an error first"),
    };
    let inner = failure.io_error().map(|e| e.to_string()).unwrap_or_default();
    let err = HolochainError::from(failure);
    assert_eq!(
        HolochainError::IoError(format!(
            "error at path: {}, reason: unexpected error: {}",
            missing, inner
        )),
        err
    );
}

#[test]
fn serde_error_becomes_serialization_variant() {
    let failure = match serde_json::from_str::<Vec<String>>("[1") {
        Err(failure) => failure,
        Ok(_) => panic!("the text is no JSON"),
    };
    let text = failure.to_string();
    assert!(!text.is_empty());
    assert_eq!(HolochainError::SerializationError(text), HolochainError::from(failure));
}

#[test]
fn canceled_future_becomes_generic() {
    let err = HolochainError::from(futures::channel::oneshot::Canceled);
    assert_eq!(HolochainError::ErrorGeneric("Failed future".to_string()), err);
}

#[test]
fn failed_actor_creation_becomes_generic() {
    let err = HolochainError::from(riker::actor::CreateError::Panicked);
    assert_eq!(HolochainError::ErrorGeneric("Failed to create actor in system".to_string()), err);
    let err = HolochainError::from(riker::actor::CreateError::InvalidName("n".to_string()));
    assert_eq!(HolochainError::ErrorGeneric("Failed to create actor in system".to_string()), err);
}
