use holochain_core::error::{DnaError, HolochainError};

// a test function that returns our error result
fn raises_holochain_error(yes: bool) -> Result<(), HolochainError> {
    if yes {
        Err(HolochainError::new("borked"))
    } else {
        Ok(())
    }
}

#[test]
/// test that we can convert an error to a string
fn to_string() {
    let err = HolochainError::new("foo");
    assert_eq!(r#"ErrorGeneric("foo")"#, err.to_string());
}

#[test]
/// test that we can convert an error to valid JSON
fn test_to_json() {
    let err = HolochainError::new("foo");
    assert_eq!(r#"{"error":"foo"}"#, err.to_json().unwrap());
}

#[test]
/// smoke test new errors
fn can_instantiate() {
    let err = HolochainError::new("borked");

    assert_eq!(HolochainError::ErrorGeneric("borked".to_string()), err);
}

#[test]
/// test errors as a result and destructuring
fn can_raise_holochain_error() {
    let err = raises_holochain_error(true).expect_err("should return an error when yes=true");

    match err {
        HolochainError::ErrorGeneric(msg) => assert_eq!(msg, "borked"),
        _ => panic!("raises_holochain_error should return an ErrorGeneric"),
    };
}

#[test]
/// test errors as a returned result
fn can_return_result() {
    let result = raises_holochain_error(false);

    assert!(result.is_ok());
}

#[test]
fn dna_error_renders_inside_its_wrapper() {
    let err = HolochainError::DnaError(DnaError::ZomeNotFound("z\"1".to_string()));
    assert_eq!(r#"DnaError(ZomeNotFound("z\"1"))"#, err.to_string());
    assert_eq!("z\"1", err.description());
}

#[test]
fn descriptions_of_fixed_kinds() {
    assert_eq!("not implemented", HolochainError::NotImplemented.description());
    assert_eq!("the instance is not active", HolochainError::InstanceNotActive.description());
    assert_eq!("the instance is active", HolochainError::InstanceActive.description());
    assert_eq!("logging failed", HolochainError::LoggingError.description());
    assert_eq!("DNA is missing", HolochainError::DnaMissing.description());
    assert_eq!(
        "operation cannot be done on a system entry type",
        HolochainError::InvalidOperationOnSysEntry.description()
    );
    assert_eq!(
        "Caller does not have Capability to make that call",
        HolochainError::DoesNotHaveCapabilityToken.description()
    );
}

#[test]
fn descriptions_of_carried_messages() {
    assert_eq!("m", HolochainError::ErrorGeneric("m".to_string()).description());
    assert_eq!("io", HolochainError::IoError("io".to_string()).description());
    assert_eq!("ser", HolochainError::SerializationError("ser".to_string()).description());
    assert_eq!("cap", DnaError::CapabilityNotFound("cap".to_string()).description());
    assert_eq!("fun", DnaError::ZomeFunctionNotFound("fun".to_string()).description());
    assert_eq!(
        "zome",
        HolochainError::DnaError(DnaError::ZomeNotFound("zome".to_string())).description()
    );
}

#[test]
fn renderings_follow_the_structure() {
    assert_eq!("InstanceNotActive", HolochainError::InstanceNotActive.to_string());
    assert_eq!("InstanceActive", HolochainError::InstanceActive.to_string());
    assert_eq!("NotImplemented", HolochainError::NotImplemented.to_string());
    assert_eq!("LoggingError", HolochainError::LoggingError.to_string());
    assert_eq!("DnaMissing", HolochainError::DnaMissing.to_string());
    assert_eq!("InvalidOperationOnSysEntry", HolochainError::InvalidOperationOnSysEntry.to_string());
    assert_eq!("DoesNotHaveCapabilityToken", HolochainError::DoesNotHaveCapabilityToken.to_string());
    assert_eq!(r#"IoError("a\\b")"#, HolochainError::IoError("a\\b".to_string()).to_string());
    assert_eq!(
        r#"SerializationError("x\ny")"#,
        HolochainError::SerializationError("x\ny".to_string()).to_string()
    );
    assert_eq!(
        r#"CapabilityNotFound("c")"#,
        DnaError::CapabilityNotFound("c".to_string()).to_string()
    );
    assert_eq!(
        r#"DnaError(ZomeFunctionNotFound("f"))"#,
        HolochainError::DnaError(DnaError::ZomeFunctionNotFound("f".to_string())).to_string()
    );
}

#[test]
fn rendering_agrees_with_derived_debug() {
    let errors = vec![
        HolochainError::new("with \"quotes\" and \t tab"),
        HolochainError::DnaMissing,
        HolochainError::DnaError(DnaError::ZomeNotFound("é".to_string())),
        HolochainError::IoError(String::new()),
    ];
    for err in errors {
        assert_eq!(format!("{:?}", err), err.to_string());
    }
}

#[test]
fn json_rendering_does_not_escape() {
    let err = HolochainError::new("say \"hi\"");
    assert_eq!("{\"error\":\"say \"hi\"\"}", err.to_json().unwrap());
    assert_eq!(
        "{\"error\":\"DNA is missing\"}",
        HolochainError::DnaMissing.to_json().unwrap()
    );
}

#[test]
fn errors_are_equal_by_variant_and_payload() {
    assert_eq!(HolochainError::new("a"), HolochainError::ErrorGeneric("a".to_string()));
    assert_ne!(HolochainError::new("a"), HolochainError::new("b"));
    assert_ne!(HolochainError::new("a"), HolochainError::IoError("a".to_string()));
    assert_eq!(HolochainError::new("a").clone(), HolochainError::new("a"));
    let mut seen = std::collections::HashSet::new();
    seen.insert(HolochainError::new("a"));
    seen.insert(HolochainError::new("a"));
    seen.insert(HolochainError::DnaMissing);
    assert_eq!(2, seen.len());
}
