use hal_core::error::IoError;

#[test]
fn error_descriptions_name_the_taxonomy() {
    assert_eq!(IoError::BadAddress.description(), "invalid address");
    assert_eq!(IoError::NotPermitted.description(), "operation not permitted");
    assert_eq!(IoError::BadDescriptor.description(), "bad descriptor");
    assert_eq!(IoError::InvalidArgument.description(), "invalid argument");
}

#[test]
fn errors_compare_by_variant() {
    assert_eq!(IoError::BadAddress, IoError::BadAddress);
    assert_ne!(IoError::BadAddress, IoError::BadDescriptor);
    assert_ne!(IoError::NotPermitted, IoError::InvalidArgument);
}
