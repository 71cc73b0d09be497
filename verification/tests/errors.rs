use mycloud::errors::CloudStoreError;

#[test]
fn error_messages() {
    assert_eq!(CloudStoreError::NotFound("x".into()).message(), "File not found: x");
    assert_eq!(CloudStoreError::InvalidPath("p".into()).message(), "Invalid path: p");
    assert_eq!(
        CloudStoreError::ProviderError { provider: "gdrive".into(), message: "m".into() }.message(),
        "Provider error: gdrive - m"
    );
    assert_eq!(
        CloudStoreError::UploadTooLarge { size: 10, limit: 5 }.message(),
        "Upload too large: 10 bytes exceeds limit of 5 bytes"
    );
    assert_eq!(CloudStoreError::Validation("v".into()).message(), "Validation error: v");
}
