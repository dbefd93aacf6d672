use tmkms_core::commands::{KeygenCommand, ListCommand, ObjectEntry};
use tmkms_core::error::SigningError;
use tmkms_core::provider::{provider_error, ProviderFailure};

fn obj(object_id: u16, is_asymmetric_key: bool) -> ObjectEntry {
    ObjectEntry { object_id, is_asymmetric_key }
}

#[test]
fn keygen_needs_exactly_one_path() {
    let none = KeygenCommand { output_paths: vec![] };
    assert_eq!(none.output_path(), None);
    let one = KeygenCommand { output_paths: vec!["key.bin".to_string()] };
    assert_eq!(one.output_path(), Some(&"key.bin".to_string()));
    let two = KeygenCommand { output_paths: vec!["a".to_string(), "b".to_string()] };
    assert_eq!(two.output_path(), None);
}

#[test]
fn listing_keeps_asymmetric_keys_sorted() {
    let objects = vec![obj(9, true), obj(2, false), obj(4, true), obj(1, true), obj(4, true), obj(3, false)];
    assert_eq!(ListCommand::key_ids(&objects), vec![1, 4, 4, 9]);
}

#[test]
fn listing_of_no_keys_is_empty() {
    assert_eq!(ListCommand::key_ids(&vec![]), Vec::<u16>::new());
    assert_eq!(ListCommand::key_ids(&vec![obj(1, false), obj(2, false)]), Vec::<u16>::new());
}

#[test]
fn list_command_defaults_to_no_config() {
    assert_eq!(ListCommand::default().config, None);
}

#[test]
fn provider_failures_map_to_errors() {
    let c = "chain".to_string();
    let unavailable = SigningError::ProviderUnavailable { chain_id: c.clone(), height: 3, round: 1 };
    let auth = SigningError::ProviderAuthFailure { chain_id: c.clone(), height: 3, round: 1 };
    let algorithm = SigningError::ProviderAlgorithmMismatch { chain_id: c.clone(), height: 3, round: 1 };
    assert_eq!(provider_error(ProviderFailure::Timeout, &c, 3, 1), unavailable);
    assert_eq!(provider_error(ProviderFailure::Io, &c, 3, 1), unavailable);
    assert_eq!(provider_error(ProviderFailure::Authentication, &c, 3, 1), auth);
    assert_eq!(provider_error(ProviderFailure::Session, &c, 3, 1), auth);
    assert_eq!(provider_error(ProviderFailure::Algorithm, &c, 3, 1), algorithm);
}
