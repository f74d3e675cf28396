use basti::name::{validate_worker_name, NameError, WorkerName};

#[test]
fn accepts_valid_names() {
    for name in ["a", "worker-1", "0", "-", "node-42-eu", "abcdefghijklmnopqrstuvwxyz012345"] {
        assert_eq!(validate_worker_name(name), Ok(()), "{name}");
        let parsed = WorkerName::from_str(name).unwrap();
        assert_eq!(parsed.inner(), name);
        assert_eq!(parsed.clone().into_inner(), name.to_string());
    }
}

#[test]
fn rejects_empty_name() {
    assert_eq!(validate_worker_name(""), Err(NameError::Empty));
    assert_eq!(WorkerName::from_str(""), Err(NameError::Empty));
}

#[test]
fn rejects_long_name() {
    let longest = "a".repeat(32);
    assert_eq!(validate_worker_name(&longest), Ok(()));
    let too_long = "a".repeat(33);
    assert_eq!(validate_worker_name(&too_long), Err(NameError::TooLong));
    // Length is judged before the alphabet, and in encoded bytes.
    let long_and_odd = "A".repeat(40);
    assert_eq!(validate_worker_name(&long_and_odd), Err(NameError::TooLong));
    let wide = "é".repeat(17);
    assert_eq!(validate_worker_name(&wide), Err(NameError::TooLong));
}

#[test]
fn rejects_foreign_characters() {
    for name in ["Worker", "node_1", "a b", "é", "node.1", "ümlaut", "a\n"] {
        assert_eq!(validate_worker_name(name), Err(NameError::InvalidCharacter), "{name}");
    }
}

#[test]
fn default_name() {
    let name = WorkerName::default();
    assert_eq!(name.inner(), "default");
    assert_eq!(validate_worker_name(name.inner()), Ok(()));
}

#[test]
fn name_error_messages() {
    assert_eq!(NameError::Empty.message(), "name is empty");
    assert_eq!(NameError::TooLong.message(), "name is longer than 32 characters");
    assert_eq!(
        NameError::InvalidCharacter.message(),
        "name may only contain characters -, 0-9, a-z"
    );
}
