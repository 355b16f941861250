use sitepass::password::{generate_password, DeriveError, PASSWORD_LEN};

// A salt whose standard base64 encoding has no padding (length a multiple of
// three) and decodes to at least eight bytes, so the primitive accepts it.
const SALT: &[u8] = b"testsalts";

#[test]
fn derive_is_deterministic() {
    let a = generate_password(b"MasterPW1", b"example.com", b"prePW1", SALT).unwrap();
    let b = generate_password(b"MasterPW1", b"example.com", b"prePW1", SALT).unwrap();
    assert_eq!(a, b);
}

#[test]
fn derive_length_is_fifteen() {
    let cases: Vec<(&[u8], &[u8], &[u8])> = vec![
        (b"MasterPW1", b"example.com", b"prePW1"),
        (b"m", b"", b""),
        (b"a longer master password with spaces", b"a-site", b"p"),
    ];
    for (master, site, pre) in cases {
        let p = generate_password(master, site, pre, SALT).unwrap();
        assert_eq!(p.chars().count(), PASSWORD_LEN);
    }
}

#[test]
fn derive_output_is_printable_ascii() {
    let p = generate_password(b"MasterPW1", b"example.com", b"prePW1", SALT).unwrap();
    for c in p.chars() {
        let code = c as u32;
        assert!(33 <= code && code <= 126);
    }
}

#[test]
fn derive_is_sensitive_to_each_input() {
    let base = generate_password(b"MasterPW1", b"example.com", b"prePW1", SALT).unwrap();
    let master = generate_password(b"MasterPW2", b"example.com", b"prePW1", SALT).unwrap();
    let site = generate_password(b"MasterPW1", b"example.con", b"prePW1", SALT).unwrap();
    let pre = generate_password(b"MasterPW1", b"example.com", b"prePW2", SALT).unwrap();
    let salt = generate_password(b"MasterPW1", b"example.com", b"prePW1", b"testsaltz").unwrap();
    assert_ne!(base, master);
    assert_ne!(base, site);
    assert_ne!(base, pre);
    assert_ne!(base, salt);
}

#[test]
fn derive_is_sensitive_to_argument_order() {
    let ab = generate_password(b"m", b"a", b"b", SALT).unwrap();
    let ba = generate_password(b"m", b"b", b"a", SALT).unwrap();
    assert_ne!(ab, ba);
}

#[test]
fn derive_example_round() {
    let one = generate_password(b"MasterPW1", b"example.com", b"prePW1", SALT).unwrap();
    let two = generate_password(b"MasterPW1", b"example.com", b"prePW1", SALT).unwrap();
    let other = generate_password(b"MasterPW1", b"example.com", b"prePW2", SALT).unwrap();
    assert_eq!(one, two);
    assert_ne!(one, other);
    assert_eq!(one.len(), 15);
}

#[test]
fn empty_salt_is_a_configuration_error() {
    let r = generate_password(b"MasterPW1", b"example.com", b"prePW1", b"");
    assert_eq!(r, Err(DeriveError::Configuration));
}

#[test]
fn padded_salt_is_rejected_by_the_primitive() {
    // Eight bytes encode with padding, which the salt parser refuses.
    let r = generate_password(b"MasterPW1", b"example.com", b"prePW1", b"testsalt");
    assert_eq!(r, Err(DeriveError::HashingFailure));
}

#[test]
fn too_short_salt_is_rejected_by_the_primitive() {
    // Three bytes encode without padding but decode below the minimum.
    let r = generate_password(b"MasterPW1", b"example.com", b"prePW1", b"abc");
    assert_eq!(r, Err(DeriveError::HashingFailure));
}

#[test]
fn derive_pinned_example_value() {
    let p = generate_password(b"MasterPW1", b"example.com", b"prePW1", SALT).unwrap();
    assert_eq!(p, "=f4`<@O!_4V\"V1F");
}
