use kalgan::csrf;
use kalgan::dict::Dict;
use kalgan::password;
use kalgan::token;

#[test]
fn token_test_generate() {
    assert_eq!(token::generate(50).len(), 50)
}

#[test]
fn token_generate_is_alphanumeric() {
    let t = token::generate(64);
    assert_eq!(t.len(), 64);
    assert!(t.chars().all(|c| c.is_ascii_alphanumeric()));
}

#[test]
fn csrf_token_length() {
    assert_eq!(csrf::get_token().len(), 200);
}

#[test]
fn csrf_validation() {
    let mut input = Dict::new();
    input.insert(b"csrf_token".to_vec(), b"secret".to_vec());
    assert!(csrf::is_valid(true, b"secret", &input));
    assert!(!csrf::is_valid(false, b"secret", &input));
    assert!(!csrf::is_valid(true, b"other", &input));
    let empty = Dict::new();
    assert!(!csrf::is_valid(true, b"secret", &empty));
}

#[test]
fn test_hash() {
    assert_eq!(
        &password::hash("hello_world")[..30],
        "$argon2id$v=19$m=4096,t=3,p=1$"
    )
}

#[test]
fn test_verify() {
    assert!(password::verify("hello_world", "$argon2id$v=19$m=4096,t=3,p=1$+rJPGukJZE2MYf+3FzyYEw$j3UQDCn7orVI3XJ/tb/MY4Kxg5zGaXj1WBZY+86LXbE"))
}

#[test]
fn password_round_trip() {
    let hashed = password::hash("open sesame");
    assert!(password::verify("open sesame", &hashed));
    assert!(!password::verify("wrong password", &hashed));
    assert!(!password::verify("open sesame", "not a phc string"));
}
