use late_ssh::identity::{client_key_seed, KEY_DOMAIN};

#[test]
fn the_seed_is_the_keyed_hash_of_the_domain_under_the_secrets_hash() {
    let secret = "correct horse battery staple";
    let master = blake3::hash(secret.as_bytes());
    let expected = blake3::Hasher::new_keyed(master.as_bytes()).update(KEY_DOMAIN.as_bytes()).finalize();
    assert_eq!(client_key_seed(secret), *expected.as_bytes());
    assert_eq!(KEY_DOMAIN.as_bytes(), b"late.sh/dcss/v1\0dcss\0");
}

#[test]
fn different_secrets_give_different_seeds() {
    assert_ne!(client_key_seed("one"), client_key_seed("two"));
    // Not the plain hash of the secret: the domain is folded in.
    assert_ne!(client_key_seed("one"), *blake3::hash(b"one").as_bytes());
}
