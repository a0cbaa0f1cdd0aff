use karma_calculator::{setup, User};
use phantom_zone::{Encryptor, ParameterSelector};

#[test]
fn client_key_and_cipher_under_context() {
    // Establish the cryptographic context once for this process, then walk
    // a client through key generation and input encryption.
    setup(&[1u8; 32], ParameterSelector::NonInteractiveLTE2Party);
    let mut u = User::new("solo");
    u.assign_seed([1u8; 32]);
    u.gen_client_key();
    assert!(u.ck.is_some());
    u.assign_scores(&vec![3, 4]);
    // Encrypt the score row; the seeded batch is consumed by the server in
    // the full protocol, so producing it without a panic is what is checked
    // here.
    let _cipher = u.ck.as_ref().unwrap().inner.encrypt(&[3u8, 4][..]);
}
