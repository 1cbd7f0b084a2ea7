use cipher::{AsyncStreamCipher, KeyIvInit};
use coral::protocol::checks::encryption_response_readable;
use coral::protocol::encryption::{
    accept_encryption_response, check_encryption_response, decrypt_rsa, encryption_request,
    generate_verify_token, Encryption,
};
use rsa::pkcs8::EncodePrivateKey;

const KEY: [u8; 16] = [
    0x2b, 0x7e, 0x15, 0x16, 0x28, 0xae, 0xd2, 0xa6, 0xab, 0xf7, 0x15, 0x88, 0x09, 0xcf, 0x4f, 0x3c,
];

fn cfb8_reference(data: &[u8]) -> Vec<u8> {
    let mut buf = data.to_vec();
    cfb8::Encryptor::<aes::Aes128>::new_from_slices(&KEY, &KEY).unwrap().encrypt(&mut buf);
    buf
}

fn test_key() -> (Vec<u8>, rsa::RsaPublicKey) {
    let mut rng = rand::rngs::OsRng;
    let private_key = rsa::RsaPrivateKey::new(&mut rng, 512).unwrap();
    let public_key = rsa::RsaPublicKey::from(&private_key);
    (private_key.to_pkcs8_der().unwrap().as_bytes().to_vec(), public_key)
}

fn rsa_encrypt(key: &rsa::RsaPublicKey, data: &[u8]) -> Vec<u8> {
    let mut rng = rand::rngs::OsRng;
    key.encrypt(&mut rng, rsa::Pkcs1v15Encrypt, data).unwrap()
}

#[test]
fn encryption_matches_aes_cfb8_keyed_by_the_secret() {
    let plain = b"hello, minecraft".to_vec();
    let mut data = plain.clone();
    let mut enc = Encryption::new(&KEY);
    enc.encrypt(&mut data);
    assert_ne!(data, plain);
    assert_eq!(data, cfb8_reference(&plain));
}

#[test]
fn encrypting_in_pieces_equals_encrypting_at_once() {
    let plain: Vec<u8> = (0u8..40).collect();
    let mut enc = Encryption::new(&KEY);
    let mut first = plain[..7].to_vec();
    let mut second = plain[7..].to_vec();
    enc.encrypt(&mut first);
    enc.encrypt(&mut second);
    first.extend_from_slice(&second);
    assert_eq!(first, cfb8_reference(&plain));
}

#[test]
fn decryption_undoes_encryption_across_a_stream() {
    let mut server = Encryption::new(&KEY);
    let mut client = Encryption::new(&KEY);
    for chunk in [b"abc".to_vec(), b"a longer second chunk of bytes".to_vec(), vec![0u8; 3]] {
        let mut data = chunk.clone();
        server.encrypt(&mut data);
        client.decrypt(&mut data);
        assert_eq!(data, chunk);
    }
}

#[test]
fn verify_tokens_are_four_bytes() {
    assert_eq!(generate_verify_token().len(), 4);
    let request = encryption_request(&[1, 2, 3]);
    assert_eq!(request.server_id, "");
    assert_eq!(request.public_key, vec![1, 2, 3]);
    assert_eq!(request.verify_token.len(), 4);
}

#[test]
fn rsa_decryption_gives_back_the_plaintext() {
    let (der, public_key) = test_key();
    let secret: Vec<u8> = (10u8..26).collect();
    let ct = rsa_encrypt(&public_key, &secret);
    assert_eq!(decrypt_rsa(&der, &ct), Some(secret));
    assert_eq!(decrypt_rsa(&[1, 2, 3], &ct), None);
    assert_eq!(decrypt_rsa(&der, &[0u8; 64]), None);
}

#[test]
fn an_encryption_response_is_checked_against_the_sent_token() {
    let (der, public_key) = test_key();
    let secret: Vec<u8> = (10u8..26).collect();
    let token = vec![9u8, 8, 7, 6];
    let enc_secret = rsa_encrypt(&public_key, &secret);
    let enc_token = rsa_encrypt(&public_key, &token);
    assert_eq!(check_encryption_response(&der, &enc_secret, &enc_token, &token), Some(secret.clone()));
    assert_eq!(check_encryption_response(&der, &enc_secret, &enc_token, &[9, 8, 7, 5]), None);
    let short = rsa_encrypt(&public_key, &secret[..15]);
    assert_eq!(check_encryption_response(&der, &short, &enc_token, &token), None);
    assert_eq!(check_encryption_response(&der, &[0u8; 64], &enc_token, &token), None);
}

#[test]
fn accepting_needs_both_parts_the_token_and_a_sixteen_byte_secret() {
    let secret = vec![5u8; 16];
    let token = vec![1u8, 2, 3, 4];
    assert_eq!(accept_encryption_response(Some(secret.clone()), Some(token.clone()), &token), Some(secret.clone()));
    assert_eq!(accept_encryption_response(Some(secret.clone()), Some(vec![1, 2, 3]), &token), None);
    assert_eq!(accept_encryption_response(Some(vec![5u8; 17]), Some(token.clone()), &token), None);
    assert_eq!(accept_encryption_response(None, Some(token.clone()), &token), None);
    assert_eq!(accept_encryption_response(Some(secret), None, &token), None);
}

#[test]
fn encryption_responses_are_readable_only_when_whole() {
    let mut body = vec![3u8, 1, 2, 3, 2, 4, 5];
    assert!(encryption_response_readable(&body));
    body.pop();
    assert!(!encryption_response_readable(&body));
    assert!(!encryption_response_readable(&[0x7f]));
    assert!(encryption_response_readable(&[0, 0]));
}
