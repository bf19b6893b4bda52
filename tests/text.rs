use rcli::{
    generate_from_seed, parse_format, process_generate, process_text_sign, process_text_verify,
    Blake3, Ed25519Signer, Ed25519Verifier, KeyLoader, RcliError, TextSign, TextSignFormat,
    TextVerify,
};

fn key(byte: u8) -> [u8; 32] {
    [byte; 32]
}

#[test]
fn test_blake3_sign_verify() {
    let blade3 = Blake3::try_new(&key(7)).unwrap();
    let data = b"hello";
    let sig = blade3.sign(&data[..]);
    assert!(blade3.verify(&data[..], &sig));
}

#[test]
fn mac_round_trip_on_several_messages() {
    for k in [0u8, 1, 200] {
        let mac = Blake3::new(key(k));
        for msg in [&b""[..], &b"a"[..], &b"the quick brown fox"[..]] {
            let sig = mac.sign(msg);
            assert_eq!(sig.len(), 32);
            assert!(mac.verify(msg, &sig));
        }
    }
}

#[test]
fn mac_depends_on_key_and_message() {
    let a = Blake3::new(key(1));
    let b = Blake3::new(key(2));
    let msg = [9u8; 32];
    let sig = a.sign(&msg);
    assert_ne!(sig, msg.to_vec());
    assert_ne!(sig, key(1).to_vec());
    assert_ne!(sig, b.sign(&msg));
    assert!(!b.verify(&msg, &sig));
    assert!(!a.verify(b"other", &sig));
}

#[test]
fn mac_rejects_wrong_length_signatures() {
    let mac = Blake3::new(key(3));
    let sig = mac.sign(b"msg");
    assert!(!mac.verify(b"msg", &sig[..31]));
    let mut longer = sig.clone();
    longer.push(0);
    assert!(!mac.verify(b"msg", &longer));
    assert!(!mac.verify(b"msg", &[]));
}

#[test]
fn blake3_key_is_truncated_then_checked() {
    assert_eq!(Blake3::try_new(&[1u8; 31]).err(), Some(RcliError::KeyFormat));
    assert_eq!(Blake3::load(&[]).err(), Some(RcliError::KeyFormat));
    let mut long = vec![5u8; 32];
    long.extend_from_slice(&[6u8; 10]);
    let from_long = Blake3::load(&long).unwrap();
    let exact = Blake3::new(key(5));
    assert_eq!(from_long.sign(b"x"), exact.sign(b"x"));
}

#[test]
fn ed25519_round_trip_with_generated_keys() {
    let keys = process_generate(TextSignFormat::Ed25519);
    assert_eq!(keys.len(), 2);
    assert_eq!(keys[0].len(), 32);
    assert_eq!(keys[1].len(), 32);
    let signer = Ed25519Signer::load(&keys[0]).unwrap();
    let verifier = Ed25519Verifier::load(&keys[1]).unwrap();
    let sig = signer.sign(b"message");
    assert_eq!(sig.len(), 64);
    assert!(verifier.verify(b"message", &sig));
    assert!(!verifier.verify(b"messagf", &sig));
    let other = process_generate(TextSignFormat::Ed25519);
    let other_verifier = Ed25519Verifier::load(&other[1]).unwrap();
    assert!(!other_verifier.verify(b"message", &sig));
}

#[test]
fn ed25519_rejects_wrong_length_signatures() {
    let keys = generate_from_seed(TextSignFormat::Ed25519, &key(11));
    let signer = Ed25519Signer::try_new(&keys[0]).unwrap();
    let verifier = Ed25519Verifier::try_new(&keys[1]).unwrap();
    let sig = signer.sign(b"m");
    assert!(verifier.verify(b"m", &sig));
    assert!(!verifier.verify(b"m", &sig[..63]));
    let mut longer = sig.clone();
    longer.push(1);
    assert!(!verifier.verify(b"m", &longer));
}

#[test]
fn ed25519_key_errors() {
    assert_eq!(Ed25519Signer::try_new(&[1u8; 31]).err(), Some(RcliError::KeyFormat));
    assert_eq!(Ed25519Signer::try_new(&[1u8; 33]).err(), Some(RcliError::KeyFormat));
    assert_eq!(Ed25519Verifier::try_new(&[1u8; 64]).err(), Some(RcliError::KeyFormat));
    let mut not_a_point = [0u8; 32];
    not_a_point[0] = 2;
    assert_eq!(Ed25519Verifier::try_new(&not_a_point).err(), Some(RcliError::KeyFormat));
}

#[test]
fn generated_key_material_shapes() {
    let mac = process_generate(TextSignFormat::Blake3);
    assert_eq!(mac.len(), 1);
    assert_eq!(mac[0].len(), 32);
    let from_seed = generate_from_seed(TextSignFormat::Blake3, &key(4));
    assert_eq!(from_seed, vec![key(4).to_vec()]);
    let pair = generate_from_seed(TextSignFormat::Ed25519, &key(4));
    assert_eq!(pair[0], key(4).to_vec());
    assert_ne!(pair[1], key(4).to_vec());
}

#[test]
fn text_sign_then_verify_both_formats() {
    let data = b"some text to sign";
    let sig = process_text_sign(data, &key(8), TextSignFormat::Blake3).unwrap();
    assert_eq!(sig.len(), 43);
    assert!(!sig.contains('='));
    assert_eq!(process_text_verify(data, &key(8), &sig, TextSignFormat::Blake3), Ok(true));
    assert_eq!(process_text_verify(b"other", &key(8), &sig, TextSignFormat::Blake3), Ok(false));

    let pair = generate_from_seed(TextSignFormat::Ed25519, &key(9));
    let sig = process_text_sign(data, &pair[0], TextSignFormat::Ed25519).unwrap();
    assert_eq!(sig.len(), 86);
    assert_eq!(process_text_verify(data, &pair[1], &sig, TextSignFormat::Ed25519), Ok(true));
    assert_eq!(process_text_verify(b"x", &pair[1], &sig, TextSignFormat::Ed25519), Ok(false));
}

#[test]
fn text_service_errors() {
    assert_eq!(
        process_text_sign(b"d", &[0u8; 10], TextSignFormat::Blake3),
        Err(RcliError::KeyFormat)
    );
    assert_eq!(
        process_text_verify(b"d", &key(1), "not base64!", TextSignFormat::Blake3),
        Err(RcliError::Encoding)
    );
    assert_eq!(
        process_text_verify(b"d", &[0u8; 10], "AAAA", TextSignFormat::Ed25519),
        Err(RcliError::KeyFormat)
    );
}

#[test]
fn format_names() {
    assert_eq!(parse_format("blake3"), Ok(TextSignFormat::Blake3));
    assert_eq!(parse_format("ed25519"), Ok(TextSignFormat::Ed25519));
    assert_eq!(parse_format("rsa"), Err(RcliError::UnknownName));
    assert_eq!(TextSignFormat::Ed25519.as_str(), "ed25519");
}
