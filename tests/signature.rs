use ed25519::hex::to_hex;
use ed25519::{Signature, SignatureBytes, SignatureEncoding};

fn counting_bytes() -> SignatureBytes {
    let mut b = [0u8; 64];
    for (i, x) in b.iter_mut().enumerate() {
        *x = (i as u8).wrapping_mul(7).wrapping_add(3);
    }
    b
}

#[test]
fn from_bytes_to_bytes_round_trip() {
    let b = counting_bytes();
    assert_eq!(Signature::from_bytes(&b).to_bytes(), b);
    let ff = [0xFFu8; 64];
    assert_eq!(Signature::from_bytes(&ff).to_bytes(), ff);
}

#[test]
fn from_bytes_splits_components() {
    let b = counting_bytes();
    let sig = Signature::from_bytes(&b);
    assert_eq!(&sig.r_bytes()[..], &b[..32]);
    assert_eq!(&sig.s_bytes()[..], &b[32..]);
}

#[test]
fn components_round_trip() {
    let mut r = [0u8; 32];
    let mut s = [0u8; 32];
    for i in 0..32 {
        r[i] = i as u8;
        s[i] = 200 - i as u8;
    }
    let sig = Signature::from_components(r, s);
    assert_eq!(sig.r_bytes(), &r);
    assert_eq!(sig.s_bytes(), &s);
    let wire = sig.to_bytes();
    assert_eq!(&wire[..32], &r[..]);
    assert_eq!(&wire[32..], &s[..]);
}

#[test]
fn from_slice_rejects_wrong_lengths() {
    for len in [0usize, 1, 32, 63, 65, 128] {
        let v = vec![0u8; len];
        assert!(Signature::from_slice(&v).is_err(), "length {}", len);
    }
}

#[test]
fn from_slice_accepts_64_bytes() {
    let b = counting_bytes();
    let sig = Signature::from_slice(&b[..]).unwrap();
    assert!(sig == Signature::from_bytes(&b));
    assert_eq!(sig.to_bytes(), b);
}

#[test]
fn equality_follows_bytes() {
    let b1 = counting_bytes();
    let mut b2 = b1;
    assert!(Signature::from_bytes(&b1) == Signature::from_bytes(&b2));
    b2[63] ^= 1;
    assert!(Signature::from_bytes(&b1) != Signature::from_bytes(&b2));
    let mut b3 = b1;
    b3[0] ^= 0x80;
    assert!(Signature::from_bytes(&b1) != Signature::from_bytes(&b3));
}

#[test]
fn display_zero_r_and_ff_s() {
    let sig = Signature::from_components([0x00; 32], [0xFF; 32]);
    let expected = format!("{}{}", "00".repeat(32), "FF".repeat(32));
    assert_eq!(sig.display(), expected);
    assert_eq!(sig.display().len(), 128);
}

#[test]
fn display_is_uppercase_r_then_s() {
    let mut b = [0u8; 64];
    b[0] = 0xAB;
    b[1] = 0x0C;
    b[31] = 0x9F;
    b[32] = 0xE1;
    b[63] = 0x5D;
    let text = Signature::from_bytes(&b).display();
    assert_eq!(text.len(), 128);
    assert_eq!(&text[..4], "AB0C");
    assert_eq!(&text[62..66], "9FE1");
    assert_eq!(&text[126..], "5D");
    assert!(!text.chars().any(|c| c.is_ascii_lowercase()));
}

#[test]
fn debug_names_both_components() {
    let sig = Signature::from_components([0x1A; 32], [0x02; 32]);
    let expected = format!(
        "ed25519::Signature {{ R: {}, s: {} }}",
        "1A".repeat(32),
        "02".repeat(32)
    );
    assert_eq!(sig.debug(), expected);
}

#[test]
fn try_from_matches_from_slice() {
    for len in [0usize, 63, 64, 65] {
        let v: Vec<u8> = (0..len).map(|i| i as u8).collect();
        let a = Signature::try_from(&v[..]);
        let b = Signature::from_slice(&v[..]);
        assert_eq!(a.is_ok(), b.is_ok());
        if let (Ok(x), Ok(y)) = (a, b) {
            assert!(x == y);
        }
    }
}

#[test]
fn slice_lengths_scenario() {
    assert!(Signature::from_slice(&[0u8; 63]).is_err());
    assert!(Signature::from_slice(&[0u8; 65]).is_err());
    let sig = Signature::from_slice(&[0u8; 64]).unwrap();
    assert_eq!(sig.r_bytes(), &[0u8; 32]);
    assert_eq!(sig.s_bytes(), &[0u8; 32]);
}

#[test]
fn array_conversions() {
    let b = counting_bytes();
    let sig: Signature = b.into();
    assert!(sig == Signature::from_bytes(&b));
    let sig2 = Signature::from(&b);
    assert!(sig2 == sig);
    let back: SignatureBytes = sig.into();
    assert_eq!(back, b);
    let back_ref = SignatureBytes::from(&sig);
    assert_eq!(back_ref, b);
}

#[test]
fn to_vec_matches_to_bytes() {
    let b = counting_bytes();
    let sig = Signature::from_bytes(&b);
    assert_eq!(sig.to_vec(), b.to_vec());
    assert_eq!(sig.to_vec().len(), Signature::BYTE_SIZE);
}

#[test]
fn encoding_trait_uses_wire_form() {
    let b = counting_bytes();
    let sig = Signature::from_bytes(&b);
    assert_eq!(SignatureEncoding::to_bytes(&sig), b);
    assert_eq!(sig.encoded_len(), 64);
    assert_eq!(SignatureEncoding::to_vec(&sig), b.to_vec());
}

#[test]
fn hex_of_bytes_in_both_cases() {
    assert_eq!(to_hex(&[0x00, 0x7f, 0xa5, 0xff], true), "007FA5FF");
    assert_eq!(to_hex(&[0x00, 0x7f, 0xa5, 0xff], false), "007fa5ff");
    assert_eq!(to_hex(&[], true), "");
}
