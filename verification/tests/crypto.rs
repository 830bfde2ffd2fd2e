use neolink_core::crypto::{
    aes_iv, aes_key, bc_crypt, key_material, mangle_digest, md5_string, Md5Trunc,
};
use neolink_core::crypto::Md5Trunc::{Truncate, ZeroLast};

#[test]
fn test_md5_string() {
    // Note that these literals are only 31 characters long.
    assert_eq!(
        md5_string("admin", Truncate),
        "21232F297A57A5A743894A0E4A801FC"
    );
    assert_eq!(
        md5_string("admin", ZeroLast),
        "21232F297A57A5A743894A0E4A801FC\0"
    );
}

#[test]
fn md5_string_lengths() {
    assert_eq!(md5_string("admin", ZeroLast).len(), 32);
    assert_eq!(md5_string("admin", Truncate).len(), 31);
    assert_eq!(md5_string("", ZeroLast).len(), 32);
    assert_eq!(md5_string("", Truncate).len(), 31);
}

#[test]
fn md5_string_of_empty_input() {
    assert_eq!(
        md5_string("", Truncate),
        "D41D8CD98F00B204E9800998ECF8427"
    );
    assert_eq!(
        md5_string("", ZeroLast),
        "D41D8CD98F00B204E9800998ECF8427\0"
    );
}

#[test]
fn md5_string_hashes_utf8_bytes() {
    // MD5 of the two bytes c3 a9.
    let expected = format!("{:X}", md5::compute([0xc3u8, 0xa9u8]));
    assert_eq!(md5_string("\u{e9}", Truncate), expected[..31]);
}

#[test]
fn md5_string_differs_from_its_input() {
    assert_ne!(md5_string("admin", Truncate), "admin");
    assert_ne!(md5_string("admin", Truncate), md5_string("test", Truncate));
}

#[test]
fn zero_last_and_truncate_agree_on_first_31() {
    let z = md5_string("password", ZeroLast);
    let t = md5_string("password", Truncate);
    assert_eq!(&z[..31], t.as_str());
    assert_eq!(z.as_bytes()[31], 0);
    assert_ne!(z, t);
}

#[test]
fn mangle_digest_exact() {
    let digest: [u8; 16] = [
        0x21, 0x23, 0x2f, 0x29, 0x7a, 0x57, 0xa5, 0xa7, 0x43, 0x89, 0x4a, 0x0e, 0x4a, 0x80, 0x1f,
        0xc3,
    ];
    assert_eq!(
        mangle_digest(&digest, Md5Trunc::Truncate),
        "21232F297A57A5A743894A0E4A801FC"
    );
    assert_eq!(
        mangle_digest(&digest, Md5Trunc::ZeroLast),
        "21232F297A57A5A743894A0E4A801FC\0"
    );
}

#[test]
fn mangle_digest_pads_small_bytes() {
    let digest: [u8; 16] = [0, 1, 2, 3, 4, 5, 6, 7, 8, 9, 10, 11, 12, 13, 14, 15];
    assert_eq!(
        mangle_digest(&digest, Md5Trunc::Truncate),
        "000102030405060708090A0B0C0D0E0"
    );
    let all: [u8; 16] = [0xff; 16];
    assert_eq!(
        mangle_digest(&all, Md5Trunc::ZeroLast),
        "FFFFFFFFFFFFFFFFFFFFFFFFFFFFFFF\0"
    );
}

#[test]
fn aes_key_from_nonce_and_password() {
    let hex = format!("{:X}", md5::compute("9E6D1FCB9E69846D-test"));
    assert_eq!(&aes_key("9E6D1FCB9E69846D", "test")[..], &hex.as_bytes()[..16]);
    let hex_iv = format!("{:X}", md5::compute("9E6D1FCB9E69846D"));
    assert_eq!(&aes_iv("9E6D1FCB9E69846D")[..], &hex_iv.as_bytes()[..16]);
    let digest: [u8; 16] = [
        0x21, 0x23, 0x2f, 0x29, 0x7a, 0x57, 0xa5, 0xa7, 0x43, 0x89, 0x4a, 0x0e, 0x4a, 0x80, 0x1f,
        0xc3,
    ];
    assert_eq!(&key_material(&digest)[..], "21232F297A57A5A7".as_bytes());
}

#[test]
fn aes_key_of_admin_phrase() {
    // MD5("admin") = 21232F297A57A5A743894A0E4A801FC3
    assert_eq!(&aes_iv("admin")[..], "21232F297A57A5A7".as_bytes());
}

#[test]
fn zero_last_is_not_accepted_as_truncate() {
    // A peer that compares against the truncated form refuses the other one.
    let expected = md5_string("test", Truncate);
    assert_ne!(md5_string("test", ZeroLast), expected);
    assert_eq!(md5_string("test", Truncate), expected);
}

fn table() -> [u8; 256] {
    let mut t = [0u8; 256];
    for (i, b) in t.iter_mut().enumerate() {
        *b = (i as u8).wrapping_mul(7).wrapping_add(3);
    }
    t
}

#[test]
fn xor_cipher_exact() {
    let t = table();
    // Key stream from position 2: 17, 24, 31.
    assert_eq!(bc_crypt(&t, 2, &[0, 0xff, 1]), vec![17u8, 0xff ^ 24, 1 ^ 31]);
    // The nonce counts modulo the table's length.
    assert_eq!(bc_crypt(&t, 258, &[0, 0xff, 1]), vec![17u8, 0xff ^ 24, 1 ^ 31]);
    assert_eq!(bc_crypt(&t, 0, &[]), Vec::<u8>::new());
}

#[test]
fn xor_cipher_rotates_through_the_table() {
    let t = table();
    let zeros = vec![0u8; 600];
    let stream = bc_crypt(&t, 0xFFFF, &zeros);
    for (i, b) in stream.iter().enumerate() {
        assert_eq!(*b, t[(0xFFFF + i) % 256]);
    }
}

#[test]
fn xor_cipher_is_its_own_inverse() {
    let t = table();
    let body: Vec<u8> = (0..1000u32).map(|n| (n * 31 % 251) as u8).collect();
    for nonce in [0u16, 1, 255, 256, 0x1234, 0xFFFF] {
        let sealed = bc_crypt(&t, nonce, &body);
        assert_eq!(sealed.len(), body.len());
        assert_ne!(sealed, body);
        assert_eq!(bc_crypt(&t, nonce, &sealed), body);
    }
}
