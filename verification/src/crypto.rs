//! Credential hashing, key derivation and the xor cipher: the MD5 digest of a
//! credential, written as upper-case hexadecimal and mangled in its last
//! position the way the cameras expect; the AES key and initialisation vector
//! of a session; and the vendor's byte-wise xor cipher.

use vstd::prelude::*;
use vstd::string::{StringExecFns, StringSliceAdditionalSpecFns};
use vstd::utf8::encode_utf8;

verus! {

/// How the thirty-second character of a credential hash is treated.
#[derive(Clone, Copy, Debug, PartialEq, Eq)]
pub enum Md5Trunc {
    /// The last character is replaced by a NUL byte (32 bytes in all).
    ZeroLast,
    /// The last character is left out (31 bytes in all).
    Truncate,
}

/// Number of hexadecimal characters that survive the mangling.
pub const MD5_KEPT_CHARS: usize = 31;

/// The 16-byte digest that `md5::compute` returns for a byte string: its MD5
/// digest (RFC 1321), for any input shorter than four gibibytes.
pub uninterp spec fn md5_digest(data: Seq<u8>) -> Seq<u8>;

/// The upper-case hexadecimal digit for a value below sixteen.
pub open spec fn hex_digit_upper(nibble: u8) -> char {
    if nibble < 10 {
        (48u8 + nibble) as char
    } else {
        (55u8 + nibble) as char
    }
}

/// Character `i` of the upper-case hexadecimal form of `bytes`, two characters
/// per byte, high nibble first.
pub open spec fn hex_char_at(bytes: Seq<u8>, i: int) -> char {
    if i % 2 == 0 {
        hex_digit_upper(bytes[i / 2] / 16)
    } else {
        hex_digit_upper(bytes[i / 2] % 16)
    }
}

/// The upper-case hexadecimal form of `bytes`.
pub open spec fn hex_upper(bytes: Seq<u8>) -> Seq<char> {
    Seq::new(2 * bytes.len(), |i: int| hex_char_at(bytes, i))
}

/// What follows the kept characters: a NUL, or nothing.
pub open spec fn md5_tail(trunc: Md5Trunc) -> Seq<char> {
    match trunc {
        Md5Trunc::ZeroLast => seq!['\0'],
        Md5Trunc::Truncate => Seq::<char>::empty(),
    }
}

/// The mangled credential string for a 16-byte digest: the first 31 characters
/// of its upper-case hexadecimal form, then the tail that `trunc` selects.
pub open spec fn mangled_hex(digest: Seq<u8>, trunc: Md5Trunc) -> Seq<char> {
    hex_upper(digest).take(MD5_KEPT_CHARS as int) + md5_tail(trunc)
}

/// `String::push` appends one character to the string and changes nothing else.
pub assume_specification[ String::push ](s: &mut String, ch: char)
    ensures
        final(s)@ == old(s)@.push(ch),
;

/// Calls `md5::compute` on the bytes given. The contract names the digest and
/// claims nothing else of it; its length of 16 comes with the array type.
#[verifier::external_body]
fn md5_compute(data: &[u8]) -> (digest: [u8; 16])
    ensures
        digest@ == md5_digest(data@),
{
    md5::compute(data).0
}

/// The upper-case hexadecimal digit of `nibble`.
fn hex_digit(nibble: u8) -> (c: char)
    requires
        nibble < 16,
    ensures
        c == hex_digit_upper(nibble),
{
    if nibble < 10 {
        (48u8 + nibble) as char
    } else {
        (55u8 + nibble) as char
    }
}

/// Writes a digest as the camera expects a credential hash.
pub fn mangle_digest(digest: &[u8; 16], trunc: Md5Trunc) -> (out: String)
    ensures
        out@ == mangled_hex(digest@, trunc),
        out@.len() == match trunc {
            Md5Trunc::ZeroLast => 32nat,
            Md5Trunc::Truncate => 31nat,
        },
{
    let mut out = String::new();
    let mut i: usize = 0;
    while i < MD5_KEPT_CHARS
        invariant
            i <= MD5_KEPT_CHARS,
            out@ =~= hex_upper(digest@).take(i as int),
        decreases MD5_KEPT_CHARS - i,
    {
        let byte: u8 = digest[i / 2];
        let nibble: u8 = if i % 2 == 0 {
            byte / 16
        } else {
            byte % 16
        };
        out.push(hex_digit(nibble));
        i += 1;
    }
    match trunc {
        Md5Trunc::ZeroLast => {
            out.push('\0');
        },
        Md5Trunc::Truncate => {},
    }
    assert(out@ =~= mangled_hex(digest@, trunc));
    out
}

/// The mangled MD5 hash of a credential: the digest of its UTF-8 bytes in
/// upper-case hexadecimal, with the last character zeroed or dropped.
pub fn md5_string(input: &str, trunc: Md5Trunc) -> (out: String)
    ensures
        out@ == mangled_hex(md5_digest(input.spec_bytes()), trunc),
        out@.len() == match trunc {
            Md5Trunc::ZeroLast => 32nat,
            Md5Trunc::Truncate => 31nat,
        },
{
    let digest = md5_compute(input.as_bytes());
    mangle_digest(&digest, trunc)
}

/// The two manglings of a credential hash never coincide: one is a character
/// longer than the other. A peer that expects one form cannot take the other
/// for it.
pub proof fn lemma_manglings_differ(digest: Seq<u8>, other: Seq<u8>)
    requires
        digest.len() == 16,
        other.len() == 16,
    ensures
        mangled_hex(digest, Md5Trunc::ZeroLast).len() == 32,
        mangled_hex(other, Md5Trunc::Truncate).len() == 31,
        mangled_hex(digest, Md5Trunc::ZeroLast) != mangled_hex(other, Md5Trunc::Truncate),
        mangled_hex(digest, Md5Trunc::ZeroLast).take(31) == mangled_hex(
            digest,
            Md5Trunc::Truncate,
        ),
        mangled_hex(digest, Md5Trunc::ZeroLast)[31] == '\0',
{
    assert(mangled_hex(digest, Md5Trunc::ZeroLast).take(31) =~= mangled_hex(
        digest,
        Md5Trunc::Truncate,
    ));
}

/// Length of an AES-128 key and of its initialisation vector.
pub const AES_BLOCK_LEN: usize = 16;

/// The first sixteen characters of a digest's upper-case hexadecimal form,
/// each as its ASCII byte.
pub open spec fn hex_block(digest: Seq<u8>) -> Seq<u8> {
    Seq::new(AES_BLOCK_LEN as nat, |i: int| hex_char_at(digest, i) as u8)
}

/// The text whose digest gives the AES key: the nonce, a hyphen, the password.
pub open spec fn key_phrase(nonce: Seq<char>, password: Seq<char>) -> Seq<char> {
    nonce + "-"@ + password
}

/// The sixteen bytes that a digest contributes as key material: the first
/// sixteen characters of its upper-case hexadecimal form.
pub fn key_material(digest: &[u8; 16]) -> (block: [u8; 16])
    ensures
        block@ == hex_block(digest@),
{
    let mut block: [u8; 16] = [0u8; 16];
    let mut i: usize = 0;
    while i < AES_BLOCK_LEN
        invariant
            i <= AES_BLOCK_LEN,
            forall|j: int| 0 <= j < i ==> block@[j] == hex_char_at(digest@, j) as u8,
        decreases AES_BLOCK_LEN - i,
    {
        let byte: u8 = digest[i / 2];
        let nibble: u8 = if i % 2 == 0 {
            byte / 16
        } else {
            byte % 16
        };
        block[i] = hex_digit(nibble) as u8;
        i += 1;
    }
    assert(block@ =~= hex_block(digest@));
    block
}

/// The AES-128 key of a session: the first sixteen bytes of the hexadecimal
/// MD5 of the nonce, a hyphen and the password.
pub fn aes_key(nonce: &str, password: &str) -> (key: [u8; 16])
    ensures
        key@ == hex_block(md5_digest(encode_utf8(key_phrase(nonce@, password@)))),
{
    let phrase = String::from_str(nonce).concat("-").concat(password);
    let digest = md5_compute(phrase.as_str().as_bytes());
    key_material(&digest)
}

/// The initialisation vector of a session: the first sixteen bytes of the
/// hexadecimal MD5 of the nonce.
pub fn aes_iv(nonce: &str) -> (iv: [u8; 16])
    ensures
        iv@ == hex_block(md5_digest(nonce.spec_bytes())),
{
    let digest = md5_compute(nonce.as_bytes());
    key_material(&digest)
}

/// Length of the table that the xor cipher draws its key stream from.
pub const KEY_TABLE_LEN: usize = 256;

/// Byte `i` of the key stream: the table, rotated by the nonce.
pub open spec fn keystream_byte(table: Seq<u8>, nonce: u16, i: int) -> u8 {
    table[(nonce + i) % (KEY_TABLE_LEN as int)]
}

/// A body under the xor cipher: each byte xor-ed with its key stream byte.
pub open spec fn bc_xor(table: Seq<u8>, nonce: u16, data: Seq<u8>) -> Seq<u8> {
    Seq::new(data.len(), |i: int| data[i] ^ keystream_byte(table, nonce, i))
}

/// Applies the xor cipher to a frame body. The cipher is its own inverse, so
/// this both encrypts and decrypts. `table` is the vendor's key table and
/// `nonce` the number negotiated at login.
pub fn bc_crypt(table: &[u8; 256], nonce: u16, data: &[u8]) -> (out: Vec<u8>)
    ensures
        out@ == bc_xor(table@, nonce, data@),
{
    let offset: usize = (nonce % 256) as usize;
    let total: usize = data.len();
    let mut out: Vec<u8> = Vec::new();
    let mut i: usize = 0;
    while i < total
        invariant
            total == data@.len(),
            offset == nonce % 256,
            i <= total,
            out@ =~= bc_xor(table@, nonce, data@.take(i as int)),
        decreases total - i,
    {
        let at: usize = (offset + i % 256) % 256;
        assert(at == (nonce + i) % 256);
        out.push(data[i] ^ table[at]);
        i += 1;
    }
    assert(data@.take(total as int) =~= data@);
    out
}

/// Decrypting what was encrypted gives the body back, for every table, every
/// nonce and every body.
pub proof fn lemma_bc_crypt_is_own_inverse(table: Seq<u8>, nonce: u16, data: Seq<u8>)
    ensures
        bc_xor(table, nonce, bc_xor(table, nonce, data)) == data,
        bc_xor(table, nonce, data).len() == data.len(),
{
    let once = bc_xor(table, nonce, data);
    let twice = bc_xor(table, nonce, once);
    assert forall|i: int| 0 <= i < data.len() implies twice[i] == data[i] by {
        let d = data[i];
        let k = keystream_byte(table, nonce, i);
        assert((d ^ k) ^ k == d) by (bit_vector);
    }
    assert(twice =~= data);
}

} // verus!
