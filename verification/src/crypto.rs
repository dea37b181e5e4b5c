//! Encrypted files: a magic number, a nonce of twelve bytes, and the ciphertext of
//! AES-256-GCM with the magic number as associated data.
//!
//! The key lies in a file beside the ciphertext. That keeps casual eyes out, not an attacker
//! who reads both.
use crate::bytes::{push_slice, same_bytes};
use vstd::prelude::*;
use vstd::slice::{slice_subrange, slice_to_vec};

verus! {

pub const KEY_LEN: usize = 32;

pub const NONCE_LEN: usize = 12;

/// The longest message, and the longest associated data, that AES-GCM takes.
pub const MAX_MESSAGE: u64 = 0x10_0000_0000;

// ---------------------------------------------------------------- outside functions
/// What AES-256-GCM makes of a key, a nonce, associated data and a message.
pub uninterp spec fn sealed(key: Seq<u8>, nonce: Seq<u8>, aad: Seq<u8>, msg: Seq<u8>) -> Option<
    Seq<u8>,
>;

/// The message that a ciphertext holds under a key, a nonce and associated data, if it is
/// authentic.
pub uninterp spec fn opened(key: Seq<u8>, nonce: Seq<u8>, aad: Seq<u8>, text: Seq<u8>) -> Option<
    Seq<u8>,
>;

/// `aes_gcm::Aes256Gcm::encrypt`. It depends on its arguments alone, it takes messages and
/// associated data of up to 2^36 bytes, the ciphertext is sixteen bytes longer than the
/// message, and decrypting it with the same key, nonce and data gives the message back. The
/// key must have 32 bytes and the nonce twelve.
#[verifier::external_body]
fn aes_encrypt(key: &[u8], nonce: &[u8], aad: &[u8], msg: &[u8]) -> (r: Option<Vec<u8>>)
    requires
        key@.len() == KEY_LEN,
        nonce@.len() == NONCE_LEN,
    ensures
        match r {
            Some(c) => {
                &&& msg@.len() <= MAX_MESSAGE && aad@.len() <= MAX_MESSAGE
                &&& sealed(key@, nonce@, aad@, msg@) == Some(c@)
                &&& opened(key@, nonce@, aad@, c@) == Some(msg@)
                &&& c@.len() == msg@.len() + 16
            },
            None => {
                &&& msg@.len() > MAX_MESSAGE || aad@.len() > MAX_MESSAGE
                &&& sealed(key@, nonce@, aad@, msg@) is None
            },
        },
{
    let cipher = <aes_gcm::Aes256Gcm as aes_gcm::KeyInit>::new(aes_gcm::Key::<aes_gcm::Aes256Gcm>::from_slice(key));
    let payload = aes_gcm::aead::Payload { msg, aad };
    aes_gcm::aead::Aead::encrypt(&cipher, aes_gcm::Nonce::from_slice(nonce), payload).ok()
}

/// `aes_gcm::Aes256Gcm::decrypt`. It depends on its arguments alone. The key must have 32
/// bytes and the nonce twelve.
#[verifier::external_body]
fn aes_decrypt(key: &[u8], nonce: &[u8], aad: &[u8], text: &[u8]) -> (r: Option<Vec<u8>>)
    requires
        key@.len() == KEY_LEN,
        nonce@.len() == NONCE_LEN,
    ensures
        match r {
            Some(m) => opened(key@, nonce@, aad@, text@) == Some(m@),
            None => opened(key@, nonce@, aad@, text@) is None,
        },
{
    let cipher = <aes_gcm::Aes256Gcm as aes_gcm::KeyInit>::new(aes_gcm::Key::<aes_gcm::Aes256Gcm>::from_slice(key));
    let payload = aes_gcm::aead::Payload { msg: text, aad };
    aes_gcm::aead::Aead::decrypt(&cipher, aes_gcm::Nonce::from_slice(nonce), payload).ok()
}

/// `getrandom::fill` on a buffer of `n` bytes: as many random bytes, or why there are none, in
/// the words of its error. Nothing is claimed of the bytes or the words.
#[verifier::external_body]
fn random_bytes(n: usize) -> (r: Result<Vec<u8>, String>)
    ensures
        r matches Ok(v) ==> v@.len() == n,
{
    let mut v = vec![0u8; n];
    match getrandom::fill(&mut v) {
        Ok(()) => Ok(v),
        Err(e) => Err(e.to_string()),
    }
}

/// `String::from_utf8`: the text of bytes that are well-formed UTF-8, and nothing for others.
#[verifier::external_body]
fn utf8_text(bytes: Vec<u8>) -> (r: Option<String>)
    ensures
        match r {
            Some(s) => vstd::utf8::valid_utf8(bytes@) && s@ == vstd::utf8::decode_utf8(bytes@),
            None => !vstd::utf8::valid_utf8(bytes@),
        },
{
    String::from_utf8(bytes).ok()
}

// ---------------------------------------------------------------- keys
/// The key to use, given what the key file holds: that, if it is a key, or a new one. The flag
/// says that the key is new and is to be written; what was encrypted with another key is
/// then lost.
pub fn load_or_create_key(stored: Option<Vec<u8>>) -> (r: Result<(Vec<u8>, bool), String>)
    ensures
        match stored {
            Some(k) if k@.len() == KEY_LEN => r matches Ok(x) && x.0@ == k@ && !x.1,
            _ => match r {
                Ok(x) => x.0@.len() == KEY_LEN && x.1,
                Err(e) => exists|why: Seq<char>| e@ == "生成密钥失败: "@ + why,
            },
        },
{
    if let Some(k) = stored {
        if k.len() == KEY_LEN {
            return Ok((k, false));
        }
    }
    match random_bytes(KEY_LEN) {
        Ok(k) => Ok((k, true)),
        Err(e) => {
            let mut s = "生成密钥失败: ".to_owned();
            s.append(e.as_str());
            assert(s@ == "生成密钥失败: "@ + e@);
            Err(s)
        },
    }
}

// ---------------------------------------------------------------- files
/// The text that a file holds under a key, if the file is of this kind and authentic.
pub open spec fn file_text(key: Seq<u8>, magic: Seq<u8>, file: Seq<u8>) -> Option<Seq<char>> {
    let m = magic.len() as int;
    if file.len() < m + NONCE_LEN || file.take(m) != magic {
        None
    } else {
        match opened(key, file.subrange(m, m + NONCE_LEN), magic, file.skip(m + NONCE_LEN)) {
            Some(plain) => if vstd::utf8::valid_utf8(plain) {
                Some(vstd::utf8::decode_utf8(plain))
            } else {
                None
            },
            None => None,
        }
    }
}

/// Reads a file. One that is damaged, of another kind, or of another key reads as nothing.
pub fn open(key: &[u8], magic: &[u8], file: &[u8]) -> (r: Option<String>)
    requires
        key@.len() == KEY_LEN,
    ensures
        match r {
            Some(s) => file_text(key@, magic@, file@) == Some(s@),
            None => file_text(key@, magic@, file@) is None,
        },
{
    let m = magic.len();
    if file.len() < NONCE_LEN || file.len() - NONCE_LEN < m {
        return None;
    }
    let head = slice_subrange(file, 0, m);
    assert(head@ =~= file@.take(m as int));
    if !same_bytes(head, magic) {
        return None;
    }
    let nonce = slice_subrange(file, m, m + NONCE_LEN);
    let text = slice_subrange(file, m + NONCE_LEN, file.len());
    assert(text@ =~= file@.skip(m + NONCE_LEN));
    match aes_decrypt(key, nonce, magic, text) {
        Some(plain) => utf8_text(plain),
        None => None,
    }
}

/// Writes a file with a given nonce. There is a file just where AES-GCM takes the text.
pub fn seal_with_nonce(key: &[u8], nonce: &[u8], magic: &[u8], plain: &str) -> (r: Result<
    Vec<u8>,
    String,
>)
    requires
        key@.len() == KEY_LEN,
        nonce@.len() == NONCE_LEN,
    ensures
        match r {
            Ok(file) => {
                let msg = vstd::utf8::encode_utf8(plain@);
                &&& msg.len() <= MAX_MESSAGE && magic@.len() <= MAX_MESSAGE
                &&& sealed(key@, nonce@, magic@, msg) is Some
                &&& file@ == magic@ + nonce@ + sealed(key@, nonce@, magic@, msg)->0
                &&& file@.len() == magic@.len() + NONCE_LEN + msg.len() + 16
                &&& file@.take(magic@.len() as int) == magic@
                &&& file_text(key@, magic@, file@) == Some(plain@)
            },
            Err(e) => {
                &&& vstd::utf8::encode_utf8(plain@).len() > MAX_MESSAGE || magic@.len()
                    > MAX_MESSAGE
                &&& e@ == "加密失败: aead::Error"@
            },
        },
{
    match aes_encrypt(key, nonce, magic, plain.as_bytes()) {
        None => Err("加密失败: aead::Error".to_owned()),
        Some(c) => {
            let mut out = slice_to_vec(magic);
            push_slice(&mut out, nonce);
            push_slice(&mut out, c.as_slice());
            proof {
                let m = magic@.len() as int;
                assert(out@ =~= magic@ + nonce@ + c@);
                assert(out@.take(m) =~= magic@);
                assert(out@.subrange(m, m + NONCE_LEN) =~= nonce@);
                assert(out@.skip(m + NONCE_LEN) =~= c@);
                vstd::utf8::encode_utf8_valid_utf8(plain@);
                vstd::utf8::encode_utf8_decode_utf8(plain@);
            }
            Ok(out)
        },
    }
}

/// Writes a file, with a nonce of its own. What comes back under the same key is the text.
pub fn seal(key: &[u8], magic: &[u8], plain: &str) -> (r: Result<Vec<u8>, String>)
    requires
        key@.len() == KEY_LEN,
    ensures
        match r {
            Ok(file) => {
                &&& file@.len() == magic@.len() + NONCE_LEN + vstd::utf8::encode_utf8(plain@).len()
                    + 16
                &&& file@.take(magic@.len() as int) == magic@
                &&& file_text(key@, magic@, file@) == Some(plain@)
            },
            Err(e) => {
                ||| e@ == "加密失败: aead::Error"@ && (vstd::utf8::encode_utf8(plain@).len()
                    > MAX_MESSAGE || magic@.len() > MAX_MESSAGE)
                ||| exists|why: Seq<char>| e@ == "生成 nonce 失败: "@ + why
            },
        },
{
    match random_bytes(NONCE_LEN) {
        Ok(nonce) => seal_with_nonce(key, nonce.as_slice(), magic, plain),
        Err(e) => {
            let mut s = "生成 nonce 失败: ".to_owned();
            s.append(e.as_str());
            assert(s@ == "生成 nonce 失败: "@ + e@);
            Err(s)
        },
    }
}

// ---------------------------------------------------------------- laws
/// A file reads as nothing under every magic number that it does not begin with, whatever the
/// key. So a file of one kind never reads as one of another kind, unless the other's magic number
/// is the beginning of this file too.
pub proof fn law_magic_isolates(key: Seq<u8>, magic: Seq<u8>, file: Seq<u8>)
    requires
        !magic.is_prefix_of(file),
    ensures
        file_text(key, magic, file) is None,
{
}

/// Of two magic numbers of which neither begins with the other, a file carries one at most:
/// what was written under one reads as nothing under the other.
pub proof fn law_kinds_apart(key: Seq<u8>, mine: Seq<u8>, other: Seq<u8>, file: Seq<u8>)
    requires
        !mine.is_prefix_of(other),
        !other.is_prefix_of(mine),
        mine.is_prefix_of(file),
    ensures
        file_text(key, other, file) is None,
{
    if other.is_prefix_of(file) {
        let (m, o) = (mine.len() as int, other.len() as int);
        if m <= o {
            assert(other.take(m) =~= file.take(m));
            assert(mine =~= other.take(m));
        } else {
            assert(mine.take(o) =~= file.take(o));
            assert(other =~= mine.take(o));
        }
    }
    law_magic_isolates(key, other, file);
}

/// A file that is too short to hold a magic number and a nonce holds nothing.
pub proof fn law_short_file_is_empty(key: Seq<u8>, magic: Seq<u8>, file: Seq<u8>)
    requires
        file.len() < magic.len() + NONCE_LEN,
    ensures
        file_text(key, magic, file) is None,
{
}

/// What a file holds is what the cipher makes of the bytes behind its magic number and its nonce,
/// with that nonce, under the key, bound to the magic number. So it is nothing where the cipher
/// makes nothing of them, or nothing that is text.
pub proof fn law_file_is_bound_to_key_and_magic(
    key: Seq<u8>,
    magic: Seq<u8>,
    nonce: Seq<u8>,
    body: Seq<u8>,
)
    requires
        nonce.len() == 12,
    ensures
        match opened(key, nonce, magic, body) {
            Some(plain) => if vstd::utf8::valid_utf8(plain) {
                file_text(key, magic, magic + nonce + body) == Some(vstd::utf8::decode_utf8(plain))
            } else {
                file_text(key, magic, magic + nonce + body) is None
            },
            None => file_text(key, magic, magic + nonce + body) is None,
        },
{
    let file = magic + nonce + body;
    let m = magic.len() as int;
    assert(file.take(m) =~= magic);
    assert(file.subrange(m, m + NONCE_LEN) =~= nonce);
    assert(file.skip(m + NONCE_LEN) =~= body);
}

} // verus!
