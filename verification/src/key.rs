//! The encryption descriptor of a playlist: how it is built from the key
//! descriptor that the playlist declares, and how a segment is decrypted.

use crate::address::{join_url, url_join};
use crate::text::{chars_of, same_text};
use crate::types::DownloadError;
use cbc::cipher::block_padding::Pkcs7;
use cbc::cipher::BlockDecryptMut;
use cbc::cipher::KeyIvInit;
use vstd::prelude::*;

verus! {

/// The plaintext that AES-128 in CBC mode with PKCS#7 padding gives for a
/// ciphertext under a key and an initialisation vector, or `None` where the
/// cipher rejects the lengths or the padding.
pub uninterp spec fn aes128_cbc_plain(key: Seq<u8>, iv: Seq<u8>, data: Seq<u8>) -> Option<Seq<u8>>;

/// Builds `cbc::Decryptor<aes::Aes128>` with `new_from_slices` and runs
/// `decrypt_padded_vec_mut` with PKCS#7 unpadding. The constructor refuses a
/// key or a vector that is not 16 bytes long, and unpadding refuses a
/// ciphertext whose length is no multiple of the block size.
#[verifier::external_body]
fn aes128_cbc_decrypt(key: &[u8], iv: &[u8], data: &[u8]) -> (r: Option<Vec<u8>>)
    ensures
        r is Some == aes128_cbc_plain(key@, iv@, data@) is Some,
        r is Some ==> r->0@ == aes128_cbc_plain(key@, iv@, data@)->0,
        key@.len() != 16 || iv@.len() != 16 || data@.len() % 16 != 0 ==> r is None,
{
    match cbc::Decryptor::<aes::Aes128>::new_from_slices(key, iv) {
        Ok(d) => match d.decrypt_padded_vec_mut::<Pkcs7>(data) {
            Ok(plain) => Some(plain),
            Err(_) => None,
        },
        Err(_) => None,
    }
}

/// The encryption scheme of a playlist.
#[derive(PartialEq, Eq, Structural, Clone, Copy, Debug)]
pub enum KeyType {
    /// No encryption.
    Clear,
    /// AES-128 in CBC mode with PKCS#7 padding.
    Aes128,
}

/// A key descriptor as a playlist declares it: the method by its name in the
/// playlist (`NONE`, `AES-128`, ...), the address of the key material, and
/// the initialisation vector in hexadecimal where one is given.
#[derive(Debug)]
pub struct KeyDescriptor {
    pub method: String,
    pub uri: Option<String>,
    pub iv: Option<String>,
}

/// The encryption descriptor shared by the segments of a playlist.
#[derive(Debug)]
pub struct M3u8EncryptKey {
    pub ty: KeyType,
    pub key: Vec<u8>,
    pub iv: Vec<u8>,
}

/// An encryption descriptor as a value of the model.
pub struct KeyView {
    pub ty: KeyType,
    pub key: Seq<u8>,
    pub iv: Seq<u8>,
}

impl View for M3u8EncryptKey {
    type V = KeyView;

    open spec fn view(&self) -> KeyView {
        KeyView { ty: self.ty, key: self.key@, iv: self.iv@ }
    }
}

/// The scheme that a method name stands for, where it is one that is handled.
pub open spec fn key_type_named(method: Seq<char>) -> Option<KeyType> {
    if method == "NONE"@ {
        Some(KeyType::Clear)
    } else if method == "AES-128"@ {
        Some(KeyType::Aes128)
    } else {
        None
    }
}

/// The value of a hexadecimal digit.
pub open spec fn hex_digit(c: char) -> Option<int> {
    if '0' <= c <= '9' {
        Some(c as int - '0' as int)
    } else if 'a' <= c <= 'f' {
        Some(c as int - 'a' as int + 10)
    } else if 'A' <= c <= 'F' {
        Some(c as int - 'A' as int + 10)
    } else {
        None
    }
}

/// Whether a text is `0x` or `0X` followed by exactly 32 hexadecimal digits.
pub open spec fn is_iv_text(text: Seq<char>) -> bool {
    &&& text.len() == 34
    &&& text[0] == '0'
    &&& (text[1] == 'x' || text[1] == 'X')
    &&& forall|i: int| 2 <= i < 34 ==> (#[trigger] hex_digit(text[i])) is Some
}

/// The 16 bytes that an initialisation vector text spells, most significant
/// digit first.
pub open spec fn iv_bytes(text: Seq<char>) -> Seq<u8> {
    Seq::new(
        16,
        |i: int| (hex_digit(text[2 + 2 * i])->0 * 16 + hex_digit(text[3 + 2 * i])->0) as u8,
    )
}

/// The initialisation vector that a key descriptor asks for: the one it
/// spells, or 16 zero bytes where it gives none. `None` where the text is
/// malformed.
pub open spec fn iv_of(iv: Option<Seq<char>>) -> Option<Seq<u8>> {
    match iv {
        None => Some(Seq::new(16, |i: int| 0u8)),
        Some(text) => if is_iv_text(text) {
            Some(iv_bytes(text))
        } else {
            None
        },
    }
}

/// What decoding a segment gives under a descriptor: see [`M3u8EncryptKey::decode`].
pub open spec fn decoded(key: KeyView, data: Seq<u8>) -> Result<Option<Seq<u8>>, DownloadError> {
    match key.ty {
        KeyType::Clear => Ok(Some(data)),
        KeyType::Aes128 => if key.key.len() != 16 || key.iv.len() != 16 {
            Err(DownloadError::MalformedKey)
        } else {
            Ok(aes128_cbc_plain(key.key, key.iv, data))
        },
    }
}

fn hex_value(c: char) -> (r: Option<u8>)
    ensures
        r is Some == hex_digit(c) is Some,
        r is Some ==> r->0 as int == hex_digit(c)->0 && r->0 < 16,
{
    if '0' <= c && c <= '9' {
        Some((c as u32 - '0' as u32) as u8)
    } else if 'a' <= c && c <= 'f' {
        Some((c as u32 - 'a' as u32 + 10) as u8)
    } else if 'A' <= c && c <= 'F' {
        Some((c as u32 - 'A' as u32 + 10) as u8)
    } else {
        None
    }
}

/// Reads an initialisation vector: `0x` or `0X` and 32 hexadecimal digits.
pub fn parse_iv(text: &str) -> (r: Option<Vec<u8>>)
    ensures
        r is Some == is_iv_text(text@),
        r is Some ==> r->0@ == iv_bytes(text@),
{
    let t = chars_of(text);
    if t.len() != 34 || t[0] != '0' || (t[1] != 'x' && t[1] != 'X') {
        return None;
    }
    let mut out: Vec<u8> = Vec::new();
    let mut i: usize = 0;
    while i < 16
        invariant
            i <= 16,
            t@ == text@,
            t@.len() == 34,
            out@.len() == i,
            forall|j: int| 2 <= j < 2 + 2 * i ==> (#[trigger] hex_digit(t@[j])) is Some,
            forall|j: int| 0 <= j < i ==> out@[j] == iv_bytes(t@)[j],
        decreases 16 - i,
    {
        let hi = hex_value(t[2 + 2 * i]);
        let lo = hex_value(t[3 + 2 * i]);
        match (hi, lo) {
            (Some(h), Some(l)) => {
                out.push(h * 16 + l);
            },
            _ => {
                return None;
            },
        }
        i += 1;
    }
    assert(out@ =~= iv_bytes(t@));
    Some(out)
}

impl Default for M3u8EncryptKey {
    /// The descriptor of a playlist that is not encrypted.
    fn default() -> (k: Self)
        ensures
            k@ == (KeyView { ty: KeyType::Clear, key: Seq::empty(), iv: Seq::empty() }),
    {
        M3u8EncryptKey { ty: KeyType::Clear, key: Vec::new(), iv: Vec::new() }
    }
}

impl M3u8EncryptKey {
    /// A copy of the descriptor.
    pub fn duplicate(&self) -> (k: Self)
        ensures
            k@ == self@,
    {
        M3u8EncryptKey { ty: self.ty, key: self.key.clone(), iv: self.iv.clone() }
    }

    /// Where the key material of a descriptor is to be fetched from: nowhere
    /// for the method `NONE`, the descriptor's address resolved against the
    /// playlist's for `AES-128`.
    pub open spec fn address_of(base_url: Seq<char>, key: &KeyDescriptor) -> Result<
        Option<Seq<char>>,
        DownloadError,
    > {
        match key_type_named(key.method@) {
            None => Err(DownloadError::UnsupportedKey),
            Some(KeyType::Clear) => Ok(None),
            Some(KeyType::Aes128) => match key.uri {
                None => Err(DownloadError::UnsupportedKey),
                Some(uri) => match url_join(base_url, uri@) {
                    None => Err(DownloadError::BadUrl),
                    Some(u) => Ok(Some(u)),
                },
            },
        }
    }

    /// The address to fetch the key material from, if the descriptor needs any.
    pub fn key_address(base_url: &str, key: &KeyDescriptor) -> (r: Result<
        Option<String>,
        DownloadError,
    >)
        ensures
            match (r, Self::address_of(base_url@, key)) {
                (Ok(None), Ok(None)) => true,
                (Ok(Some(u)), Ok(Some(v))) => u@ == v,
                (Err(e), Err(f)) => e == f,
                _ => false,
            },
    {
        if same_text(key.method.as_str(), "NONE") {
            Ok(None)
        } else if same_text(key.method.as_str(), "AES-128") {
            match &key.uri {
                None => Err(DownloadError::UnsupportedKey),
                Some(uri) => match join_url(base_url, uri.as_str()) {
                    None => Err(DownloadError::BadUrl),
                    Some(u) => Ok(Some(u)),
                },
            }
        } else {
            Err(DownloadError::UnsupportedKey)
        }
    }

    /// The descriptor that a key descriptor and the fetched key material make.
    pub open spec fn made_from(key: &KeyDescriptor, material: Seq<u8>) -> Result<
        KeyView,
        DownloadError,
    > {
        match key_type_named(key.method@) {
            None => Err(DownloadError::UnsupportedKey),
            Some(KeyType::Clear) => Ok(
                KeyView { ty: KeyType::Clear, key: Seq::empty(), iv: Seq::empty() },
            ),
            Some(KeyType::Aes128) => {
                let iv = iv_of(
                    match key.iv {
                        Some(t) => Some(t@),
                        None => None,
                    },
                );
                if material.len() != 16 || iv is None {
                    Err(DownloadError::MalformedKey)
                } else {
                    Ok(KeyView { ty: KeyType::Aes128, key: material, iv: iv->0 })
                }
            },
        }
    }

    /// Builds the descriptor from what the playlist declares and the key
    /// material fetched from the key address. A key that is not 16 bytes
    /// long, or a vector that is not well formed, is refused.
    pub fn from_key(key: &KeyDescriptor, material: &[u8]) -> (r: Result<Self, DownloadError>)
        ensures
            match (r, Self::made_from(key, material@)) {
                (Ok(k), Ok(v)) => k@ == v,
                (Err(e), Err(f)) => e == f,
                _ => false,
            },
    {
        if same_text(key.method.as_str(), "NONE") {
            Ok(Self::default())
        } else if same_text(key.method.as_str(), "AES-128") {
            let iv = match &key.iv {
                None => {
                    let mut z: Vec<u8> = Vec::new();
                    let mut i: usize = 0;
                    while i < 16
                        invariant
                            i <= 16,
                            z@ == Seq::new(i as nat, |j: int| 0u8),
                        decreases 16 - i,
                    {
                        z.push(0u8);
                        i += 1;
                        assert(z@ =~= Seq::new(i as nat, |j: int| 0u8));
                    }
                    z
                },
                Some(t) => match parse_iv(t.as_str()) {
                    Some(v) => v,
                    None => {
                        return Err(DownloadError::MalformedKey);
                    },
                },
            };
            if material.len() != 16 {
                return Err(DownloadError::MalformedKey);
            }
            Ok(M3u8EncryptKey { ty: KeyType::Aes128, key: vstd::slice::slice_to_vec(material), iv })
        } else {
            Err(DownloadError::UnsupportedKey)
        }
    }

    /// The descriptor of a download, given the key descriptor that applies
    /// to it, if any, and the key material that was fetched for it, if any.
    /// Without a key descriptor the download is not encrypted. With one, the
    /// descriptor is the one that [`M3u8EncryptKey::made_from`] gives;
    /// material that was not fetched counts as empty.
    pub open spec fn resolved(key: Option<&KeyDescriptor>, material: Option<&[u8]>) -> Result<
        KeyView,
        DownloadError,
    > {
        match key {
            None => Ok(KeyView { ty: KeyType::Clear, key: Seq::empty(), iv: Seq::empty() }),
            Some(k) => Self::made_from(
                k,
                match material {
                    Some(m) => m@,
                    None => Seq::empty(),
                },
            ),
        }
    }

    /// Builds the descriptor of a download from the key descriptor that
    /// applies to it and the key material fetched for it: see
    /// [`M3u8EncryptKey::resolved`].
    pub fn resolve(key: Option<&KeyDescriptor>, material: Option<&[u8]>) -> (r: Result<
        Self,
        DownloadError,
    >)
        ensures
            match (r, Self::resolved(key, material)) {
                (Ok(k), Ok(v)) => k@ == v,
                (Err(e), Err(f)) => e == f,
                _ => false,
            },
    {
        match key {
            None => Ok(Self::default()),
            Some(k) => match material {
                Some(m) => Self::from_key(k, m),
                None => {
                    let nothing: Vec<u8> = Vec::new();
                    Self::from_key(k, nothing.as_slice())
                },
            },
        }
    }

    /// Decrypts one segment. Without encryption the segment comes back as it
    /// is. With AES-128 the result is the plaintext, or `Ok(None)` where the
    /// cipher rejects the ciphertext; a descriptor whose key or vector is
    /// not 16 bytes long is an error.
    pub fn decode(&self, data: &[u8]) -> (r: Result<Option<Vec<u8>>, DownloadError>)
        ensures
            match (r, decoded(self@, data@)) {
                (Ok(None), Ok(None)) => true,
                (Ok(Some(p)), Ok(Some(q))) => p@ == q,
                (Err(e), Err(f)) => e == f,
                _ => false,
            },
    {
        match self.ty {
            KeyType::Clear => Ok(Some(vstd::slice::slice_to_vec(data))),
            KeyType::Aes128 => {
                if self.key.len() != 16 || self.iv.len() != 16 {
                    Err(DownloadError::MalformedKey)
                } else {
                    Ok(aes128_cbc_decrypt(self.key.as_slice(), self.iv.as_slice(), data))
                }
            },
        }
    }
}

/// What has to be done to have the encryption descriptor of a download.
#[derive(Debug)]
pub enum KeyPlan {
    /// Nothing: the download is not encrypted.
    Clear,
    /// The key material is to be fetched from this address.
    Fetch(String),
}

/// Decides what has to be done for the key descriptor that applies to a
/// download, if there is one: nothing without a descriptor or with the
/// method `NONE`, a fetch of the key material for `AES-128`.
pub fn key_plan(base_url: &str, key: Option<&KeyDescriptor>) -> (r: Result<KeyPlan, DownloadError>)
    ensures
        match key {
            None => r matches Ok(KeyPlan::Clear),
            Some(k) => match (r, M3u8EncryptKey::address_of(base_url@, k)) {
                (Ok(KeyPlan::Clear), Ok(None)) => true,
                (Ok(KeyPlan::Fetch(u)), Ok(Some(v))) => u@ == v,
                (Err(e), Err(f)) => e == f,
                _ => false,
            },
        },
{
    match key {
        None => Ok(KeyPlan::Clear),
        Some(k) => match M3u8EncryptKey::key_address(base_url, k) {
            Ok(None) => Ok(KeyPlan::Clear),
            Ok(Some(u)) => Ok(KeyPlan::Fetch(u)),
            Err(e) => Err(e),
        },
    }
}

} // verus!
