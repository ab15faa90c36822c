//! AES-128-CBC decryption of HLS segments.
use vstd::prelude::*;
use aes::cipher::{BlockDecryptMut, KeyIvInit};
use crate::text::concat_str;

verus! {

broadcast use vstd::string::group_string_axioms;

/// Errors of segment decryption.
#[derive(Debug)]
pub enum CryptoError {
    /// The cipher rejected the data (bad length or padding).
    DecryptError(String),
    /// The key is not 16 bytes long.
    InvalidKeyLength,
    /// The IV is not 16 bytes long.
    InvalidIvLength,
}

pub enum CryptoErrorView {
    DecryptError(Seq<char>),
    InvalidKeyLength,
    InvalidIvLength,
}

impl View for CryptoError {
    type V = CryptoErrorView;

    open spec fn view(&self) -> CryptoErrorView {
        match self {
            CryptoError::DecryptError(m) => CryptoErrorView::DecryptError(m@),
            CryptoError::InvalidKeyLength => CryptoErrorView::InvalidKeyLength,
            CryptoError::InvalidIvLength => CryptoErrorView::InvalidIvLength,
        }
    }
}

/// The message of a decryption error.
pub open spec fn crypto_message(e: CryptoErrorView) -> Seq<char> {
    match e {
        CryptoErrorView::DecryptError(m) => "解密失败: "@ + m,
        CryptoErrorView::InvalidKeyLength => "无效的密钥长度"@,
        CryptoErrorView::InvalidIvLength => "无效的 IV 长度"@,
    }
}

impl CryptoError {
    /// The error's message, as shown to the user.
    pub fn message(&self) -> (r: String)
        ensures
            r@ == crypto_message(self@),
    {
        match self {
            CryptoError::DecryptError(m) => concat_str("解密失败: ", m.as_str()),
            CryptoError::InvalidKeyLength => "无效的密钥长度".to_owned(),
            CryptoError::InvalidIvLength => "无效的 IV 长度".to_owned(),
        }
    }
}

/// The plaintext AES-128 in CBC mode with PKCS#7 padding gives for `data`
/// under `key` and `iv`, or `None` when unpadding fails.
pub uninterp spec fn aes128_cbc_decrypt(data: Seq<u8>, key: Seq<u8>, iv: Seq<u8>) -> Option<Seq<u8>>;

/// The text of the `cipher` crate's unpadding error.
pub open spec fn unpad_error_text() -> Seq<char> {
    "Unpad Error"@
}

/// `cbc::Decryptor::<aes::Aes128>::new_from_slices(key, iv)` followed by
/// `decrypt_padded_mut::<Pkcs7>`. With 16-byte key and IV the decryptor is
/// always built; the decryption fails with `UnpadError` ("Unpad Error")
/// when the data is not a whole number of 16-byte blocks or the padding is
/// malformed.
#[verifier::external_body]
fn cbc_decrypt_pkcs7(data: &[u8], key: &[u8], iv: &[u8]) -> (r: Result<Vec<u8>, String>)
    requires
        key@.len() == 16,
        iv@.len() == 16,
    ensures
        r matches Ok(p) ==> aes128_cbc_decrypt(data@, key@, iv@) == Some(p@),
        r matches Err(e) ==> aes128_cbc_decrypt(data@, key@, iv@) is None && e@ == unpad_error_text(),
        data@.len() % 16 != 0 ==> r is Err,
{
    let mut buf = data.to_vec();
    let dec = cbc::Decryptor::<aes::Aes128>::new_from_slices(key, iv).map_err(|e| e.to_string())?;
    dec.decrypt_padded_mut::<aes::cipher::block_padding::Pkcs7>(&mut buf).map(|p| p.to_vec()).map_err(|e| e.to_string())
}

/// What `decrypt_aes128` returns.
pub open spec fn decrypt_aes128_spec(data: Seq<u8>, key: Seq<u8>, iv: Seq<u8>) -> Result<Seq<u8>, CryptoErrorView> {
    if key.len() != 16 {
        Err(CryptoErrorView::InvalidKeyLength)
    } else if iv.len() != 16 {
        Err(CryptoErrorView::InvalidIvLength)
    } else {
        match aes128_cbc_decrypt(data, key, iv) {
            Some(p) => Ok(p),
            None => Err(CryptoErrorView::DecryptError(unpad_error_text())),
        }
    }
}

/// AES-128-CBC decryption with PKCS#7 padding.
///
/// * `data` - the ciphertext
/// * `key` - the 16-byte AES key
/// * `iv` - the 16-byte initialisation vector
pub fn decrypt_aes128(data: &[u8], key: &[u8], iv: &[u8]) -> (r: Result<Vec<u8>, CryptoError>)
    ensures
        r matches Ok(p) ==> decrypt_aes128_spec(data@, key@, iv@) == Ok::<Seq<u8>, CryptoErrorView>(p@),
        r matches Err(e) ==> decrypt_aes128_spec(data@, key@, iv@) == Err::<Seq<u8>, CryptoErrorView>(e@),
        // data that is not a whole number of blocks never decrypts
        key@.len() == 16 && iv@.len() == 16 && data@.len() % 16 != 0 ==> (r matches Err(e) && e@
            == CryptoErrorView::DecryptError(unpad_error_text())),
{
    if key.len() != 16 {
        return Err(CryptoError::InvalidKeyLength);
    }
    if iv.len() != 16 {
        return Err(CryptoError::InvalidIvLength);
    }
    match cbc_decrypt_pkcs7(data, key, iv) {
        Ok(p) => Ok(p),
        Err(e) => Err(CryptoError::DecryptError(e)),
    }
}

} // verus!
