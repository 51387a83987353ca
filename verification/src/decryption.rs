//! When a download is decrypted. Only the encrypted extensions with a key from
//! the platform are; the QMC cipher itself is built by the runtime from the key.

use vstd::prelude::*;

use crate::download_path::{extension_of, spec_extension};
use crate::text::{chars_eq, str_chars};

verus! {

/// The decryption decided for a download: whether it is wanted, and the key the
/// cipher is built from. Any non-empty key enables it here; building the cipher
/// from the key, and what happens to a key the cipher rejects, is the runtime's
/// part.
#[derive(Debug)]
pub struct DecryptContext {
    pub enabled: bool,
    pub ekey: Option<String>,
}

/// Whether a file name has an encrypted extension: exactly `mgg` or `mflac`.
pub open spec fn spec_encrypted_extension(filename: Seq<char>) -> bool {
    match spec_extension(filename) {
        Some(e) => e == "mgg"@ || e == "mflac"@,
        None => false,
    }
}

/// Decryption applies only when it is enabled and a key is given.
pub fn init_decryption(key: &str, enabled: bool) -> (r: DecryptContext)
    ensures
        r.enabled == (enabled && key@.len() > 0),
        r.enabled ==> r.ekey is Some && r.ekey->0@ == key@,
        !r.enabled ==> r.ekey is None,
{
    if !enabled || key.unicode_len() == 0 {
        DecryptContext { enabled: false, ekey: None }
    } else {
        DecryptContext { enabled: true, ekey: Some(String::from_str(key)) }
    }
}

/// Chooses decryption from the file name, so that no worker repeats the
/// extension check: only `mgg` and `mflac` files with a key are decrypted.
pub fn init_for_filename(filename: &str, key: &str) -> (r: DecryptContext)
    ensures
        r.enabled == (spec_encrypted_extension(filename@) && key@.len() > 0),
        r.enabled ==> r.ekey is Some && r.ekey->0@ == key@,
        !r.enabled ==> r.ekey is None,
{
    let chars = str_chars(filename);
    let encrypted = match extension_of(chars.as_slice()) {
        Some(e) => {
            let mgg = str_chars("mgg");
            let mflac = str_chars("mflac");
            chars_eq(e.as_slice(), mgg.as_slice()) || chars_eq(e.as_slice(), mflac.as_slice())
        },
        None => false,
    };
    init_decryption(key, encrypted && key.unicode_len() > 0)
}

} // verus!
