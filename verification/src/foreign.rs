//! Trusted declarations for the outside calls the library's logic needs:
//! Unicode lowercasing, JSON document navigation, SSH key fingerprints,
//! random bytes and wall-clock timestamps.  Each wrapper's contract is what
//! the called crate's source shows; nothing below it is verified.

use vstd::prelude::*;

verus! {

/// What `str::to_lowercase` returns: the Unicode lowercase mapping of the
/// characters, a function of the characters alone.
pub uninterp spec fn lower_of(s: Seq<char>) -> Seq<char>;

/// Relies on `str::to_lowercase`: the result depends on the characters alone,
/// and lowercasing an empty string yields an empty string.
#[verifier::external_body]
pub fn lowercase(s: &str) -> (r: String)
    ensures
        r@ == lower_of(s@),
        s@.len() == 0 ==> r@.len() == 0,
{
    s.to_lowercase()
}

/// What parsing `doc` as a JSON document and resolving the JSON pointer `ptr`
/// to a string value yields: `Some` of the string's characters when `doc` is
/// a valid document, the pointer resolves, and the value there is a string;
/// `None` otherwise.  A function of the two texts alone.
pub uninterp spec fn json_pointer_str_of(doc: Seq<char>, ptr: Seq<char>) -> Option<Seq<char>>;

/// Relies on `serde_json::from_str` (parses one JSON document),
/// `serde_json::Value::pointer` (resolves an RFC 6901 JSON pointer) and
/// `serde_json::Value::as_str`: together a function of the two texts alone.
#[verifier::external_body]
pub fn json_pointer_str(doc: &str, ptr: &str) -> (r: Option<String>)
    ensures
        r is Some <==> json_pointer_str_of(doc@, ptr@) is Some,
        r matches Some(s) ==> json_pointer_str_of(doc@, ptr@) == Some(s@),
{
    let value: serde_json::Value = serde_json::from_str(doc).ok()?;
    let found = value.pointer(ptr)?;
    found.as_str().map(|s| s.to_string())
}

/// Whether `ssh_key::PublicKey::from_openssh` accepts the text as an OpenSSH
/// public key: a function of the text alone.
pub uninterp spec fn openssh_parses(s: Seq<char>) -> bool;

/// What the standard SSH fingerprint (SHA-256, rendered `SHA256:<base64>`)
/// of the key encoded by `s` is: a function of the text alone.
pub uninterp spec fn openssh_fingerprint_of(s: Seq<char>) -> Seq<char>;

/// Relies on `ssh_key::PublicKey::from_openssh` (parses the OpenSSH text
/// form; success depends on the text alone) and on
/// `ssh_key::public::PublicKey::fingerprint` with the default hash algorithm
/// (a SHA-256 digest of the key data, a function of the key alone), rendered
/// through `ssh_key::Fingerprint`'s `Display`.  On failure the error's text
/// is returned; nothing is promised of it.
#[verifier::external_body]
pub fn openssh_fingerprint(s: &str) -> (r: Result<String, String>)
    ensures
        r is Ok <==> openssh_parses(s@),
        r matches Ok(f) ==> f@ == openssh_fingerprint_of(s@),
{
    match ssh_key::PublicKey::from_openssh(s) {
        Ok(key) => Ok(key.fingerprint(Default::default()).to_string()),
        Err(e) => Err(e.to_string()),
    }
}

/// Relies on `String::push`: appends exactly the one character to the end
/// of the string.
#[verifier::external_body]
pub fn push_char(s: &mut String, c: char)
    ensures
        final(s)@ == old(s)@ + seq![c],
{
    s.push(c);
}

/// Relies on `rand::random`: a byte drawn from the thread-local generator.
/// The result depends on the generator's state, so nothing is promised of it.
#[verifier::external_body]
pub fn random_byte() -> u8 {
    rand::random::<u8>()
}

/// Relies on `chrono::Utc::now`, rendered through its `Display`.  The result
/// depends on the clock, so nothing is promised of it.
#[verifier::external_body]
pub fn utc_now_string() -> String {
    chrono::Utc::now().to_string()
}

} // verus!
