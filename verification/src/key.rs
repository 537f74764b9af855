use vstd::prelude::*;

use crate::path::CanonicalPath;

verus! {

/// The text of the 256-bit digest that blake3 assigns to a byte string:
/// the name under which a location with those path bytes is stored.
pub uninterp spec fn digest_of(bytes: Seq<u8>) -> Seq<char>;

/// Holds when `c` is a lowercase hexadecimal digit.
pub open spec fn is_hex_char(c: char) -> bool {
    ('0' <= c && c <= '9') || ('a' <= c && c <= 'f')
}

/// Holds when `s` is the text of a 256-bit digest: 64 lowercase
/// hexadecimal characters. Such text contains no path separator or
/// other reserved character, so it is safe as a single file name.
pub open spec fn is_digest_text(s: Seq<char>) -> bool {
    s.len() == 64 && (forall|i: int| 0 <= i < s.len() ==> is_hex_char(#[trigger] s[i]))
}

/// Relies on `blake3::hash` and on the `Display` impl of `blake3::Hash`:
/// the digest is a function of the input bytes alone (no randomness, no
/// machine-specific salt), and its text form is the 32 digest bytes as
/// 64 lowercase hexadecimal characters.
#[verifier::external_body]
fn blake3_hex(bytes: &Vec<u8>) -> (r: String)
    ensures
        r@ == digest_of(bytes@),
        is_digest_text(r@),
{
    blake3::hash(bytes).to_string()
}

/// Derive the identifier for the location of a project: the blake3
/// digest of the exact raw bytes of its canonical path, as text.
/// Deterministic by construction: the result depends on the path bytes
/// alone, so the same path yields the same text at any time and in any
/// process.
pub fn encode_path(path: &CanonicalPath) -> (r: String)
    ensures
        r@ == digest_of(path@),
        is_digest_text(r@),
{
    blake3_hex(path.bytes())
}

/// An opaque identifier for a registered location. Semantically a short
/// fixed-alphabet string; equality is byte equality on the text. Keys
/// the registry derives are digest text, but any string can be carried
/// as a key for lookup and removal.
#[derive(Debug, Hash)]
pub struct RegistryKey {
    name: String,
}

impl View for RegistryKey {
    type V = Seq<char>;

    closed spec fn view(&self) -> Seq<char> {
        self.name@
    }
}

impl RegistryKey {
    /// Wrap a string as a key.
    pub fn new(name: String) -> (r: Self)
        ensures
            r@ == name@,
    {
        RegistryKey { name }
    }

    /// The text of the key, for display and for use as a file name.
    pub fn as_str(&self) -> (r: &str)
        ensures
            r@ == self@,
    {
        self.name.as_str()
    }
}

impl From<String> for RegistryKey {
    fn from(name: String) -> (r: Self) {
        RegistryKey { name }
    }
}

impl vstd::std_specs::convert::FromSpecImpl<String> for RegistryKey {
    open spec fn obeys_from_spec() -> bool {
        true
    }

    closed spec fn from_spec(name: String) -> RegistryKey {
        RegistryKey { name }
    }
}

impl Clone for RegistryKey {
    fn clone(&self) -> (r: Self)
        ensures
            r@ == self@,
    {
        RegistryKey { name: self.name.clone() }
    }
}

impl PartialEq for RegistryKey {
    fn eq(&self, other: &Self) -> (r: bool) {
        self.name == other.name
    }
}

impl Eq for RegistryKey {

}

impl vstd::std_specs::cmp::PartialEqSpecImpl for RegistryKey {
    open spec fn obeys_eq_spec() -> bool {
        true
    }

    open spec fn eq_spec(&self, other: &Self) -> bool {
        self@ == other@
    }
}

} // verus!
