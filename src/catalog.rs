//! The model catalog: one entry per enabled model, with metadata derived from
//! the model's name.

use crate::clock::now_rfc3339;
use vstd::prelude::*;
use vstd::utf8::encode_utf8;

verus! {

/// The pattern whose first group is a model's family.
pub const FAMILY_PATTERN: &'static str = "^([a-zA-Z0-9]+)";

/// The size reported for a model of a known family.
pub const KNOWN_MODEL_SIZE: u64 = 1234567890;

/// The size reported for any other model.
pub const OTHER_MODEL_SIZE: u64 = 9876543210;

/// The lowercase hex SHA-256 digest of some bytes, as `crypto_hash` gives it.
pub uninterp spec fn sha256_hex(data: Seq<u8>) -> Seq<char>;

/// An ASCII letter or digit.
pub open spec fn is_ascii_alnum(c: char) -> bool {
    ('a' <= c && c <= 'z') || ('A' <= c && c <= 'Z') || ('0' <= c && c <= '9')
}

/// The leading run of ASCII letters and digits of a text.
pub open spec fn leading_alnum(s: Seq<char>) -> Seq<char>
    decreases s.len(),
{
    if s.len() > 0 && is_ascii_alnum(s[0]) {
        seq![s[0]] + leading_alnum(s.drop_first())
    } else {
        Seq::empty()
    }
}

/// Whether `needle` occurs in `hay`.
pub open spec fn occurs_in(needle: Seq<char>, hay: Seq<char>) -> bool {
    exists|i: int| 0 <= i <= hay.len() - needle.len() && #[trigger] hay.subrange(i, i + needle.len()) == needle
}

/// Relies on `str::contains` with a `&str` pattern: whether the needle occurs
/// in the text.
#[verifier::external_body]
fn contains_text(hay: &str, needle: &str) -> (r: bool)
    ensures
        r == occurs_in(needle@, hay@),
{
    hay.contains(needle)
}

/// Relies on `regex::Regex::new` and `Regex::captures`: `FAMILY_PATTERN`
/// compiles, and its first group is the leading run of ASCII letters and
/// digits, with no match where that run is empty.
#[verifier::external_body]
fn capture_family(pattern: &str, name: &str) -> (r: Option<String>)
    requires
        pattern@ == FAMILY_PATTERN@,
    ensures
        leading_alnum(name@).len() == 0 ==> r is None,
        leading_alnum(name@).len() > 0 ==> r is Some && r->0@ == leading_alnum(name@),
{
    regex::Regex::new(pattern).unwrap().captures(name).and_then(|c| c.get(1)).map(
        |m| m.as_str().to_owned(),
    )
}

/// Relies on `crypto_hash::hex_digest` with `Algorithm::SHA256`.
#[verifier::external_body]
fn sha256_hex_digest(data: &[u8]) -> (r: String)
    ensures
        r@ == sha256_hex(data@),
{
    crypto_hash::hex_digest(crypto_hash::Algorithm::SHA256, data)
}

/// The details of a catalog entry.
#[derive(Debug)]
pub struct ModelDetails {
    pub parent_model: String,
    pub format: String,
    pub family: String,
    pub families: Vec<String>,
    pub parameter_size: String,
    pub quantization_level: String,
}

/// One entry of the model catalog.
#[derive(Debug)]
pub struct ModelEntry {
    pub name: String,
    pub model: String,
    pub modified_at: String,
    pub size: u64,
    pub digest: String,
    pub details: ModelDetails,
}

/// A model whose name mentions `llama`.
pub open spec fn is_llama(name: Seq<char>) -> bool {
    occurs_in("llama"@, name)
}

/// A model whose name mentions `mistral` but not `llama`.
pub open spec fn is_mistral(name: Seq<char>) -> bool {
    !is_llama(name) && occurs_in("mistral"@, name)
}

/// The family of a model: the leading run of ASCII letters and digits of its
/// name, or `unknown` where there is none.
pub open spec fn family_of(name: Seq<char>) -> Seq<char> {
    if leading_alnum(name).len() > 0 {
        leading_alnum(name)
    } else {
        "unknown"@
    }
}

/// `e` is the catalog entry of the model `name`, with `digest` and
/// `modified_at`.
pub open spec fn is_entry_of(e: ModelEntry, name: Seq<char>, digest: Seq<char>, modified_at: Seq<char>) -> bool {
    let known = is_llama(name) || is_mistral(name);
    &&& e.name@ == name
    &&& e.model@ == name
    &&& e.modified_at@ == modified_at
    &&& e.digest@ == digest
    &&& e.size == if known { KNOWN_MODEL_SIZE } else { OTHER_MODEL_SIZE }
    &&& e.details.parent_model@ == Seq::<char>::empty()
    &&& e.details.format@ == if known { "gguf"@ } else { "unknown"@ }
    &&& e.details.family@ == family_of(name)
    &&& e.details.families@.len() == 1
    &&& e.details.families@[0]@ == family_of(name)
    &&& e.details.parameter_size@ == if is_llama(name) { "405B"@ } else { "unknown"@ }
    &&& e.details.quantization_level@ == if is_llama(name) { "Q4_0"@ } else { "unknown"@ }
}

/// The family of a model, from its name.
pub fn model_family(name: &str) -> (r: String)
    ensures
        r@ == family_of(name@),
{
    match capture_family(FAMILY_PATTERN, name) {
        Some(f) => f,
        None => "unknown".to_owned(),
    }
}

/// The catalog entry of the model `name`, given its digest and timestamp.
pub fn entry_with_digest(name: &String, digest: String, modified_at: String) -> (r: ModelEntry)
    ensures
        is_entry_of(r, name@, digest@, modified_at@),
{
    let llama = contains_text(name.as_str(), "llama");
    let mistral = !llama && contains_text(name.as_str(), "mistral");
    let (format, size, parameter_size, quantization_level) = if llama {
        ("gguf", KNOWN_MODEL_SIZE, "405B", "Q4_0")
    } else if mistral {
        ("gguf", KNOWN_MODEL_SIZE, "unknown", "unknown")
    } else {
        ("unknown", OTHER_MODEL_SIZE, "unknown", "unknown")
    };
    let family = model_family(name.as_str());
    let families = vec![family.clone()];
    ModelEntry {
        name: name.clone(),
        model: name.clone(),
        modified_at,
        size,
        digest,
        details: ModelDetails {
            parent_model: String::new(),
            format: format.to_owned(),
            family,
            families,
            parameter_size: parameter_size.to_owned(),
            quantization_level: quantization_level.to_owned(),
        },
    }
}

/// The catalog entry of the model `name`: its digest is the SHA-256 of the
/// name's bytes.
pub fn catalog_entry(name: &String, modified_at: String) -> (r: ModelEntry)
    ensures
        is_entry_of(r, name@, sha256_hex(encode_utf8(name@)), modified_at@),
{
    let digest = sha256_hex_digest(name.as_str().as_bytes());
    entry_with_digest(name, digest, modified_at)
}

/// The catalog of the enabled models, in their order, each stamped with the
/// time it was made.
pub fn catalog(names: &Vec<String>) -> (r: Vec<ModelEntry>)
    ensures
        r@.len() == names@.len(),
        forall|i: int|
            0 <= i < r@.len() ==> is_entry_of(
                #[trigger] r@[i],
                names@[i]@,
                sha256_hex(encode_utf8(names@[i]@)),
                r@[i].modified_at@,
            ),
{
    let mut r: Vec<ModelEntry> = Vec::new();
    let mut i: usize = 0;
    while i < names.len()
        invariant
            0 <= i <= names@.len(),
            r@.len() == i,
            forall|j: int|
                0 <= j < i ==> is_entry_of(
                    #[trigger] r@[j],
                    names@[j]@,
                    sha256_hex(encode_utf8(names@[j]@)),
                    r@[j].modified_at@,
                ),
        decreases names@.len() - i,
    {
        r.push(catalog_entry(&names[i], now_rfc3339()));
        i = i + 1;
    }
    r
}

} // verus!
