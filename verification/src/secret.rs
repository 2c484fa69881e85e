//! Sealing of secrets in the settings file, in the build without the sealing
//! key: values are stored as they are and sealed values cannot be opened.
use crate::text::{has_prefix, is_whitespace, owned, trim_start};
use vstd::prelude::*;

verus! {

/// The marker that starts a sealed value.
pub open spec fn sealed_prefix() -> Seq<char> {
    "enc.v1:"@
}

/// Why a secret could not be unsealed.
#[derive(Debug, Clone, Copy, PartialEq, Eq, Structural)]
pub enum SecretError {
    /// This build cannot read sealed values.
    Unavailable,
}

impl SecretError {
    /// The message shown for the error.
    pub fn message(&self) -> (r: String)
        ensures
            r@ == "이 빌드에서는 읽을 수 없는 값입니다"@,
    {
        owned("이 빌드에서는 읽을 수 없는 값입니다")
    }
}

/// Whether `value` (leading white space ignored) is a sealed value.
pub fn looks_sealed(value: &str) -> (r: bool)
    ensures
        r == (trim_start(value@).len() >= sealed_prefix().len() && trim_start(value@).take(
            sealed_prefix().len() as int,
        ) == sealed_prefix()),
{
    let v = crate::text::chars_of(value);
    let mut start: usize = 0;
    assert(v@.subrange(0, v@.len() as int) =~= v@);
    while start < v.len() && is_whitespace(v[start])
        invariant
            v@ == value@,
            start <= v@.len(),
            trim_start(value@) == trim_start(v@.subrange(start as int, v@.len() as int)),
        decreases v@.len() - start,
    {
        assert(v@.subrange(start as int, v@.len() as int).drop_first() =~= v@.subrange(
            start + 1,
            v@.len() as int,
        ));
        start = start + 1;
    }
    let rest = crate::text::string_from_chars(&v, start, v.len());
    assert(trim_start(rest@) == rest@);
    has_prefix(rest.as_str(), "enc.v1:")
}

/// Seals `plaintext`; this build stores it as it is.
pub fn seal(plaintext: &str) -> (r: Result<String, SecretError>)
    ensures
        r matches Ok(s) && s@ == plaintext@,
{
    Ok(owned(plaintext))
}

/// Opens a sealed value; this build cannot.
pub fn open(sealed: &str) -> (r: Result<String, SecretError>)
    ensures
        r == Err::<String, SecretError>(SecretError::Unavailable),
{
    Err(SecretError::Unavailable)
}

} // verus!
