//! The parts of a verified identity: provider, tenant, subject.

use crate::text;
use vstd::prelude::*;

verus! {

/// The longest provider name, in bytes.
pub const MAX_PROVIDER_BYTES: usize = 64;

/// The longest tenant name, in bytes.
pub const MAX_TENANT_BYTES: usize = 255;

/// The longest subject, in bytes.
pub const MAX_SUBJECT_BYTES: usize = 512;

/// Text that is not empty, has at most `maximum` bytes, no control character and no `|`.
pub open spec fn component(s: Seq<char>, maximum: nat) -> bool {
    &&& s.len() > 0
    &&& text::byte_len(s) <= maximum
    &&& forall|i: int| 0 <= i < s.len() ==> !text::control_char(#[trigger] s[i]) && s[i] != '|'
}

/// Whether `value` can be a part of an identity.
pub fn valid_component(value: &str, maximum: usize) -> (r: bool)
    ensures
        r == component(value@, maximum as nat),
{
    if value.is_empty() || text::len_in_bytes(value) > maximum {
        return false;
    }
    let chars: Vec<char> = text::chars_of(value);
    let mut i: usize = 0;
    while i < chars.len()
        invariant
            i <= chars.len(),
            chars@ == value@,
            forall|j: int| 0 <= j < i ==> !text::control_char(#[trigger] value@[j]) && value@[j] != '|',
        decreases chars.len() - i,
    {
        if text::is_control(chars[i]) || chars[i] == '|' {
            return false;
        }
        i += 1;
    }
    true
}

/// An identity as its three texts.
pub struct Identity {
    pub provider: Seq<char>,
    pub tenant: Seq<char>,
    pub subject: Seq<char>,
}

impl Identity {
    /// Whether each part is within its bounds.
    pub open spec fn valid(self) -> bool {
        &&& component(self.provider, MAX_PROVIDER_BYTES as nat)
        &&& component(self.tenant, MAX_TENANT_BYTES as nat)
        &&& component(self.subject, MAX_SUBJECT_BYTES as nat)
    }
}

/// Whether the three texts can be an identity.
pub fn valid_identity(provider: &str, tenant: &str, subject: &str) -> (r: bool)
    ensures
        r == (Identity {
            provider: provider@,
            tenant: tenant@,
            subject: subject@,
        }).valid(),
{
    valid_component(provider, MAX_PROVIDER_BYTES) && valid_component(tenant, MAX_TENANT_BYTES)
        && valid_component(subject, MAX_SUBJECT_BYTES)
}

} // verus!
