//! Account identifiers: text, compared as text.

use vstd::prelude::*;
use vstd::utf8::encode_utf8;

verus! {

/// Whether a byte may separate two parts of an account identifier.
pub open spec fn is_separator(b: u8) -> bool {
    b == 0x2d || b == 0x5f || b == 0x2e
}

/// Whether a byte is a lower-case letter or a digit.
pub open spec fn is_lower_alphanumeric(b: u8) -> bool {
    0x61 <= b <= 0x7a || 0x30 <= b <= 0x39
}

/// The shape of an account identifier of the chain: 2 to 64 bytes, each a
/// lower-case letter, a digit or a separator, where no separator stands first,
/// last or next to another one.
pub open spec fn valid_account_bytes(id: Seq<u8>) -> bool {
    &&& 2 <= id.len() <= 64
    &&& forall|i: int|
        0 <= i < id.len() ==> is_lower_alphanumeric(#[trigger] id[i]) || is_separator(id[i])
    &&& !is_separator(id[0])
    &&& !is_separator(id[id.len() - 1])
    &&& forall|i: int|
        0 < i < id.len() ==> !(is_separator(#[trigger] id[i]) && is_separator(id[i - 1]))
}

/// Whether a text is an account identifier of the chain.
pub open spec fn valid_account_id(id: Seq<char>) -> bool {
    valid_account_bytes(encode_utf8(id))
}

/// Calls `near_sdk::env::is_valid_account_id`. Claimed of it: it answers `true`
/// exactly for the byte strings that `valid_account_bytes` describes.
#[verifier::external_body]
fn chain_accepts_account_id(id: &[u8]) -> (r: bool)
    ensures
        r == valid_account_bytes(id@),
{
    near_sdk::env::is_valid_account_id(id)
}

/// Whether the chain accepts a text as an account identifier.
pub fn is_valid_account_id(id: &String) -> (r: bool)
    ensures
        r == valid_account_id(id@),
{
    chain_accepts_account_id(id.as_str().as_bytes())
}

/// Whether `id` ends with `suffix`.
pub open spec fn has_suffix(id: Seq<char>, suffix: Seq<char>) -> bool {
    suffix.len() <= id.len() && id.subrange(id.len() - suffix.len(), id.len() as int) == suffix
}

/// Whether `id` ends with `suffix`.
pub fn ends_with(id: &String, suffix: &str) -> (r: bool)
    ensures
        r == has_suffix(id@, suffix@),
{
    let n: usize = id.as_str().unicode_len();
    let m: usize = suffix.unicode_len();
    if m > n {
        return false;
    }
    let tail = id.as_str().substring_char(n - m, n);
    let mut i: usize = 0;
    while i < m
        invariant
            m == suffix@.len(),
            tail@.len() == m,
            i <= m,
            forall|j: int| 0 <= j < i ==> tail@[j] == suffix@[j],
            n == id@.len(),
            m <= n,
            tail@ == id@.subrange(n - m, n as int),
        decreases m - i,
    {
        if tail.get_char(i) != suffix.get_char(i) {
            assert(tail@[i as int] != suffix@[i as int]);
            return false;
        }
        i = i + 1;
    }
    assert(tail@ =~= suffix@);
    true
}

} // verus!
