//! Identifiers: the random token that names a paste, both as its file in the
//! storage directory and as the path segment of its URL.

use vstd::prelude::*;
use vstd::string::*;
use rand::distr::{Alphanumeric, SampleString};
use crate::retrieval::{is_white_space, not_slash, sanitized, trim_end, trim_start};

verus! {

/// The number of characters of an identifier.
pub const IDENTIFIER_LENGTH: usize = 16;

/// Whether `c` is one of the 62 ASCII digits and letters.
pub open spec fn is_alphanumeric(c: char) -> bool {
    let n = c as u32;
    ||| 0x30 <= n <= 0x39
    ||| 0x41 <= n <= 0x5A
    ||| 0x61 <= n <= 0x7A
}

/// Whether `s` has the form of an identifier: sixteen characters, each an ASCII
/// digit or letter.
pub open spec fn is_identifier(s: Seq<char>) -> bool {
    &&& s.len() == IDENTIFIER_LENGTH
    &&& forall|i: int| 0 <= i < s.len() ==> is_alphanumeric(#[trigger] s[i])
}

/// Calls `rand::distr::Alphanumeric.sample_string` on the thread's generator
/// `rand::rng()`. Claimed of it: the string has `len` characters, and each is
/// one of the ASCII digits and letters that the distribution draws from. Which
/// of them come out is left open: two calls may differ.
#[verifier::external_body]
fn sample_alphanumeric(len: usize) -> (sample: String)
    ensures
        sample@.len() == len,
        forall|i: int| 0 <= i < sample@.len() ==> is_alphanumeric(#[trigger] sample@[i]),
{
    Alphanumeric.sample_string(&mut rand::rng(), len)
}

/// A fresh identifier, drawn at random. Nothing is checked against the
/// identifiers handed out before.
pub fn generate_identifier() -> (id: String)
    ensures
        is_identifier(id@),
{
    sample_alphanumeric(IDENTIFIER_LENGTH)
}

/// Whether `c` is one of the 62 ASCII digits and letters.
pub fn alphanumeric(c: char) -> (yes: bool)
    ensures
        yes == is_alphanumeric(c),
{
    let n: u32 = c as u32;
    (0x30 <= n && n <= 0x39) || (0x41 <= n && n <= 0x5A) || (0x61 <= n && n <= 0x7A)
}

/// Whether `text` has the form of an identifier.
pub fn is_valid_identifier(text: &str) -> (valid: bool)
    ensures
        valid == is_identifier(text@),
{
    if text.unicode_len() != IDENTIFIER_LENGTH {
        return false;
    }
    let mut i: usize = 0;
    while i < IDENTIFIER_LENGTH
        invariant
            i <= IDENTIFIER_LENGTH,
            text@.len() == IDENTIFIER_LENGTH,
            forall|j: int| 0 <= j < i ==> is_alphanumeric(#[trigger] text@[j]),
        decreases IDENTIFIER_LENGTH - i,
    {
        if !alphanumeric(text.get_char(i)) {
            return false;
        }
        i = i + 1;
    }
    true
}

/// Removing the slashes from a text that holds none leaves it as it is.
proof fn lemma_filter_keeps_slash_free(s: Seq<char>)
    requires
        forall|i: int| 0 <= i < s.len() ==> #[trigger] s[i] != '/',
    ensures
        s.filter(not_slash()) == s,
    decreases s.len(),
{
    reveal(Seq::filter);
    if s.len() > 0 {
        lemma_filter_keeps_slash_free(s.drop_last());
        assert(s.drop_last().push(s.last()) =~= s);
    }
}

/// An identifier names its own file: cleaning it as a request is cleaned
/// changes nothing, so the identifier that the ingest listener hands out is
/// the name under which the retrieval service looks.
pub proof fn lemma_identifier_is_its_own_file_name(id: Seq<char>)
    requires
        is_identifier(id),
    ensures
        sanitized(id) == id,
{
    assert(is_alphanumeric(id[0]) && !is_white_space(id[0]));
    assert(is_alphanumeric(id.last()) && !is_white_space(id.last()));
    assert(trim_end(trim_start(id)) == id);
    assert forall|i: int| 0 <= i < id.len() implies #[trigger] id[i] != '/' by {
        assert(is_alphanumeric(id[i]));
    }
    lemma_filter_keeps_slash_free(id);
}

} // verus!
