//! Upgrade negotiation: recognising the client's plaintext upgrade request
//! and the fixed response that switches the stream to framed mode.

use vstd::prelude::*;
use vstd::slice::slice_to_vec;
use vstd::string::{is_ascii, is_ascii_spec_bytes, StringSliceAdditionalSpecFns};

verus! {

/// Largest number of bytes taken from the socket in one read while the
/// upgrade request is awaited.
pub const UPGRADE_CHUNK_SIZE: usize = 1024;

/// A byte with an ASCII capital letter replaced by its small letter.
pub open spec fn ascii_lower(byte: u8) -> u8 {
    if 0x41 <= byte <= 0x5a {
        (byte + 0x20) as u8
    } else {
        byte
    }
}

/// A text with every ASCII capital letter replaced by its small letter.
pub open spec fn lowered(text: Seq<u8>) -> Seq<u8> {
    text.map_values(|byte: u8| ascii_lower(byte))
}

/// `pattern` stands in `text` at offset `at`.
pub open spec fn occurs_at(text: Seq<u8>, pattern: Seq<u8>, at: int) -> bool {
    &&& 0 <= at
    &&& at + pattern.len() <= text.len()
    &&& text.subrange(at, at + pattern.len()) == pattern
}

/// `pattern` stands somewhere in `text`.
pub open spec fn occurs(text: Seq<u8>, pattern: Seq<u8>) -> bool {
    exists|at: int| occurs_at(text, pattern, at)
}

/// The token that marks an upgrade request, in small letters.
pub open spec fn upgrade_marker() -> Seq<u8> {
    "upgrade".spec_bytes()
}

/// A chunk asks for the upgrade when it holds the marker in any mix of
/// capital and small letters.
pub open spec fn has_upgrade_marker(chunk: Seq<u8>) -> bool {
    occurs(lowered(chunk), upgrade_marker())
}

/// The bytes that answer an upgrade request.
pub open spec fn upgrade_response_bytes() -> Seq<u8> {
    "HTTP/1.1 101 Switching Protocols\r\nUpgrade: loqui\r\nConnection: Upgrade\r\n\r\n".spec_bytes()
}

/// The marker is the seven letters of `upgrade`, one byte each, so a chunk
/// that holds it has at least seven bytes.
pub proof fn lemma_marker_is_seven_letters(chunk: Seq<u8>)
    ensures
        upgrade_marker() == seq![0x75u8, 0x70u8, 0x67u8, 0x72u8, 0x61u8, 0x64u8, 0x65u8],
        has_upgrade_marker(chunk) ==> chunk.len() >= 7,
{
    reveal_strlit("upgrade");
    assert(is_ascii("upgrade")) by {
        assert("upgrade"@ =~= seq!['u', 'p', 'g', 'r', 'a', 'd', 'e']);
    }
    is_ascii_spec_bytes("upgrade");
    assert(upgrade_marker() =~= seq![0x75u8, 0x70u8, 0x67u8, 0x72u8, 0x61u8, 0x64u8, 0x65u8]);
}

fn lower(byte: u8) -> (out: u8)
    ensures
        out == ascii_lower(byte),
{
    if 0x41 <= byte && byte <= 0x5a {
        byte + 0x20
    } else {
        byte
    }
}

fn matches_at(text: &[u8], pattern: &[u8], at: usize) -> (same: bool)
    requires
        at + pattern.len() <= text.len(),
    ensures
        same == occurs_at(lowered(text@), pattern@, at as int),
{
    let ghost window = lowered(text@).subrange(at as int, at + pattern.len());
    let mut k: usize = 0;
    while k < pattern.len()
        invariant
            k <= pattern.len(),
            at + pattern.len() <= text.len(),
            window == lowered(text@).subrange(at as int, at + pattern.len()),
            forall|j: int| 0 <= j < k ==> window[j] == pattern@[j],
        decreases pattern.len() - k,
    {
        if lower(text[at + k]) != pattern[k] {
            assert(window[k as int] != pattern@[k as int]);
            return false;
        }
        k += 1;
    }
    assert(window =~= pattern@);
    true
}

/// Whether `pattern` stands in `text` once the capital letters of `text`
/// are read as small ones.
fn contains_ignoring_case(text: &[u8], pattern: &[u8]) -> (found: bool)
    ensures
        found == occurs(lowered(text@), pattern@),
{
    if pattern.len() > text.len() {
        return false;
    }
    let last: usize = text.len() - pattern.len();
    let mut at: usize = 0;
    loop
        invariant
            at <= last,
            last == text.len() - pattern.len(),
            forall|i: int| 0 <= i < at ==> !occurs_at(lowered(text@), pattern@, i),
        decreases last - at,
    {
        if matches_at(text, pattern, at) {
            return true;
        }
        if at == last {
            return false;
        }
        at += 1;
    }
}

/// Scans one chunk read from the socket for the upgrade marker. The scan is
/// on the bytes of this chunk alone: a marker that straddles two chunks is
/// not seen.
pub fn contains_upgrade_marker(chunk: &[u8]) -> (found: bool)
    ensures
        found == has_upgrade_marker(chunk@),
{
    contains_ignoring_case(chunk, "upgrade".as_bytes())
}

/// The response that tells the client that the protocol is switched.
pub fn upgrade_response() -> (bytes: Vec<u8>)
    ensures
        bytes@ == upgrade_response_bytes(),
{
    let text = "HTTP/1.1 101 Switching Protocols\r\nUpgrade: loqui\r\nConnection: Upgrade\r\n\r\n";
    slice_to_vec(text.as_bytes())
}

} // verus!
