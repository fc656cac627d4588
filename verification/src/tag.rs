//! Block tags: a closed byte-sized enumeration identifying the shape of a
//! heap block, plus the threshold separating *scanned* blocks (every
//! payload word is itself a value the collector follows) from *no-scan*
//! blocks (the payload is opaque and must never be interpreted as values).

use vstd::prelude::*;

verus! {

/// Tag of plain structure blocks: tuples, records, and the first
/// non-constant variant of a sum type.
pub const TAG_TUPLE: u8 = 0;

/// Tag identifying a callable closure block.
pub const TAG_CLOSURE: u8 = 247;

/// Tag of object blocks.
pub const TAG_OBJECT: u8 = 248;

/// Tags at or above this threshold mark no-scan blocks: their payload is
/// opaque bytes that the collector must not follow.
pub const NO_SCAN_TAG: u8 = 251;

/// Tag of abstract-pointer blocks (one opaque word, caller-managed).
pub const TAG_ABSTRACT: u8 = 251;

/// Tag of byte-string blocks.
pub const TAG_STRING: u8 = 252;

/// Tag of boxed-number blocks.
pub const TAG_DOUBLE: u8 = 253;

/// Tag of custom blocks, used for finalized blocks owning a native value.
pub const TAG_CUSTOM: u8 = 255;

/// Whether a block with this tag is scanned: its payload words are values.
pub open spec fn tag_is_scanned(t: u8) -> bool {
    t < NO_SCAN_TAG
}

/// Executable form of the scan threshold test.
pub fn is_scanned_tag(t: u8) -> (r: bool)
    ensures
        r == tag_is_scanned(t),
{
    t < NO_SCAN_TAG
}

} // verus!
