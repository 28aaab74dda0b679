//! Entities, known to this crate by the bits that stand for them.

use vstd::prelude::*;

use crate::text::decimal;

verus! {

/// The bits stand for an entity. The low half holds its index, inverted, and
/// is never zero; the high half holds its generation.
pub open spec fn is_entity(bits: u64) -> bool {
    bits as int % 0x1_0000_0000 != 0
}

/// How an entity is shown: its index and its generation, or the word for the
/// entity that stands in where none is known yet.
pub open spec fn entity_text(bits: u64) -> Seq<char> {
    if bits == 1 {
        "PLACEHOLDER"@
    } else {
        decimal((0xffff_ffff - bits as int % 0x1_0000_0000) as nat) + "v"@ + decimal(
            (bits as int / 0x1_0000_0000) as nat,
        )
    }
}

/// Shows an entity.
///
/// `bevy::prelude::Entity::from_bits`, which panics on a low half of zero, and
/// `std::fmt::Debug` of that type: the index, the letter `v` and the
/// generation, but for the placeholder.
#[verifier::external_body]
pub(crate) fn entity_label(bits: u64) -> (r: String)
    requires
        is_entity(bits),
    ensures
        r@ == entity_text(bits),
{
    format!("{:?}", bevy::prelude::Entity::from_bits(bits))
}

} // verus!
