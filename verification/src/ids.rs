//! Identifiers of layers, filters and masks.

use vstd::prelude::*;

verus! {

/// Identifier of a layer, a live filter or a mask (a UUID as an integer).
pub type LayerId = u128;

/// Bits of a UUID that hold its version and variant.
pub const UUID_FORMAT_BITS: u128 = 0xF000_C000_0000_0000_0000;

/// Version (4, random) and variant (RFC 4122) bits of a version-4 UUID.
pub const UUID_V4_FORMAT: u128 = 0x4000_8000_0000_0000_0000;

/// `uuid::Uuid::new_v4` as an integer (`as_u128`): a random identifier.
/// Its source masks random bits and sets the version-4 and RFC 4122
/// variant bits, which is all this contract states; which identifier
/// comes out is left unsaid (it is random).
#[verifier::external_body]
pub(crate) fn fresh_id() -> (id: LayerId)
    ensures
        id & UUID_FORMAT_BITS == UUID_V4_FORMAT,
{
    uuid::Uuid::new_v4().as_u128()
}


/// Position of the first occurrence of `id` in `ids`.
pub open spec fn first_index(ids: Seq<LayerId>, id: LayerId) -> Option<int>
    decreases ids.len(),
{
    if ids.len() == 0 {
        None
    } else if ids[0] == id {
        Some(0)
    } else {
        match first_index(ids.drop_first(), id) {
            Some(i) => Some(i + 1),
            None => None,
        }
    }
}

/// `first_index` finds the first occurrence, or tells that there is none.
pub proof fn lemma_first_index(ids: Seq<LayerId>, id: LayerId)
    ensures
        match first_index(ids, id) {
            Some(i) => 0 <= i < ids.len() && ids[i] == id && forall|j: int|
                0 <= j < i ==> #[trigger] ids[j] != id,
            None => forall|j: int| 0 <= j < ids.len() ==> #[trigger] ids[j] != id,
        },
    decreases ids.len(),
{
    if ids.len() > 0 {
        lemma_first_index(ids.drop_first(), id);
        assert forall|j: int| 1 <= j < ids.len() implies #[trigger] ids[j] == ids.drop_first()[j
            - 1] by {}
    }
}

} // verus!
