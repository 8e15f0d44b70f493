//! Identifiers of handlers, plugins, functions and invocations.
//!
//! Each identifier is a version-4 UUID, held as its 128-bit big-endian value.
use vstd::prelude::*;

verus! {

/// The bits that fix the version (4) and the variant (RFC 9562) of a UUID.
pub open spec fn v4_mask() -> u128 {
    0xF000_C000_0000_0000_0000u128
}

/// The values of the version and variant bits of every random UUID.
pub open spec fn v4_bits() -> u128 {
    0x4000_8000_0000_0000_0000u128
}

/// Draws a random UUID with `uuid::Uuid::new_v4` and returns its 128-bit
/// value (`Uuid::as_u128`).
///
/// Trusted: the random bits are not stated, only that the version nibble
/// reads 4 and the two variant bits read `10`, which `new_v4` sets on every
/// outcome. `new_v4` panics when the operating system's random source fails;
/// no precondition can exclude that.
#[verifier::external_body]
fn random_uuid() -> (r: u128)
    ensures
        r & v4_mask() == v4_bits(),
{
    uuid::Uuid::new_v4().as_u128()
}

/// The `k`-th spare id: a version-4 id whose free bits spell `k` (the low
/// 62 bits of `k` in bits 0..62, its top two bits in bits 64..66).
pub open spec fn spare_id(k: u64) -> u128 {
    0x4000_8000_0000_0000_0000u128 | ((k as u128) & 0x3FFF_FFFF_FFFF_FFFFu128) | (((k as u128)
        >> 62u32) << 64u32)
}

/// Every spare id is a version-4 id.
pub proof fn lemma_spare_id_is_v4(k: u64)
    ensures
        spare_id(k) & v4_mask() == v4_bits(),
{
    assert((0x4000_8000_0000_0000_0000u128 | ((k as u128) & 0x3FFF_FFFF_FFFF_FFFFu128) | (((
    k as u128) >> 62u32) << 64u32)) & 0xF000_C000_0000_0000_0000u128 == 0x4000_8000_0000_0000_0000u128)
        by (bit_vector);
}

/// Different numbers give different spare ids.
pub proof fn lemma_spare_id_injective(a: u64, b: u64)
    ensures
        spare_id(a) == spare_id(b) ==> a == b,
{
    assert((0x4000_8000_0000_0000_0000u128 | ((a as u128) & 0x3FFF_FFFF_FFFF_FFFFu128) | (((
    a as u128) >> 62u32) << 64u32)) == (0x4000_8000_0000_0000_0000u128 | ((b as u128)
        & 0x3FFF_FFFF_FFFF_FFFFu128) | (((b as u128) >> 62u32) << 64u32)) ==> a == b)
        by (bit_vector);
}

/// A list of `n` ids cannot hold all of the spare ids `0..=n`.
proof fn lemma_spare_ids_outnumber(used: Seq<u128>)
    requires
        used.len() <= u64::MAX,
    ensures
        exists|j: u64| j <= used.len() && !used.contains(#[trigger] spare_id(j)),
{
    broadcast use vstd::seq_lib::seq_to_set_is_finite;

    if forall|j: u64| j <= used.len() ==> used.contains(#[trigger] spare_id(j)) {
        let n = used.len();
        let spares = Seq::new(n + 1, |j: int| spare_id(j as u64));
        assert forall|a: int, b: int|
            0 <= a < spares.len() && 0 <= b < spares.len() && a != b implies spares[a]
            != spares[b] by {
            lemma_spare_id_injective(a as u64, b as u64);
        }
        assert(spares.no_duplicates());
        spares.unique_seq_to_set();
        assert forall|x: u128| spares.to_set().contains(x) implies used.to_set().contains(x) by {
            let j = choose|j: int| 0 <= j < spares.len() && spares[j] == x;
            assert(used.contains(spare_id(j as u64)));
        }
        vstd::set_lib::lemma_len_subset(spares.to_set(), used.to_set());
        used.lemma_cardinality_of_set();
    }
}

/// The spare id number `k`.
fn spare(k: u64) -> (r: u128)
    ensures
        r == spare_id(k),
{
    0x4000_8000_0000_0000_0000u128 | ((k as u128) & 0x3FFF_FFFF_FFFF_FFFFu128) | (((k as u128)
        >> 62u32) << 64u32)
}

/// Whether `ids` holds `id`.
fn holds(ids: &Vec<u128>, id: u128) -> (r: bool)
    ensures
        r == ids@.contains(id),
{
    let mut i: usize = 0;
    while i < ids.len()
        invariant
            i <= ids@.len(),
            forall|j: int| 0 <= j < i ==> ids@[j] != id,
        decreases ids@.len() - i,
    {
        if ids[i] == id {
            return true;
        }
        i = i + 1;
    }
    false
}

/// A version-4 id that `used` does not hold: a random one, or, in the rare
/// case that the random one is taken, the first spare id that is free.
pub fn fresh_id(used: &Vec<u128>) -> (r: u128)
    ensures
        !used@.contains(r),
        r & v4_mask() == v4_bits(),
{
    let drawn = random_uuid();
    if !holds(used, drawn) {
        return drawn;
    }
    let n = used.len();
    let mut k: usize = 0;
    loop
        invariant
            n == used@.len(),
            k <= n,
            forall|j: u64| j < k ==> used@.contains(#[trigger] spare_id(j)),
        decreases n - k,
    {
        let candidate = spare(k as u64);
        if !holds(used, candidate) {
            proof {
                lemma_spare_id_is_v4(k as u64);
            }
            return candidate;
        }
        if k == n {
            proof {
                assert forall|j: u64| j <= used@.len() implies used@.contains(#[trigger] spare_id(j)) by {
                    if j == k as u64 {
                    }
                }
                lemma_spare_ids_outnumber(used@);
                let j = choose|j: u64| j <= used@.len() && !used@.contains(#[trigger] spare_id(j));
                assert(j < k as u64 || j == k as u64);
            }
        }
        k = k + 1;
    }
}

/// Identifies one registered event listener.
#[derive(Debug, Clone, Copy, PartialEq, Eq, Hash, Structural)]
pub struct HandlerId(pub u128);

/// Identifies a plugin.
#[derive(Debug, Clone, Copy, PartialEq, Eq, Hash, Structural)]
pub struct PluginId(pub u128);

/// Identifies a function that a plugin offers.
#[derive(Debug, Clone, Copy, PartialEq, Eq, Hash, Structural)]
pub struct FunctionId(pub u128);

/// Identifies one request that waits for its response.
#[derive(Debug, Clone, Copy, PartialEq, Eq, Hash, Structural)]
pub struct InvocationId(pub u128);

impl HandlerId {
    /// A new random handler id.
    pub fn gen() -> (r: HandlerId)
        ensures
            r.0 & v4_mask() == v4_bits(),
    {
        HandlerId(random_uuid())
    }
}

impl FunctionId {
    /// A new random function id.
    pub fn gen() -> (r: FunctionId)
        ensures
            r.0 & v4_mask() == v4_bits(),
    {
        FunctionId(random_uuid())
    }
}

impl InvocationId {
    /// A new random invocation id.
    pub fn gen() -> (r: InvocationId)
        ensures
            r.0 & v4_mask() == v4_bits(),
    {
        InvocationId(random_uuid())
    }
}

} // verus!
