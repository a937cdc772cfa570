//! The token that ties a readiness event to the descriptor it is about.

use vstd::prelude::*;

verus! {

/// The token under which a descriptor is registered with the notification
/// context: the descriptor, widened to 64 bits.
pub open spec fn token_of(descriptor: i32) -> u64 {
    descriptor as u64
}

/// The descriptor that a token names: its low 32 bits.
pub open spec fn descriptor_of(token: u64) -> i32 {
    token as i32
}

/// Computes the token under which `descriptor` is registered.
pub fn token_for(descriptor: i32) -> (token: u64)
    ensures
        token == token_of(descriptor),
{
    #[verifier::truncate]
    (descriptor as u64)
}

/// Recovers the descriptor from the token of a readiness event.
pub fn descriptor_for(token: u64) -> (descriptor: i32)
    ensures
        descriptor == descriptor_of(token),
{
    #[verifier::truncate]
    (token as i32)
}

/// A token names the descriptor it was made for.
pub proof fn lemma_token_round_trip(descriptor: i32)
    ensures
        descriptor_of(token_of(descriptor)) == descriptor,
{
    assert((descriptor as u64) as i32 == descriptor) by (bit_vector);
}

/// The token of a descriptor that is not negative is the descriptor itself.
pub proof fn lemma_token_of_valid_descriptor(descriptor: i32)
    requires
        descriptor >= 0,
    ensures
        token_of(descriptor) == descriptor,
{
    assert(descriptor >= 0 ==> (descriptor as u64) == descriptor) by (bit_vector);
}

/// A token below 2^31 names the descriptor of the same value, and no token
/// names more than its low 32 bits say.
pub proof fn lemma_descriptor_of_token(token: u64)
    ensures
        token < 0x8000_0000 ==> descriptor_of(token) == token,
        descriptor_of(token) == descriptor_of(token & 0xffff_ffff),
        descriptor_of(token) >= 0 ==> descriptor_of(token) == token & 0xffff_ffff,
{
    assert(token < 0x8000_0000 ==> (token as i32) == token) by (bit_vector);
    assert((token as i32) == ((token & 0xffff_ffff) as i32)) by (bit_vector);
    assert((token as i32) >= 0 ==> (token as i32) == token & 0xffff_ffff) by (bit_vector);
}

} // verus!
