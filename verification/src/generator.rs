//! The xorshift32 generator: one 32-bit state word, stepped by shifts and
//! exclusive-ors.

use vstd::prelude::*;

verus! {

/// The state every new surface starts from.
pub const SEED: u32 = 0x1234_abcd;

/// One step of xorshift32 with the shift triple (13, 17, 5).
pub open spec fn spec_xorshift32(x: u32) -> u32 {
    let a = x ^ (x << 13u32);
    let b = a ^ (a >> 17u32);
    b ^ (b << 5u32)
}

/// The state reached from `state` after `steps` steps.
pub open spec fn state_after(state: u32, steps: nat) -> u32
    decreases steps,
{
    if steps == 0 {
        state
    } else {
        spec_xorshift32(state_after(state, (steps - 1) as nat))
    }
}

/// The byte a state word contributes to a pixel: its low eight bits.
pub open spec fn spec_low_byte(x: u32) -> u8 {
    (x & 0xff) as u8
}

/// Advances a state word by one step.
#[verifier::when_used_as_spec(spec_xorshift32)]
pub fn xorshift32(x: u32) -> (r: u32)
    ensures
        r == spec_xorshift32(x),
{
    let mut x: u32 = x;
    x ^= x << 13;
    x ^= x >> 17;
    x ^= x << 5;
    x
}

/// The low eight bits of a state word.
#[verifier::when_used_as_spec(spec_low_byte)]
pub fn low_byte(x: u32) -> (r: u8)
    ensures
        r == spec_low_byte(x),
{
    assert(x & 0xff < 256) by (bit_vector);
    (x & 0xff) as u8
}

/// A step never turns a non-zero state into zero.
pub proof fn lemma_step_keeps_nonzero(x: u32)
    requires
        x != 0,
    ensures
        spec_xorshift32(x) != 0,
{
    let a = x ^ (x << 13u32);
    let b = a ^ (a >> 17u32);
    assert(a != 0) by (bit_vector)
        requires
            x != 0,
            a == x ^ (x << 13u32),
    ;
    assert(b != 0) by (bit_vector)
        requires
            a != 0,
            b == a ^ (a >> 17u32),
    ;
    assert(b ^ (b << 5u32) != 0) by (bit_vector)
        requires
            b != 0,
    ;
}

/// A step always moves a non-zero state: zero is the only fixed point.
pub proof fn lemma_step_moves_nonzero(x: u32)
    requires
        x != 0,
    ensures
        spec_xorshift32(x) != x,
{
    assert(x != 0 ==> spec_xorshift32(x) != x) by (bit_vector);
}

/// Zero is a fixed point of the step.
pub proof fn lemma_step_fixes_zero()
    ensures
        spec_xorshift32(0) == 0,
{
    assert(spec_xorshift32(0) == 0) by (bit_vector);
}

/// Two states with the same successor are the same state: the step is
/// one-to-one on the 32-bit words.
pub proof fn lemma_step_injective(x: u32, y: u32)
    requires
        spec_xorshift32(x) == spec_xorshift32(y),
    ensures
        x == y,
{
    let ax = x ^ (x << 13u32);
    let ay = y ^ (y << 13u32);
    let bx = ax ^ (ax >> 17u32);
    let by = ay ^ (ay >> 17u32);
    assert(bx == by) by (bit_vector)
        requires
            bx ^ (bx << 5u32) == by ^ (by << 5u32),
    ;
    assert(ax == ay) by (bit_vector)
        requires
            ax ^ (ax >> 17u32) == ay ^ (ay >> 17u32),
    ;
    assert(x == y) by (bit_vector)
        requires
            x ^ (x << 13u32) == y ^ (y << 13u32),
    ;
}

/// Starting from a non-zero state, no number of steps reaches zero.
pub proof fn lemma_zero_unreachable(state: u32, steps: nat)
    requires
        state != 0,
    ensures
        state_after(state, steps) != 0,
    decreases steps,
{
    if steps > 0 {
        lemma_zero_unreachable(state, (steps - 1) as nat);
        lemma_step_keeps_nonzero(state_after(state, (steps - 1) as nat));
    }
}

/// Starting from zero, every step yields zero again.
pub proof fn lemma_zero_absorbing(steps: nat)
    ensures
        state_after(0, steps) == 0,
    decreases steps,
{
    if steps > 0 {
        lemma_zero_absorbing((steps - 1) as nat);
        lemma_step_fixes_zero();
    }
}

/// Running `first` steps and then `then` more is running `first + then`
/// steps.
pub proof fn lemma_state_after_add(state: u32, first: nat, then: nat)
    ensures
        state_after(state_after(state, first), then) == state_after(state, first + then),
    decreases then,
{
    if then > 0 {
        lemma_state_after_add(state, first, (then - 1) as nat);
        assert((first + then - 1) as nat == first + (then - 1) as nat);
    }
}

/// Two states that meet after the same number of steps were the same state
/// to begin with.
pub proof fn lemma_state_after_injective(x: u32, y: u32, steps: nat)
    requires
        state_after(x, steps) == state_after(y, steps),
    ensures
        x == y,
    decreases steps,
{
    if steps > 0 {
        lemma_step_injective(
            state_after(x, (steps - 1) as nat),
            state_after(y, (steps - 1) as nat),
        );
        lemma_state_after_injective(x, y, (steps - 1) as nat);
    }
}

} // verus!
