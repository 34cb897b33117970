use rand::Rng;
use rand::rngs::StdRng;
use vstd::prelude::*;

verus! {

#[verifier::external_type_specification]
#[verifier::external_body]
pub struct ExStdRng(StdRng);

/// A stream of coin flips that decides the direction of each parity adjustment.
///
/// Nothing is assumed of the values it yields: every contract that depends on
/// them holds whatever they are.
pub trait RandomBit {
    fn next_bit(&mut self) -> bool;
}

/// Relies on rand's `Rng::gen::<bool>` for `StdRng`: one uniformly drawn bit,
/// of which nothing is stated.
#[verifier::external_body]
fn draw_bit(rng: &mut StdRng) -> bool {
    rng.gen::<bool>()
}

impl RandomBit for StdRng {
    fn next_bit(&mut self) -> bool {
        draw_bit(self)
    }
}

/// Whether the value `x` is odd, which is how a channel carries a one bit.
pub open spec fn is_odd(x: u8) -> bool {
    x % 2 == 1
}

/// The value a channel holding `old` takes so that its parity carries `value`,
/// where `up` is the coin that decides the direction when both are legal.
pub open spec fn adjusted(old: u8, value: bool, up: bool) -> u8 {
    if is_odd(old) == value {
        old
    } else if old == 0 {
        1
    } else if old == 255 {
        254
    } else if up {
        (old + 1) as u8
    } else {
        (old - 1) as u8
    }
}

/// `new` is a legal outcome of adjusting `old` to carry `value`: unchanged when
/// the parity already matches, forced up from 0 and down from 255, and one step
/// in either direction elsewhere.
pub open spec fn parity_fixed(old: u8, value: bool, new: u8) -> bool {
    if is_odd(old) == value {
        new == old
    } else if old == 0 {
        new == 1
    } else if old == 255 {
        new == 254
    } else {
        new as int == old + 1 || new as int == old - 1
    }
}

/// Adjusts `source` to carry `value` in its parity, moving up when `up` holds
/// and the value is not at either end of the range.
pub fn adjust(source: u8, value: bool, up: bool) -> (r: u8)
    ensures
        r == adjusted(source, value, up),
        parity_fixed(source, value, r),
        is_odd(r) == value,
{
    if value {
        if source % 2 == 0 {
            if source == 0 {
                1
            } else if up {
                source + 1
            } else {
                source - 1
            }
        } else {
            source
        }
    } else {
        if source % 2 == 1 {
            if source == 255 {
                254
            } else if up {
                source + 1
            } else {
                source - 1
            }
        } else {
            source
        }
    }
}

/// Whether adjusting `old` to carry `value` has two legal directions, so that
/// a coin must decide.
pub open spec fn needs_coin(old: u8, value: bool) -> bool {
    is_odd(old) != value && old != 0 && old != 255
}

/// Sets the parity of `*source` to `value`, drawing a direction from `rng` only
/// when the value must move and both directions stay in range. Returns the
/// coin it drew, if any: up when it came up true.
pub fn fix_u8<R: RandomBit>(source: &mut u8, value: bool, rng: &mut R) -> (coin: Option<bool>)
    ensures
        coin is Some <==> needs_coin(*old(source), value),
        *final(source) == adjusted(*old(source), value, coin.unwrap_or(false)),
        !needs_coin(*old(source), value) ==> *final(rng) == *old(rng),
        parity_fixed(*old(source), value, *final(source)),
        is_odd(*final(source)) == value,
{
    let s = *source;
    let coin = if is_odd_exec(s) != value && s != 0 && s != 255 {
        Some(rng.next_bit())
    } else {
        None
    };
    let up = match coin {
        Some(c) => c,
        None => false,
    };
    *source = adjust(s, value, up);
    coin
}

fn is_odd_exec(x: u8) -> (r: bool)
    ensures
        r == is_odd(x),
{
    x % 2 == 1
}

} // verus!
