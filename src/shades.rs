//! Painting alternating shades: the step each painter takes under the lock.

use vstd::prelude::*;

verus! {

#[derive(Debug, Clone, Copy, PartialEq, Eq)]
pub enum Shade {
    Black,
    White,
}

/// The shade that follows the last one painted: black first, then
/// alternating.
pub open spec fn next_shade(painted: Seq<Shade>) -> Shade {
    if painted.len() == 0 {
        Shade::Black
    } else {
        match painted.last() {
            Shade::Black => Shade::White,
            Shade::White => Shade::Black,
        }
    }
}

/// Paints the next shade; the painting is done once it holds more than five.
pub fn paint_step(shades: &mut Vec<Shade>) -> (done: bool)
    requires
        old(shades)@.len() < usize::MAX,
    ensures
        final(shades)@ == old(shades)@.push(next_shade(old(shades)@)),
        done == (final(shades)@.len() > 5),
{
    let n = shades.len();
    if n > 0 {
        match shades[n - 1] {
            Shade::Black => shades.push(Shade::White),
            Shade::White => shades.push(Shade::Black),
        }
    } else {
        shades.push(Shade::Black)
    }
    shades.len() > 5
}

} // verus!
