//! The preparation of an image for text recognition: dark text on a light
//! ground reads best, so an image that is mostly dark is inverted.

use vstd::prelude::*;

verus! {

/// The two colours that an image is told apart by.
#[derive(Clone, Copy, Debug, PartialEq, Eq)]
pub enum Colour {
    Black,
    White,
}

/// The luminance from which a pixel counts as light.
pub const THRESHOLD: u8 = 128;

/// The number of dark pixels among the first `n`.
pub open spec fn dark_count(luma: Seq<u8>, n: int) -> int
    decreases n,
{
    if n <= 0 {
        0
    } else if luma[n - 1] < THRESHOLD {
        dark_count(luma, n - 1) + 1
    } else {
        dark_count(luma, n - 1)
    }
}

/// The colour of most pixels: black where the dark pixels outnumber the light
/// ones, white otherwise.
pub open spec fn most_common(luma: Seq<u8>) -> Colour {
    if dark_count(luma, luma.len() as int) > luma.len() - dark_count(luma, luma.len() as int) {
        Colour::Black
    } else {
        Colour::White
    }
}

/// The dark pixels are no more than the pixels.
pub proof fn lemma_dark_count_bound(luma: Seq<u8>, n: int)
    requires
        0 <= n,
    ensures
        0 <= dark_count(luma, n) <= n,
    decreases n,
{
    if n > 0 {
        lemma_dark_count_bound(luma, n - 1);
    }
}

/// Finds whether an image of luminances is mostly dark or mostly light.
pub fn find_most_common_color(luma: &[u8]) -> (colour: Colour)
    ensures
        colour == most_common(luma@),
{
    let mut dark: usize = 0;
    let mut i: usize = 0;
    while i < luma.len()
        invariant
            i <= luma.len(),
            dark == dark_count(luma@, i as int),
            dark <= i,
        decreases luma.len() - i,
    {
        if luma[i] < THRESHOLD {
            dark += 1;
        }
        i += 1;
    }
    if dark > luma.len() - dark {
        Colour::Black
    } else {
        Colour::White
    }
}

/// The image with each luminance turned into its opposite.
pub open spec fn inverted(luma: Seq<u8>) -> Seq<u8> {
    Seq::new(luma.len(), |k: int| (255 - luma[k]) as u8)
}

/// Inverts an image of luminances in place.
pub fn invert_colors(luma: &mut Vec<u8>)
    ensures
        final(luma)@ == inverted(old(luma)@),
{
    let mut i: usize = 0;
    while i < luma.len()
        invariant
            i <= luma.len(),
            luma.len() == old(luma).len(),
            forall|k: int| 0 <= k < i ==> #[trigger] luma@[k] == inverted(old(luma)@)[k],
            forall|k: int| i <= k < luma.len() ==> #[trigger] luma@[k] == old(luma)@[k],
        decreases luma.len() - i,
    {
        let value: u8 = 255 - luma[i];
        luma.set(i, value);
        i += 1;
    }
    assert(luma@ =~= inverted(old(luma)@));
}

/// Prepares an image of luminances for recognition: a mostly dark image is
/// inverted, a mostly light one is left as it is.
pub fn prepare(luma: &mut Vec<u8>)
    ensures
        final(luma)@ == if most_common(old(luma)@) == Colour::Black {
            inverted(old(luma)@)
        } else {
            old(luma)@
        },
{
    match find_most_common_color(luma.as_slice()) {
        Colour::Black => invert_colors(luma),
        Colour::White => {},
    }
}

} // verus!
