//! Where a notification stands on the screen and whether its message can be
//! followed as a link.

use vstd::prelude::*;
use crate::text::chars_of;

verus! {

/// The height of a notification.
pub const HEIGHT: i32 = 30;

/// What a notification is wider than its text.
pub const MARGIN: i32 = 10;

/// The room between a notification and the edges of the screen.
pub const PADDING: i32 = 20;

/// The size and the place of a notification.
#[derive(Clone, Copy, Debug, PartialEq, Eq)]
pub struct Placement {
    pub width: i32,
    pub height: i32,
    pub x: i32,
    pub y: i32,
}

/// The placement of a notification whose text is `label` wide on a screen of
/// the size given: a little wider than its text, in the lower right corner,
/// with room to the edges.
pub open spec fn placed(screen_width: int, screen_height: int, label: int) -> (int, int, int, int) {
    (label + MARGIN, HEIGHT as int, screen_width - label - PADDING, screen_height - HEIGHT - PADDING)
}

/// Every number of the placement fits the machine's word.
pub open spec fn placeable(screen_width: int, screen_height: int, label: int) -> bool {
    let p = placed(screen_width, screen_height, label);
    i32::MIN <= p.0 <= i32::MAX && i32::MIN <= p.2 <= i32::MAX && i32::MIN <= p.3 <= i32::MAX
}

/// Places a notification. `None` where a number of the placement does not fit
/// the machine's word.
pub fn place(screen_width: i32, screen_height: i32, label: i32) -> (placement: Option<Placement>)
    ensures
        placement is Some <==> placeable(screen_width as int, screen_height as int, label as int),
        placement is Some ==> (
            placement->0.width as int,
            placement->0.height as int,
            placement->0.x as int,
            placement->0.y as int,
        ) == placed(screen_width as int, screen_height as int, label as int),
{
    let width: i64 = label as i64 + MARGIN as i64;
    let x: i64 = screen_width as i64 - label as i64 - PADDING as i64;
    let y: i64 = screen_height as i64 - HEIGHT as i64 - PADDING as i64;
    if fits_word(width) && fits_word(x) && fits_word(y) {
        Some(Placement { width: width as i32, height: HEIGHT, x: x as i32, y: y as i32 })
    } else {
        None
    }
}

fn fits_word(n: i64) -> (fits: bool)
    ensures
        fits == (i32::MIN <= n <= i32::MAX),
{
    -2147483648 <= n && n <= 2147483647
}

/// `prefix` stands at the beginning of `s`.
pub open spec fn starts_with(s: Seq<char>, prefix: Seq<char>) -> bool {
    prefix.len() <= s.len() && s.subrange(0, prefix.len() as int) == prefix
}

/// A message that can be followed as a link: it begins with `http://` or with
/// `https://`.
pub open spec fn link(message: Seq<char>) -> bool {
    starts_with(message, "http://"@) || starts_with(message, "https://"@)
}

fn begins(s: &Vec<char>, prefix: &str) -> (b: bool)
    ensures
        b == starts_with(s@, prefix@),
{
    let p = chars_of(prefix);
    if p.len() > s.len() {
        return false;
    }
    let mut k: usize = 0;
    while k < p.len()
        invariant
            k <= p.len() <= s.len(),
            p@ == prefix@,
            s@.subrange(0, k as int) == p@.subrange(0, k as int),
        decreases p.len() - k,
    {
        if s[k] != p[k] {
            assert(s@.subrange(0, p.len() as int)[k as int] != p@[k as int]);
            return false;
        }
        assert(s@.subrange(0, k + 1) == s@.subrange(0, k as int).push(s@[k as int]));
        assert(p@.subrange(0, k + 1) == p@.subrange(0, k as int).push(p@[k as int]));
        k += 1;
    }
    assert(p@.subrange(0, p.len() as int) == p@);
    true
}

/// Whether a message can be followed as a link.
pub fn is_link(message: &str) -> (b: bool)
    ensures
        b == link(message@),
{
    let chars = chars_of(message);
    begins(&chars, "http://") || begins(&chars, "https://")
}

} // verus!
