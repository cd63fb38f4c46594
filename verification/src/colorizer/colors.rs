//! The editor's palette.
use vstd::prelude::*;
use crate::colorizer::Rgb;

verus! {

/// Motion blocks: moving, turning, digging.
#[verifier::allow_in_spec]
pub fn motion() -> Rgb
    returns
        (Rgb { r: 76, g: 151, b: 255 }),
{
    Rgb { r: 76, g: 151, b: 255 }
}

/// Looks blocks: printing.
#[verifier::allow_in_spec]
pub fn looks() -> Rgb
    returns
        (Rgb { r: 153, g: 102, b: 255 }),
{
    Rgb { r: 153, g: 102, b: 255 }
}

/// Event blocks: sending and receiving.
#[verifier::allow_in_spec]
pub fn event() -> Rgb
    returns
        (Rgb { r: 255, g: 94, b: 162 }),
{
    Rgb { r: 255, g: 94, b: 162 }
}

/// Control blocks: sleeping, conditions and loops.
#[verifier::allow_in_spec]
pub fn control() -> Rgb
    returns
        (Rgb { r: 255, g: 171, b: 25 }),
{
    Rgb { r: 255, g: 171, b: 25 }
}

/// Variable blocks: assignments.
#[verifier::allow_in_spec]
pub fn variables() -> Rgb
    returns
        (Rgb { r: 255, g: 140, b: 0 }),
{
    Rgb { r: 255, g: 140, b: 0 }
}

/// Expression blocks in the palette.
#[verifier::allow_in_spec]
pub fn operators() -> Rgb
    returns
        (Rgb { r: 89, g: 192, b: 89 }),
{
    Rgb { r: 89, g: 192, b: 89 }
}

/// The background of an expression slot.
#[verifier::allow_in_spec]
pub fn slot_bg() -> Rgb
    returns
        (Rgb { r: 35, g: 40, b: 50 }),
{
    Rgb { r: 35, g: 40, b: 50 }
}

/// The border of an expression slot.
#[verifier::allow_in_spec]
pub fn slot_border() -> Rgb
    returns
        (Rgb { r: 20, g: 25, b: 30 }),
{
    Rgb { r: 20, g: 25, b: 30 }
}

/// Text on blocks.
#[verifier::allow_in_spec]
pub fn text_white() -> Rgb
    returns
        (Rgb { r: 255, g: 255, b: 255 }),
{
    Rgb { r: 255, g: 255, b: 255 }
}

} // verus!
