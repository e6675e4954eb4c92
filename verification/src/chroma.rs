//! Transparency for images on a magenta ground.
use vstd::prelude::*;

use crate::pixels::{border_connected, Pixels};
#[allow(unused_imports)]
use crate::pixels::{area, is_image, reached, PixelsView};
#[allow(unused_imports)]
use crate::keying::channel;
use crate::text::{cat, trim_end};
#[allow(unused_imports)]
use crate::text::trimmed_end;

verus! {

/// The colour of the ground.
pub const CHROMA_KEY_HEX: &'static str = "#FF00FF";

/// The square of the distance up to which a colour belongs to the ground.
pub const OUTER_DISTANCE_SQUARED: u32 = 12_100;

/// What a prompt is told about the ground.
pub const CHROMA_KEY_REQUIREMENTS: &'static str = "\n\nTransparency preparation requirements:\n- Render the requested foreground subject isolated against a perfectly flat,\n  uniform chroma-key background of exact RGB #FF00FF.\n- Fill the entire background with only #FF00FF.\n- Do not add scenery, gradients, texture, shadows, reflections, glow, or color\n  spill to the background.\n- Keep the complete foreground subject inside the frame and separated from\n  every image edge.";

/// A prompt for an image on a magenta ground.
pub fn prompt_for_chroma_key(prompt: &str) -> (out: String)
    ensures
        out@ == trimmed_end(prompt@) + CHROMA_KEY_REQUIREMENTS@,
{
    cat(trim_end(prompt).as_str(), CHROMA_KEY_REQUIREMENTS)
}

/// The square of a number.
pub open spec fn square(n: int) -> int {
    n * n
}

/// The square of the distance of a pixel's colour from magenta.
pub open spec fn distance_squared(image: PixelsView, at: int) -> int {
    square(255 - channel(image, at, 0)) + square(channel(image, at, 1) as int) + square(
        255 - channel(image, at, 2),
    )
}

/// The pixels whose colour belongs to the ground.
pub open spec fn chroma_candidates(image: PixelsView) -> Seq<bool> {
    Seq::new(area(image), |at: int| distance_squared(image, at) <= OUTER_DISTANCE_SQUARED)
}

fn squared(n: u8) -> (out: u32)
    ensures
        out == square(n as int),
        out <= 65025,
{
    assert(n * n <= 65025) by (nonlinear_arith)
        requires
            n <= 255,
    ;
    n as u32 * n as u32
}

/// The square of the distance of a colour from magenta.
pub fn chroma_distance_squared(red: u8, green: u8, blue: u8) -> (distance: u32)
    ensures
        distance == square(255 - red) + square(green as int) + square(255 - blue),
{
    squared(255 - red) + squared(green) + squared(255 - blue)
}

/// The pixels that are ground: they have its colour, and so has a way from them to
/// the edge of the image.
pub fn removable_pixels(image: &Pixels) -> (mask: Vec<bool>)
    requires
        is_image(image@),
    ensures
        mask@.len() == area(image@),
        forall|at: int|
            0 <= at < mask@.len() ==> (#[trigger] mask@[at] <==> reached(
                image@.0 as nat,
                image@.1 as nat,
                chroma_candidates(image@),
                at,
            )),
{
    let length: usize = image.data.len();
    let count: usize = length / 4;
    assert(count == area(image@));
    let mut marked: Vec<bool> = Vec::new();
    for at in 0..count
        invariant
            is_image(image@),
            count == area(image@),
            length == image.data@.len(),
            marked@.len() == at,
            forall|k: int|
                0 <= k < at ==> #[trigger] marked@[k] == (distance_squared(image@, k)
                    <= OUTER_DISTANCE_SQUARED),
    {
        let distance = chroma_distance_squared(
            image.data[4 * at],
            image.data[4 * at + 1],
            image.data[4 * at + 2],
        );
        marked.push(distance <= OUTER_DISTANCE_SQUARED);
    }
    assert(marked@ =~= chroma_candidates(image@));
    assert(marked@.len() == image.width as usize * image.height as usize);
    border_connected(image.width as usize, image.height as usize, &marked)
}

/// A byte of an image with another ground: `fresh` where the pixel is ground, and
/// as it was where it is not.
pub open spec fn chroma_byte(image: PixelsView, fresh: Seq<u8>, k: int) -> u8 {
    if reached(image.0 as nat, image.1 as nat, chroma_candidates(image), k / 4) {
        fresh[k]
    } else {
        image.2[k]
    }
}

/// An image with another ground.
pub open spec fn chroma_keyed(image: PixelsView, fresh: Seq<u8>) -> PixelsView {
    (image.0, image.1, Seq::new(image.2.len(), |k: int| chroma_byte(image, fresh, k)))
}

/// Puts the pixels of `fresh` in place of those of the magenta ground.
pub fn replace_chroma_ground(image: &Pixels, fresh: &Vec<u8>) -> (out: Pixels)
    requires
        is_image(image@),
        fresh@.len() == image@.2.len(),
    ensures
        out@ == chroma_keyed(image@, fresh@),
        is_image(out@),
{
    let mask = removable_pixels(image);
    let length: usize = image.data.len();
    let mut data: Vec<u8> = Vec::new();
    for k in 0..length
        invariant
            is_image(image@),
            length == image.data@.len(),
            fresh@.len() == length,
            mask@.len() == area(image@),
            forall|at: int|
                0 <= at < mask@.len() ==> (#[trigger] mask@[at] <==> reached(
                    image@.0 as nat,
                    image@.1 as nat,
                    chroma_candidates(image@),
                    at,
                )),
            data@.len() == k,
            forall|j: int| 0 <= j < k ==> #[trigger] data@[j] == chroma_byte(image@, fresh@, j),
    {
        data.push(
            if mask[k / 4] {
                fresh[k]
            } else {
                image.data[k]
            },
        );
    }
    let out = Pixels { width: image.width, height: image.height, data };
    assert(out.data@ =~= chroma_keyed(image@, fresh@).2);
    out
}

} // verus!
