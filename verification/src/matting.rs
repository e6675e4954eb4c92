//! Transparency for images that are cut out by a matte.
use vstd::prelude::*;

use crate::pixels::Pixels;
#[allow(unused_imports)]
use crate::pixels::{area, is_image, PixelsView};
use crate::text::{cat, trim_end};
#[allow(unused_imports)]
use crate::text::trimmed_end;

verus! {

/// The colour of the ground.
pub const MATTE_KEY_HEX: &'static str = "#FF00FF";

/// What a prompt is told about the ground.
pub const MATTE_REQUIREMENTS: &'static str = "\n\nTransparency preparation requirements:\n- Render the requested foreground subject isolated, entirely inside the frame, and separated from every image edge.\n- Use a perfectly flat, uniform RGB #FF00FF background.\n- Do not add scenery, gradients, texture, shadows, reflections, glow, or color spill to the background.";

/// A prompt for an image that is cut out by a matte.
pub fn prompt_for_foreground_matte(prompt: &str) -> (out: String)
    ensures
        out@ == trimmed_end(prompt@) + MATTE_REQUIREMENTS@,
{
    cat(trim_end(prompt).as_str(), MATTE_REQUIREMENTS)
}

/// The alpha up to which a pixel is wholly transparent.
pub const TRANSPARENT_ALPHA: u8 = 3;

/// A byte of an image that was cut out: what the matte leaves next to nothing of
/// is gone, what it leaves a part of has its own colour, and what it leaves whole
/// stays.
pub open spec fn matted_byte(image: PixelsView, alphas: Seq<u8>, colors: Seq<u8>, k: int) -> u8 {
    let alpha = alphas[k / 4];
    if alpha <= TRANSPARENT_ALPHA {
        0
    } else if k % 4 == 3 {
        alpha
    } else if alpha < 255 {
        colors[k]
    } else {
        image.2[k]
    }
}

/// An image that was cut out.
pub open spec fn matted(image: PixelsView, alphas: Seq<u8>, colors: Seq<u8>) -> PixelsView {
    (image.0, image.1, Seq::new(image.2.len(), |k: int| matted_byte(image, alphas, colors, k)))
}

/// Cuts an image out: `alphas` says how much is left of each pixel, and `colors`
/// holds the pixels without the ground that shines through them.
pub fn apply_matte(image: &Pixels, alphas: &Vec<u8>, colors: &Vec<u8>) -> (out: Pixels)
    requires
        is_image(image@),
        alphas@.len() == area(image@),
        colors@.len() == image@.2.len(),
    ensures
        out@ == matted(image@, alphas@, colors@),
        is_image(out@),
{
    let length: usize = image.data.len();
    let mut data: Vec<u8> = Vec::new();
    for k in 0..length
        invariant
            is_image(image@),
            length == image.data@.len(),
            alphas@.len() == area(image@),
            colors@.len() == length,
            data@.len() == k,
            forall|j: int|
                0 <= j < k ==> #[trigger] data@[j] == matted_byte(image@, alphas@, colors@, j),
    {
        let alpha: u8 = alphas[k / 4];
        data.push(
            if alpha <= TRANSPARENT_ALPHA {
                0
            } else if k % 4 == 3 {
                alpha
            } else if alpha < 255 {
                colors[k]
            } else {
                image.data[k]
            },
        );
    }
    let out = Pixels { width: image.width, height: image.height, data };
    assert(out.data@ =~= matted(image@, alphas@, colors@).2);
    out
}

} // verus!
