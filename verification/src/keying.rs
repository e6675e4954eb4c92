//! Transparency for images on a white ground.
use vstd::prelude::*;

use crate::error::Error;
#[allow(unused_imports)]
use crate::error::ErrorView;
use crate::pixels::{border_connected, read_image, touches_background, write_png, Pixels};
#[allow(unused_imports)]
use crate::pixels::{area, image_in, is_image, png_of, reached, touches, PixelsView};
use crate::text::{cat, trim_end};
#[allow(unused_imports)]
use crate::text::trimmed_end;

verus! {

/// The colour of the ground.
pub const WHITE_KEY_HEX: &'static str = "#FFFFFF";

/// How far a channel may be from white on the ground.
pub const KEY_DISTANCE: u8 = 8;

/// What a prompt is told about the ground.
pub const WHITE_KEY_REQUIREMENTS: &'static str = "\n\nTransparency preparation requirements:\n- Render the requested character or sprite isolated, entirely inside the frame, and separated from every image edge.\n- Use a perfectly flat, uniform RGB #FFFFFF background.\n- Do not add scenery, gradients, texture, shadows, reflections, glow, or color spill to the background.";

/// A prompt for an image on a white ground.
pub fn prompt_for_white_key(prompt: &str) -> (out: String)
    ensures
        out@ == trimmed_end(prompt@) + WHITE_KEY_REQUIREMENTS@,
{
    cat(trim_end(prompt).as_str(), WHITE_KEY_REQUIREMENTS)
}

/// The byte of a channel of a pixel.
pub open spec fn channel(image: PixelsView, at: int, channel: int) -> u8 {
    image.2[4 * at + channel]
}

/// Whether a pixel has the colour of the ground.
pub open spec fn is_key_candidate(image: PixelsView, at: int) -> bool {
    255 - channel(image, at, 0) <= KEY_DISTANCE && 255 - channel(image, at, 1) <= KEY_DISTANCE
        && 255 - channel(image, at, 2) <= KEY_DISTANCE
}

/// The pixels that have the colour of the ground.
pub open spec fn key_candidates(image: PixelsView) -> Seq<bool> {
    Seq::new(area(image), |at: int| is_key_candidate(image, at))
}

/// Whether a pixel is ground: it has its colour, and so has a way from it to the
/// edge of the image.
pub open spec fn is_ground(image: PixelsView, at: int) -> bool {
    reached(image.0 as nat, image.1 as nat, key_candidates(image), at)
}

/// The pixels that are ground.
pub open spec fn ground(image: PixelsView) -> Seq<bool> {
    Seq::new(area(image), |at: int| is_ground(image, at))
}

/// How far a pixel is from white, in the channel that is farthest.
pub open spec fn edge_alpha(image: PixelsView, at: int) -> int {
    let red = 255 - channel(image, at, 0);
    let green = 255 - channel(image, at, 1);
    let blue = 255 - channel(image, at, 2);
    if red >= green && red >= blue {
        red
    } else if green >= blue {
        green
    } else {
        blue
    }
}

/// The colours of a half transparent edge: for each alpha from 0 to 255, the
/// value of each channel without the white that shines through it.
#[derive(Debug)]
pub struct EdgeColors {
    pub values: Vec<u8>,
}

impl View for EdgeColors {
    type V = Seq<u8>;

    open spec fn view(&self) -> Seq<u8> {
        self.values@
    }
}

/// Whether there is a colour for each alpha and each channel.
pub open spec fn has_all_colors(colors: Seq<u8>) -> bool {
    colors.len() == 65536
}

/// A byte of an image without its ground: the ground is gone, a pixel beside it
/// that is neither white nor full becomes half transparent, and any other stays.
pub open spec fn keyed_byte(image: PixelsView, colors: Seq<u8>, at: int, which: int) -> u8 {
    let alpha = edge_alpha(image, at);
    if is_ground(image, at) {
        0
    } else if touches(image.0 as nat, ground(image), at) && 0 < alpha < 255 {
        if which == 3 {
            alpha as u8
        } else {
            colors[256 * alpha + channel(image, at, which)]
        }
    } else {
        channel(image, at, which)
    }
}

/// An image without its ground.
pub open spec fn keyed(image: PixelsView, colors: Seq<u8>) -> PixelsView {
    (
        image.0,
        image.1,
        Seq::new(image.2.len(), |k: int| keyed_byte(image, colors, k / 4, k % 4)),
    )
}

/// What is ground becomes wholly transparent; what is neither ground nor beside
/// it stays as it is; and a pixel that is no ground keeps its place.
pub proof fn only_the_ground_is_taken_away(image: PixelsView, colors: Seq<u8>, at: int, which: int)
    requires
        is_image(image),
        0 <= at < area(image),
        0 <= which < 4,
    ensures
        keyed(image, colors).2.len() == image.2.len(),
        is_ground(image, at) ==> channel(keyed(image, colors), at, which) == 0,
        !is_ground(image, at) && !touches(image.0 as nat, ground(image), at) ==> channel(
            keyed(image, colors),
            at,
            which,
        ) == channel(image, at, which),
        is_ground(image, at) ==> is_key_candidate(image, at),
{
    let k = 4 * at + which;
    assert(0 <= k < image.2.len());
    assert(k / 4 == at);
    assert(k % 4 == which);
    if is_ground(image, at) {
        let way = choose|way: Seq<int>|
            #[trigger] crate::pixels::is_way(
                image.0 as nat,
                image.1 as nat,
                key_candidates(image),
                way,
            ) && way.last() == at;
        assert(way[way.len() - 1] == at);
        assert(key_candidates(image)[way[way.len() - 1]]);
    }
}

fn candidates(image: &Pixels, count: usize) -> (marked: Vec<bool>)
    requires
        is_image(image@),
        count == area(image@),
    ensures
        marked@ == key_candidates(image@),
{
    let mut marked: Vec<bool> = Vec::new();
    let length: usize = image.data.len();
    for at in 0..count
        invariant
            is_image(image@),
            count == area(image@),
            length == image.data@.len(),
            marked@.len() == at,
            forall|k: int| 0 <= k < at ==> #[trigger] marked@[k] == is_key_candidate(image@, k),
    {
        let red: u8 = image.data[4 * at];
        let green: u8 = image.data[4 * at + 1];
        let blue: u8 = image.data[4 * at + 2];
        marked.push(
            255 - red <= KEY_DISTANCE && 255 - green <= KEY_DISTANCE && 255 - blue <= KEY_DISTANCE,
        );
    }
    assert(marked@ =~= key_candidates(image@));
    marked
}

fn farthest(red: u8, green: u8, blue: u8) -> (alpha: u8)
    ensures
        alpha == ({
            let red = 255 - red;
            let green = 255 - green;
            let blue = 255 - blue;
            if red >= green && red >= blue {
                red
            } else if green >= blue {
                green
            } else {
                blue
            }
        }),
{
    let red: u8 = 255 - red;
    let green: u8 = 255 - green;
    let blue: u8 = 255 - blue;
    if red >= green && red >= blue {
        red
    } else if green >= blue {
        green
    } else {
        blue
    }
}

/// Takes the ground away from an image.
pub fn remove_ground(image: &Pixels, colors: &EdgeColors) -> (out: Pixels)
    requires
        is_image(image@),
        has_all_colors(colors@),
    ensures
        out@ == keyed(image@, colors@),
        is_image(out@),
{
    let length: usize = image.data.len();
    let count: usize = length / 4;
    let width: usize = image.width as usize;
    let height: usize = image.height as usize;
    assert(count == area(image@));
    let marked = candidates(image, count);
    assert(marked@.len() == width * height);
    let mask = border_connected(width, height, &marked);
    assert(mask@ =~= ground(image@));
    let mut data: Vec<u8> = Vec::new();
    for at in 0..count
        invariant
            is_image(image@),
            has_all_colors(colors@),
            length == image.data@.len(),
            count == area(image@),
            count == length / 4,
            width == image.width,
            mask@ == ground(image@),
            mask@.len() == count,
            data@.len() == 4 * at,
            forall|k: int|
                0 <= k < 4 * at ==> #[trigger] data@[k] == keyed_byte(
                    image@,
                    colors@,
                    k / 4,
                    k % 4,
                ),
    {
        assert(width > 0) by (nonlinear_arith)
            requires
                at < width * image.height,
                at >= 0,
                width >= 0,
        ;
        let red: u8 = image.data[4 * at];
        let green: u8 = image.data[4 * at + 1];
        let blue: u8 = image.data[4 * at + 2];
        let full: u8 = image.data[4 * at + 3];
        let alpha: u8 = farthest(red, green, blue);
        assert(alpha == edge_alpha(image@, at as int));
        let ghost before = data@;
        if mask[at] {
            data.push(0);
            data.push(0);
            data.push(0);
            data.push(0);
        } else if touches_background(&mask, width, at) && alpha > 0 && alpha < 255 {
            let from: usize = 256 * alpha as usize;
            data.push(colors.values[from + red as usize]);
            data.push(colors.values[from + green as usize]);
            data.push(colors.values[from + blue as usize]);
            data.push(alpha);
        } else {
            data.push(red);
            data.push(green);
            data.push(blue);
            data.push(full);
        }
        assert forall|k: int| 0 <= k < 4 * (at + 1) implies #[trigger] data@[k] == keyed_byte(
            image@,
            colors@,
            k / 4,
            k % 4,
        ) by {
            if k < 4 * at {
                assert(data@[k] == before[k]);
            } else {
                assert(k / 4 == at);
                let which = k - 4 * at;
                assert(k % 4 == which);
                assert(mask@[at as int] == is_ground(image@, at as int));
                if which == 0 {
                } else if which == 1 {
                } else if which == 2 {
                } else {
                }
            }
        }
    }
    let out = Pixels { width: image.width, height: image.height, data };
    assert(out.data@ =~= keyed(image@, colors@).2);
    out
}

/// The file of an image without its ground.
pub open spec fn keyed_file(content: Seq<u8>, colors: Seq<u8>) -> Result<Seq<u8>, ErrorView> {
    match image_in(content) {
        Err(error) => Err(error),
        Ok(image) => png_of(keyed(image, colors)),
    }
}

/// Takes the white ground away from the file of an image.
pub fn remove_white_key_background(content: &[u8], colors: &EdgeColors) -> (out: Result<
    Vec<u8>,
    Error,
>)
    requires
        has_all_colors(colors@),
    ensures
        match out {
            Ok(file) => keyed_file(content@, colors@) == Ok::<Seq<u8>, ErrorView>(file@),
            Err(error) => keyed_file(content@, colors@) == Err::<Seq<u8>, ErrorView>(
                error.deep_view(),
            ),
        },
{
    match read_image(content) {
        Ok(image) => write_png(remove_ground(&image, colors)),
        Err(error) => Err(error),
    }
}

} // verus!
