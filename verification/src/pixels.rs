//! Images as pixels, and what lies around them.
use vstd::arithmetic::div_mod::{lemma_fundamental_div_mod, lemma_fundamental_div_mod_converse};
use vstd::prelude::*;

use crate::error::Error;
#[allow(unused_imports)]
use crate::error::ErrorView;

verus! {

/// An image: four bytes for each pixel, red, green, blue and alpha, row by row.
#[derive(Debug, PartialEq, Eq)]
pub struct Pixels {
    pub width: u32,
    pub height: u32,
    pub data: Vec<u8>,
}

/// What an image is: its width, its height and its bytes.
pub type PixelsView = (u32, u32, Seq<u8>);

impl View for Pixels {
    type V = PixelsView;

    open spec fn view(&self) -> PixelsView {
        (self.width, self.height, self.data@)
    }
}

/// How many pixels an image has.
pub open spec fn area(image: PixelsView) -> nat {
    image.0 as nat * image.1 as nat
}

/// Whether an image has four bytes for each pixel.
pub open spec fn is_image(image: PixelsView) -> bool {
    image.2.len() == area(image) * 4
}

/// What `image` reads out of the bytes of an image file: its pixels, or the
/// message that says why there are none.
pub uninterp spec fn decoded_image(content: Seq<u8>) -> Result<(u32, u32, Seq<u8>), Seq<char>>;

/// `image::load_from_memory`, then `to_rgba8`: the pixels of an image file, four
/// bytes for each, or the message of the error.
#[verifier::external_body]
fn decode_image(content: &[u8]) -> (image: Result<Pixels, String>)
    ensures
        match image {
            Ok(image) => decoded_image(content@) == Ok::<PixelsView, Seq<char>>(image@)
                && is_image(image@),
            Err(message) => decoded_image(content@) == Err::<PixelsView, Seq<char>>(message@),
        },
{
    let image = image::load_from_memory(content).map_err(|error| error.to_string())?.to_rgba8();
    Ok(Pixels { width: image.width(), height: image.height(), data: image.into_raw() })
}

/// The PNG file that `image` writes for the pixels of an image, or the message
/// that says why it writes none.
pub uninterp spec fn png_file(width: u32, height: u32, data: Seq<u8>) -> Result<
    Seq<u8>,
    Seq<char>,
>;

/// `image::RgbaImage::from_raw`, then `image::DynamicImage::write_to` with
/// `ImageFormat::Png`: the pixels as a PNG file, or the message of the error.
#[verifier::external_body]
fn encode_png(image: Pixels) -> (content: Result<Vec<u8>, String>)
    requires
        is_image(image@),
    ensures
        match content {
            Ok(content) => png_file(image@.0, image@.1, image@.2) == Ok::<Seq<u8>, Seq<char>>(
                content@,
            ),
            Err(message) => png_file(image@.0, image@.1, image@.2) == Err::<Seq<u8>, Seq<char>>(
                message@,
            ),
        },
{
    let pixels = image::RgbaImage::from_raw(image.width, image.height, image.data);
    let pixels = image::DynamicImage::ImageRgba8(pixels.ok_or_else(String::new)?);
    let mut output = std::io::Cursor::new(Vec::new());
    pixels.write_to(&mut output, image::ImageFormat::Png).map_err(|error| error.to_string())?;
    Ok(output.into_inner())
}

/// The pixels of an image file.
pub open spec fn image_in(content: Seq<u8>) -> Result<PixelsView, ErrorView> {
    match decoded_image(content) {
        Ok(image) => Ok(image),
        Err(message) => Err(ErrorView::Image(message)),
    }
}

/// The PNG file of an image.
pub open spec fn png_of(image: PixelsView) -> Result<Seq<u8>, ErrorView> {
    match png_file(image.0, image.1, image.2) {
        Ok(file) => Ok(file),
        Err(message) => Err(ErrorView::Image(message)),
    }
}

/// The pixels of an image file.
pub fn read_image(content: &[u8]) -> (image: Result<Pixels, Error>)
    ensures
        match image {
            Ok(image) => image_in(content@) == Ok::<PixelsView, ErrorView>(image@) && is_image(
                image@,
            ),
            Err(error) => image_in(content@) == Err::<PixelsView, ErrorView>(error.deep_view()),
        },
{
    match decode_image(content) {
        Ok(image) => Ok(image),
        Err(message) => Err(Error::Image(message)),
    }
}

/// The PNG file of an image.
pub fn write_png(image: Pixels) -> (content: Result<Vec<u8>, Error>)
    requires
        is_image(image@),
    ensures
        match content {
            Ok(file) => png_of(image@) == Ok::<Seq<u8>, ErrorView>(file@),
            Err(error) => png_of(image@) == Err::<Seq<u8>, ErrorView>(error.deep_view()),
        },
{
    match encode_png(image) {
        Ok(file) => Ok(file),
        Err(message) => Err(Error::Image(message)),
    }
}

/// Whether a place is at the edge of an image.
pub open spec fn at_border(width: nat, height: nat, at: int) -> bool {
    at % (width as int) == 0 || at % (width as int) == width - 1 || at / (width as int) == 0 || at
        / (width as int) == height - 1
}

/// Whether two places of an image lie side by side in a row, or one above the
/// other.
pub open spec fn adjacent(width: nat, a: int, b: int) -> bool {
    (a / (width as int) == b / (width as int) && (a == b + 1 || b == a + 1)) || a == b + width || b
        == a + width
}

/// Whether a way leads over marked places from the edge of an image.
pub open spec fn is_way(width: nat, height: nat, marked: Seq<bool>, way: Seq<int>) -> bool {
    &&& way.len() > 0
    &&& at_border(width, height, way[0])
    &&& forall|k: int| 0 <= k < way.len() ==> 0 <= #[trigger] way[k] < marked.len() && marked[way[k]]
    &&& forall|k: int| 0 < k < way.len() ==> adjacent(width, way[k - 1], #[trigger] way[k])
}

/// Whether a way leads over marked places from the edge of an image to a place.
pub open spec fn reached(width: nat, height: nat, marked: Seq<bool>, at: int) -> bool {
    exists|way: Seq<int>| #[trigger] is_way(width, height, marked, way) && way.last() == at
}

/// How many places are not marked.
spec fn unmarked(mask: Seq<bool>) -> nat
    decreases mask.len(),
{
    if mask.len() == 0 {
        0
    } else {
        unmarked(mask.drop_last()) + if mask.last() {
            0nat
        } else {
            1
        }
    }
}

proof fn lemma_mark(mask: Seq<bool>, at: int)
    requires
        0 <= at < mask.len(),
        !mask[at],
    ensures
        unmarked(mask.update(at, true)) + 1 == unmarked(mask),
    decreases mask.len(),
{
    let next = mask.update(at, true);
    if at == mask.len() - 1 {
        assert(next.drop_last() =~= mask.drop_last());
    } else {
        lemma_mark(mask.drop_last(), at);
        assert(next.drop_last() =~= mask.drop_last().update(at, true));
    }
}

pub(crate) proof fn lemma_way_on(width: nat, height: nat, marked: Seq<bool>, from: int, to: int)
    requires
        reached(width, height, marked, from),
        adjacent(width, from, to),
        0 <= to < marked.len(),
        marked[to],
    ensures
        reached(width, height, marked, to),
{
    let way = choose|way: Seq<int>|
        #[trigger] is_way(width, height, marked, way) && way.last() == from;
    let longer = way.push(to);
    assert forall|k: int| 0 < k < longer.len() implies adjacent(
        width,
        longer[k - 1],
        #[trigger] longer[k],
    ) by {
        if k < way.len() {
            assert(longer[k] == way[k]);
        } else {
            assert(longer[k - 1] == way.last());
        }
    }
    assert(is_way(width, height, marked, longer));
}

pub(crate) proof fn lemma_way_begins(width: nat, height: nat, marked: Seq<bool>, at: int)
    requires
        0 <= at < marked.len(),
        marked[at],
        at_border(width, height, at),
    ensures
        reached(width, height, marked, at),
{
    assert(is_way(width, height, marked, seq![at]));
    assert(seq![at].last() == at);
}

/// A set of places that holds the marked ones at the edge, and with a place every
/// marked one beside it, holds every place that is reached.
proof fn lemma_all_reached(
    width: nat,
    height: nat,
    marked: Seq<bool>,
    mask: Seq<bool>,
    way: Seq<int>,
)
    requires
        mask.len() == marked.len(),
        is_way(width, height, marked, way),
        forall|i: int|
            0 <= i < marked.len() && #[trigger] marked[i] && at_border(width, height, i) ==> mask[i],
        forall|i: int, j: int|
            0 <= i < marked.len() && 0 <= j < marked.len() && mask[i] && marked[j]
                && #[trigger] adjacent(width, i, j) ==> mask[j],
    ensures
        mask[way.last()],
    decreases way.len(),
{
    if way.len() == 1 {
        assert(marked[way[0]]);
    } else {
        let shorter = way.drop_last();
        assert forall|k: int| 0 < k < shorter.len() implies adjacent(
            width,
            shorter[k - 1],
            #[trigger] shorter[k],
        ) by {
            assert(shorter[k] == way[k]);
        }
        assert forall|k: int| 0 <= k < shorter.len() implies 0 <= #[trigger] shorter[k]
            < marked.len() && marked[shorter[k]] by {
            assert(shorter[k] == way[k]);
        }
        lemma_all_reached(width, height, marked, mask, shorter);
        let n = way.len() - 1;
        assert(adjacent(width, way[n - 1], way[n]));
        assert(marked[way[n]]);
    }
}

/// Two places beside each other in a row.
proof fn lemma_same_row(width: int, at: int)
    requires
        width > 0,
        at >= 0,
    ensures
        at % width + 1 < width <==> (at + 1) / width == at / width,
        at > 0 ==> (at % width > 0 <==> (at - 1) / width == at / width),
{
    let q = at / width;
    let r = at % width;
    lemma_fundamental_div_mod(at, width);
    assert(at == width * q + r);
    assert(0 <= r < width) by (nonlinear_arith)
        requires
            width > 0,
            r == at % width,
    ;
    if r + 1 < width {
        lemma_fundamental_div_mod_converse(at + 1, width, q, r + 1);
    } else {
        assert(width * (q + 1) == width * q + width) by (nonlinear_arith);
        lemma_fundamental_div_mod_converse(at + 1, width, q + 1, 0);
    }
    if at > 0 {
        if r > 0 {
            lemma_fundamental_div_mod_converse(at - 1, width, q, r - 1);
        } else {
            assert((q - 1) * width + (width - 1) == width * q - 1) by (nonlinear_arith);
            lemma_fundamental_div_mod_converse(at - 1, width, q - 1, width - 1);
        }
    }
}

/// The places beside a place.
fn places_beside(width: usize, count: usize, at: usize) -> (places: Vec<usize>)
    requires
        width > 0,
        at < count,
    ensures
        forall|k: int|
            0 <= k < places@.len() ==> #[trigger] places@[k] < count && adjacent(
                width as nat,
                at as int,
                places@[k] as int,
            ),
        forall|j: int|
            0 <= j < count && #[trigger] adjacent(width as nat, at as int, j) ==> exists|k: int|
                0 <= k < places@.len() && #[trigger] places@[k] == j,
{
    proof {
        lemma_same_row(width as int, at as int);
    }
    let mut places: Vec<usize> = Vec::new();
    let column: usize = at % width;
    assert(column <= at) by (nonlinear_arith)
        requires
            width > 0,
            column == at % width,
    ;
    if column > 0 {
        places.push(at - 1);
        assert(places@[0] == at - 1);
    }
    let ghost one = places@;
    if column < width - 1 && at < count - 1 {
        places.push(at + 1);
        assert(places@[one.len() as int] == at + 1);
    }
    let ghost two = places@;
    if at >= width {
        places.push(at - width);
        assert(places@[two.len() as int] == at - width);
    }
    let ghost three = places@;
    if width < count - at {
        places.push(at + width);
        assert(places@[three.len() as int] == at + width);
    }
    assert forall|j: int| 0 <= j < count && #[trigger] adjacent(
        width as nat,
        at as int,
        j,
    ) implies exists|k: int| 0 <= k < places@.len() && #[trigger] places@[k] == j by {
        if j == at + width {
            assert(places@[three.len() as int] == j);
        } else if at == j + width {
            assert(places@[two.len() as int] == j);
        } else if j == at + 1 {
            assert(places@[one.len() as int] == j);
        } else {
            assert(places@[0] == j);
        }
    }
    places
}

/// What is true while the places that are reached are looked for: every place
/// that was found is reached, every place that is still to be looked at was
/// found, and whatever lies beside any other found place was found too.
spec fn searching(
    width: nat,
    height: nat,
    marked: Seq<bool>,
    mask: Seq<bool>,
    pending: Seq<usize>,
) -> bool {
    &&& mask.len() == marked.len()
    &&& forall|i: int|
        0 <= i < mask.len() && #[trigger] mask[i] ==> reached(width, height, marked, i)
    &&& forall|k: int|
        0 <= k < pending.len() ==> #[trigger] pending[k] < mask.len() && mask[pending[k] as int]
}

/// Everything marked beside a found place that is not to be looked at was found.
spec fn settled(
    width: nat,
    marked: Seq<bool>,
    mask: Seq<bool>,
    pending: Seq<usize>,
) -> bool {
    forall|i: int, j: int|
        0 <= i < marked.len() && 0 <= j < marked.len() && mask[i] && marked[j] && !pending.contains(
            i as usize,
        ) && #[trigger] adjacent(width, i, j) ==> mask[j]
}

/// The marked places of an image that a way over marked places leads to from its
/// edge.
pub fn border_connected(width: usize, height: usize, marked: &Vec<bool>) -> (mask: Vec<bool>)
    requires
        marked@.len() == width * height,
    ensures
        mask@.len() == marked@.len(),
        forall|i: int|
            0 <= i < mask@.len() ==> (#[trigger] mask@[i] <==> reached(
                width as nat,
                height as nat,
                marked@,
                i,
            )),
{
    let count: usize = marked.len();
    let mut mask: Vec<bool> = Vec::new();
    for i in 0..count
        invariant
            mask@.len() == i,
            forall|k: int| 0 <= k < i ==> !#[trigger] mask@[k],
    {
        mask.push(false);
    }
    if count == 0 {
        return mask;
    }
    assert(width > 0 && height > 0) by (nonlinear_arith)
        requires
            width * height > 0,
            width >= 0,
            height >= 0,
    ;
    let ghost w = width as nat;
    let ghost h = height as nat;
    let mut pending: Vec<usize> = Vec::new();
    for i in 0..count
        invariant
            count == marked@.len(),
            width > 0,
            height > 0,
            w == width,
            h == height,
            searching(w, h, marked@, mask@, pending@),
            forall|k: int|
                0 <= k < marked@.len() && #[trigger] mask@[k] ==> pending@.contains(k as usize),
            forall|k: int| 0 <= k < i && #[trigger] marked@[k] && at_border(w, h, k) ==> mask@[k],
            forall|k: int| i <= k < marked@.len() ==> !#[trigger] mask@[k],
    {
        let column: usize = i % width;
        let row: usize = i / width;
        if marked[i] && (column == 0 || column == width - 1 || row == 0 || row == height - 1) {
            proof {
                lemma_way_begins(w, h, marked@, i as int);
            }
            let ghost before = pending@;
            let ghost mask_before = mask@;
            mask.set(i, true);
            pending.push(i);
            assert forall|k: int| 0 <= k < marked@.len() && #[trigger] mask@[
                k
            ] implies pending@.contains(k as usize) by {
                if k == i {
                    assert(pending@[before.len() as int] == k as usize);
                } else {
                    assert(mask_before[k]);
                    let n = choose|n: int| 0 <= n < before.len() && before[n] == k as usize;
                    assert(pending@[n] == k as usize);
                }
            }
        }
    }
    assert(settled(w, marked@, mask@, pending@));
    while pending.len() > 0
        invariant
            count == marked@.len(),
            width > 0,
            w == width,
            h == height,
            searching(w, h, marked@, mask@, pending@),
            settled(w, marked@, mask@, pending@),
            forall|k: int|
                0 <= k < marked@.len() && #[trigger] marked@[k] && at_border(w, h, k) ==> mask@[k],
        decreases unmarked(mask@), pending@.len(),
    {
        let ghost first_mask = mask@;
        let ghost first_pending = pending@;
        let at: usize = pending[pending.len() - 1];
        let _ = pending.pop();
        let ghost rest = pending@;
        assert(first_pending =~= rest.push(at));
        let beside = places_beside(width, count, at);
        assert forall|i: int, j: int|
            0 <= i < marked@.len() && 0 <= j < marked@.len() && mask@[i] && marked@[j]
                && !pending@.contains(i as usize) && i != at && #[trigger] adjacent(
                w,
                i,
                j,
            ) implies mask@[j] by {
            if first_pending.contains(i as usize) {
                let k = choose|k: int| 0 <= k < first_pending.len() && first_pending[k]
                    == i as usize;
                assert(k < rest.len());
                assert(rest[k] == i as usize);
            }
        }
        for k in 0..beside.len()
            invariant
                count == marked@.len(),
                w == width,
                at < count,
                mask@[at as int],
                searching(w, h, marked@, mask@, pending@),
                forall|n: int|
                    0 <= n < beside@.len() ==> #[trigger] beside@[n] < count && adjacent(
                        w,
                        at as int,
                        beside@[n] as int,
                    ),
                forall|i: int, j: int|
                    0 <= i < marked@.len() && 0 <= j < marked@.len() && mask@[i] && marked@[j]
                        && !pending@.contains(i as usize) && i != at && #[trigger] adjacent(
                        w,
                        i,
                        j,
                    ) ==> mask@[j],
                forall|n: int|
                    0 <= n < k && marked@[(#[trigger] beside@[n]) as int] ==> mask@[beside@[n] as int],
                forall|n: int|
                    0 <= n < marked@.len() && #[trigger] marked@[n] && at_border(w, h, n)
                        ==> mask@[n],
                unmarked(mask@) <= unmarked(first_mask),
                unmarked(mask@) == unmarked(first_mask) ==> pending@ == rest,
        {
            let next: usize = beside[k];
            if !mask[next] && marked[next] {
                proof {
                    lemma_way_on(w, h, marked@, at as int, next as int);
                    lemma_mark(mask@, next as int);
                }
                let ghost mask_before = mask@;
                let ghost before = pending@;
                mask.set(next, true);
                pending.push(next);
                assert forall|i: int, j: int|
                    0 <= i < marked@.len() && 0 <= j < marked@.len() && mask@[i] && marked@[j]
                        && !pending@.contains(i as usize) && i != at && #[trigger] adjacent(
                        w,
                        i,
                        j,
                    ) implies mask@[j] by {
                    if i == next {
                        assert(pending@[before.len() as int] == i as usize);
                    } else if before.contains(i as usize) {
                        let n = choose|n: int| 0 <= n < before.len() && before[n] == i as usize;
                        assert(pending@[n] == i as usize);
                    }
                }
            }
        }
        assert(settled(w, marked@, mask@, pending@)) by {
            assert forall|i: int, j: int|
                0 <= i < marked@.len() && 0 <= j < marked@.len() && mask@[i] && marked@[j]
                    && !pending@.contains(i as usize) && #[trigger] adjacent(
                    w,
                    i,
                    j,
                ) implies mask@[j] by {
                if i == at {
                    let n = choose|n: int| 0 <= n < beside@.len() && #[trigger] beside@[n] == j;
                    assert(marked@[beside@[n] as int]);
                }
            }
        }
    }
    assert forall|i: int| 0 <= i < mask@.len() implies (#[trigger] mask@[i] <==> reached(
        w,
        h,
        marked@,
        i,
    )) by {
        if reached(w, h, marked@, i) {
            let way = choose|way: Seq<int>|
                #[trigger] is_way(w, h, marked@, way) && way.last() == i;
            lemma_all_reached(w, h, marked@, mask@, way);
        }
    }
    mask
}

/// Whether something marked lies beside a place.
pub open spec fn touches(width: nat, mask: Seq<bool>, at: int) -> bool {
    exists|j: int| 0 <= j < mask.len() && mask[j] && #[trigger] adjacent(width, at, j)
}

/// Whether something marked lies beside a place.
pub fn touches_background(mask: &Vec<bool>, width: usize, at: usize) -> (yes: bool)
    requires
        width > 0,
        at < mask@.len(),
    ensures
        yes == touches(width as nat, mask@, at as int),
{
    let beside = places_beside(width, mask.len(), at);
    for k in 0..beside.len()
        invariant
            forall|n: int|
                0 <= n < beside@.len() ==> #[trigger] beside@[n] < mask@.len() && adjacent(
                    width as nat,
                    at as int,
                    beside@[n] as int,
                ),
            forall|n: int| 0 <= n < k ==> !mask@[(#[trigger] beside@[n]) as int],
    {
        if mask[beside[k]] {
            assert(adjacent(width as nat, at as int, beside@[k as int] as int));
            return true;
        }
    }
    assert forall|j: int| 0 <= j < mask@.len() && #[trigger] adjacent(
        width as nat,
        at as int,
        j,
    ) implies !mask@[j] by {
        let n = choose|n: int| 0 <= n < beside@.len() && #[trigger] beside@[n] == j;
    }
    false
}

} // verus!
