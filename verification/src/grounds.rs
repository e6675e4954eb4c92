//! What becomes of the pixels of an image whose ground is taken away.
use vstd::prelude::*;

#[allow(unused_imports)]
use crate::chroma::{chroma_candidates, chroma_keyed};
#[allow(unused_imports)]
use crate::keying::{channel, edge_alpha, ground, is_ground, key_candidates, keyed, keyed_byte};
#[allow(unused_imports)]
use crate::matting::matted;
#[allow(unused_imports)]
use crate::pixels::{
    adjacent, area, at_border, is_image, is_way, lemma_way_begins, lemma_way_on, reached, touches,
    PixelsView,
};

verus! {

/// Two places of an image lie beside each other where one step leads from one to
/// the other, along a row or along a column.
pub proof fn beside_is_one_step(width: nat, x: int, y: int, u: int, v: int)
    requires
        0 <= x < width,
        0 <= u < width,
        0 <= y,
        0 <= v,
    ensures
        adjacent(width, y * width + x, v * width + u) <==> (y == v && (x == u + 1 || u == x + 1))
            || (x == u && (y == v + 1 || v == y + 1)),
{
    let w = width as int;
    let a = y * w + x;
    let b = v * w + u;
    lemma_place(w, x, y);
    lemma_place(w, u, v);
    assert(a == b + w ==> y == v + 1 && x == u) by {
        if a == b + w {
            assert(y * w + x == (v + 1) * w + u) by (nonlinear_arith)
                requires
                    y * w + x == v * w + u + w,
            ;
            lemma_place(w, u, v + 1);
        }
    }
    assert(b == a + w ==> v == y + 1 && x == u) by {
        if b == a + w {
            assert(v * w + u == (y + 1) * w + x) by (nonlinear_arith)
                requires
                    v * w + u == y * w + x + w,
            ;
            lemma_place(w, x, y + 1);
        }
    }
    assert(y == v + 1 ==> y * w == v * w + w) by (nonlinear_arith);
    assert(v == y + 1 ==> v * w == y * w + w) by (nonlinear_arith);
}

proof fn lemma_place(width: int, x: int, y: int)
    requires
        0 <= x < width,
        0 <= y,
    ensures
        (y * width + x) / width == y,
        (y * width + x) % width == x,
{
    vstd::arithmetic::div_mod::lemma_fundamental_div_mod_converse(y * width + x, width, y, x);
}

/// A place is at the edge of an image in its first and its last row and column.
pub proof fn the_edge_is_the_outermost_row_or_column(width: nat, height: nat, x: int, y: int)
    requires
        0 <= x < width,
        0 <= y < height,
    ensures
        at_border(width, height, y * width + x) <==> x == 0 || x == width - 1 || y == 0 || y
            == height - 1,
{
    lemma_place(width as int, x, y);
}

/// Whether a pixel is next to white in every channel.
pub open spec fn is_almost_white(image: PixelsView, at: int) -> bool {
    image.2[4 * at] >= 247 && image.2[4 * at + 1] >= 247 && image.2[4 * at + 2] >= 247
}

/// The white ground begins at the edge of an image and goes on from pixel to pixel
/// as far as they are almost white, and nowhere else.
pub proof fn the_white_ground_grows_from_the_edge(image: PixelsView, at: int, beside: int)
    requires
        is_image(image),
        0 <= at < area(image),
        0 <= beside < area(image),
    ensures
        is_ground(image, at) ==> is_almost_white(image, at),
        is_almost_white(image, at) && at_border(image.0 as nat, image.1 as nat, at) ==> is_ground(
            image,
            at,
        ),
        is_almost_white(image, at) && is_ground(image, beside) && adjacent(
            image.0 as nat,
            beside,
            at,
        ) ==> is_ground(image, at),
        is_ground(image, at) && !at_border(image.0 as nat, image.1 as nat, at) ==> exists|k: int|
            0 <= k < area(image) && is_ground(image, k) && #[trigger] adjacent(
                image.0 as nat,
                k,
                at,
            ),
{
    let width = image.0 as nat;
    let height = image.1 as nat;
    let marked = key_candidates(image);
    if is_ground(image, at) {
        lemma_reached(width, height, marked, at);
        if !at_border(width, height, at) {
            let k = choose|k: int|
                0 <= k < marked.len() && reached(width, height, marked, k) && #[trigger] adjacent(
                    width,
                    k,
                    at,
                );
            assert(is_ground(image, k) && adjacent(image.0 as nat, k, at));
        }
    }
    if is_almost_white(image, at) {
        assert(marked[at]);
        if at_border(width, height, at) {
            lemma_way_begins(width, height, marked, at);
        }
        if is_ground(image, beside) && adjacent(width, beside, at) {
            lemma_way_on(width, height, marked, beside, at);
        }
    }
}

proof fn lemma_reached(width: nat, height: nat, marked: Seq<bool>, at: int)
    requires
        reached(width, height, marked, at),
    ensures
        0 <= at < marked.len() && marked[at],
        at_border(width, height, at) || exists|k: int|
            0 <= k < marked.len() && reached(width, height, marked, k) && #[trigger] adjacent(
                width,
                k,
                at,
            ),
{
    let way = choose|way: Seq<int>|
        #[trigger] is_way(width, height, marked, way) && way.last() == at;
    let n = way.len() - 1;
    assert(way[n] == at);
    if n > 0 {
        let shorter = way.drop_last();
        assert forall|k: int| 0 <= k < shorter.len() implies 0 <= #[trigger] shorter[k]
            < marked.len() && marked[shorter[k]] by {
            assert(shorter[k] == way[k]);
        }
        assert forall|k: int| 0 < k < shorter.len() implies adjacent(
            width,
            shorter[k - 1],
            #[trigger] shorter[k],
        ) by {
            assert(shorter[k] == way[k] && shorter[k - 1] == way[k - 1]);
        }
        assert(shorter[0] == way[0]);
        assert(is_way(width, height, marked, shorter));
        assert(shorter.last() == way[n - 1]);
        assert(reached(width, height, marked, way[n - 1]));
        assert(adjacent(width, way[n - 1], way[n]));
    }
}

/// Every pixel beside the white ground that is neither white nor full in a channel
/// becomes half transparent: what it lacks of white in its darkest channel is its
/// alpha, and its colours are those of the table for that alpha.
pub proof fn an_edge_loses_the_white_that_shines_through(
    image: PixelsView,
    colors: Seq<u8>,
    at: int,
    beside: int,
    least: int,
    which: int,
)
    requires
        is_image(image),
        0 <= at < area(image),
        0 <= beside < area(image),
        adjacent(image.0 as nat, at, beside),
        is_ground(image, beside),
        !is_ground(image, at),
        least <= image.2[4 * at] && least <= image.2[4 * at + 1] && least <= image.2[4 * at + 2],
        least == image.2[4 * at] || least == image.2[4 * at + 1] || least == image.2[4 * at + 2],
        0 < least < 255,
        0 <= which < 3,
    ensures
        keyed(image, colors).2[4 * at + 3] == 255 - least,
        keyed(image, colors).2[4 * at + which] == colors[256 * (255 - least) + image.2[4 * at
            + which]],
{
    let width = image.0 as nat;
    assert(ground(image)[beside]);
    assert(touches(width, ground(image), at));
    assert(edge_alpha(image, at) == 255 - least);
    lemma_byte(image, colors, at, which);
    lemma_byte(image, colors, at, 3);
}

proof fn lemma_byte(image: PixelsView, colors: Seq<u8>, at: int, which: int)
    requires
        is_image(image),
        0 <= at < area(image),
        0 <= which < 4,
    ensures
        0 <= 4 * at + which < image.2.len(),
        keyed(image, colors).2[4 * at + which] == keyed_byte(image, colors, at, which),
{
    let k = 4 * at + which;
    assert(k / 4 == at);
    assert(k % 4 == which);
}

/// A pixel beside the white ground stays as it is where one of its channels is
/// empty or all of them are full; so does every pixel that is not beside the
/// ground. What is ground is gone.
pub proof fn what_lacks_no_white_stays(
    image: PixelsView,
    colors: Seq<u8>,
    at: int,
    which: int,
)
    requires
        is_image(image),
        0 <= at < area(image),
        0 <= which < 4,
    ensures
        keyed(image, colors).0 == image.0 && keyed(image, colors).1 == image.1,
        is_image(keyed(image, colors)),
        is_ground(image, at) ==> keyed(image, colors).2[4 * at + which] == 0,
        !is_ground(image, at) && (image.2[4 * at] == 0 || image.2[4 * at + 1] == 0 || image.2[4
            * at + 2] == 0) ==> keyed(image, colors).2[4 * at + which] == image.2[4 * at + which],
        !is_ground(image, at) && image.2[4 * at] == 255 && image.2[4 * at + 1] == 255
            && image.2[4 * at + 2] == 255 ==> keyed(image, colors).2[4 * at + which]
            == image.2[4 * at + which],
        !is_ground(image, at) && (forall|beside: int|
            0 <= beside < area(image) && #[trigger] adjacent(image.0 as nat, at, beside)
                ==> !is_ground(image, beside)) ==> keyed(image, colors).2[4 * at + which]
            == image.2[4 * at + which],
{
    lemma_byte(image, colors, at, which);
    if touches(image.0 as nat, ground(image), at) {
        let beside = choose|j: int|
            0 <= j < ground(image).len() && ground(image)[j] && #[trigger] adjacent(
                image.0 as nat,
                at,
                j,
            );
        assert(is_ground(image, beside));
    }
}

/// Whether a pixel is magenta, or no farther from it than 110.
pub open spec fn is_almost_magenta(image: PixelsView, at: int) -> bool {
    let red = 255 - image.2[4 * at];
    let green = image.2[4 * at + 1] as int;
    let blue = 255 - image.2[4 * at + 2];
    red * red + green * green + blue * blue <= 110 * 110
}

/// The magenta ground begins at the edge of an image and goes on from pixel to
/// pixel as far as they are almost magenta; the pixels of the new ground take its
/// place, and every other pixel stays.
pub proof fn the_magenta_ground_is_replaced(
    image: PixelsView,
    fresh: Seq<u8>,
    at: int,
    beside: int,
    which: int,
)
    requires
        is_image(image),
        0 <= at < area(image),
        0 <= beside < area(image),
        0 <= which < 4,
    ensures
        ({
            let width = image.0 as nat;
            let height = image.1 as nat;
            let colored = chroma_candidates(image);
            let out = chroma_keyed(image, fresh);
            &&& out.0 == image.0 && out.1 == image.1 && out.2.len() == image.2.len()
            &&& colored[at] <==> is_almost_magenta(image, at)
            &&& out.2[4 * at + which] == if reached(width, height, colored, at) {
                fresh[4 * at + which]
            } else {
                image.2[4 * at + which]
            }
            &&& reached(width, height, colored, at) ==> is_almost_magenta(image, at)
            &&& is_almost_magenta(image, at) && at_border(width, height, at) ==> reached(
                width,
                height,
                colored,
                at,
            )
            &&& is_almost_magenta(image, at) && reached(width, height, colored, beside)
                && adjacent(width, beside, at) ==> reached(width, height, colored, at)
        }),
{
    let width = image.0 as nat;
    let height = image.1 as nat;
    let colored = chroma_candidates(image);
    let k = 4 * at + which;
    assert(0 <= k < image.2.len());
    assert(k / 4 == at);
    assert(110 * 110 == 12_100);
    if reached(width, height, colored, at) {
        lemma_reached(width, height, colored, at);
    }
    if colored[at] {
        if at_border(width, height, at) {
            lemma_way_begins(width, height, colored, at);
        }
        if reached(width, height, colored, beside) && adjacent(width, beside, at) {
            lemma_way_on(width, height, colored, beside, at);
        }
    }
}

/// A matte leaves of every pixel what it says: nothing where that is next to
/// nothing, the pixel where it is all, and between them the pixel's own colours
/// under the alpha of the matte.
pub proof fn a_matte_leaves_what_it_says(
    image: PixelsView,
    alphas: Seq<u8>,
    colors: Seq<u8>,
    at: int,
    which: int,
)
    requires
        is_image(image),
        0 <= at < area(image),
        0 <= which < 4,
    ensures
        ({
            let out = matted(image, alphas, colors);
            let k = 4 * at + which;
            &&& out.0 == image.0 && out.1 == image.1 && out.2.len() == image.2.len()
            &&& alphas[at] < 4 ==> out.2[k] == 0
            &&& 4 <= alphas[at] ==> out.2[4 * at + 3] == alphas[at]
            &&& 4 <= alphas[at] < 255 && which < 3 ==> out.2[k] == colors[k]
            &&& alphas[at] == 255 && which < 3 ==> out.2[k] == image.2[k]
        }),
{
    let k = 4 * at + which;
    assert(0 <= k < image.2.len());
    assert(k / 4 == at && k % 4 == which);
    assert((4 * at + 3) / 4 == at && (4 * at + 3) % 4 == 3);
}

} // verus!
