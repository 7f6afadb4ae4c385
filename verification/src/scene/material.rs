//! Texel layout of textures.
use vstd::prelude::*;

verus! {

/// Whether texel `(x, y)` of a checkerboard with squares of `size` texels
/// takes the first colour: the square's column and row parities agree.
pub open spec fn checker_first(x: int, y: int, size: int) -> bool {
    ((x / size) % 2 == 0) == ((y / size) % 2 == 0)
}

/// The cells of row `y` of a `width`-wide row-major image end before the
/// image does.
proof fn lemma_row_end(y: int, width: int, height: int)
    requires
        0 <= y < height,
        0 <= width,
    ensures
        y * width + width <= width * height,
{
    vstd::arithmetic::mul::lemma_mul_inequality(y + 1, height, width);
    vstd::arithmetic::mul::lemma_mul_is_distributive_add_other_way(width, y, 1);
    vstd::arithmetic::mul::lemma_mul_is_commutative(height, width);
}

/// A cell of an earlier row lies before the current row.
proof fn lemma_earlier_row(xx: int, yy: int, y: int, width: int)
    requires
        0 <= xx < width,
        0 <= yy < y,
    ensures
        yy * width + xx < y * width,
{
    lemma_row_end(yy, width, y);
    vstd::arithmetic::mul::lemma_mul_is_commutative(width, y);
}

/// A `width * height` checkerboard, row by row, alternating `c1` and `c2`
/// in squares of `size` texels, starting with `c1` at the top left.
pub fn checkerboard<C: Copy>(width: usize, height: usize, size: usize, c1: C, c2: C) -> (data: Vec<C>)
    requires
        size > 0,
        width * height <= usize::MAX,
    ensures
        data@.len() == width * height,
        forall|x: int, y: int|
            0 <= x < width && 0 <= y < height ==> #[trigger] data@[y * width + x] == if checker_first(x, y, size as int) {
                c1
            } else {
                c2
            },
{
    let mut data: Vec<C> = Vec::new();
    let mut y: usize = 0;
    while y < height
        invariant
            y <= height,
            size > 0,
            width * height <= usize::MAX,
            data@.len() == y * width,
            forall|xx: int, yy: int|
                0 <= xx < width && 0 <= yy < y ==> #[trigger] data@[yy * width + xx] == if checker_first(xx, yy, size as int) {
                    c1
                } else {
                    c2
                },
        decreases height - y,
    {
        proof {
            lemma_row_end(y as int, width as int, height as int);
        }
        let mut x: usize = 0;
        while x < width
            invariant
                x <= width,
                y < height,
                size > 0,
                y * width + width <= width * height,
                width * height <= usize::MAX,
                data@.len() == y * width + x,
                forall|xx: int, yy: int|
                    0 <= xx < width && 0 <= yy < y ==> #[trigger] data@[yy * width + xx] == if checker_first(xx, yy, size as int) {
                        c1
                    } else {
                        c2
                    },
                forall|xx: int| 0 <= xx < x ==> #[trigger] data@[y * width + xx] == if checker_first(xx, y as int, size as int) {
                    c1
                } else {
                    c2
                },
            decreases width - x,
        {
            let cx = (x / size) % 2 == 0;
            let cy = (y / size) % 2 == 0;
            let ghost before = data@;
            data.push(if cx == cy { c1 } else { c2 });
            proof {
                assert forall|xx: int, yy: int| 0 <= xx < width && 0 <= yy < y implies #[trigger] data@[yy * width + xx]
                    == before[yy * width + xx] by {
                    lemma_earlier_row(xx, yy, y as int, width as int);
                }
            }
            x = x + 1;
        }
        proof {
            assert forall|xx: int, yy: int|
                0 <= xx < width && 0 <= yy < y + 1 implies #[trigger] data@[yy * width + xx] == if checker_first(
                xx,
                yy,
                size as int,
            ) {
                c1
            } else {
                c2
            } by {
                if yy == y {
                }
            }
        }
        assert((y + 1) * width == y * width + width) by (nonlinear_arith);
        y = y + 1;
    }
    assert(height * width == width * height) by (nonlinear_arith);
    data
}

/// Row-major positions of the four texels that bilinear filtering blends
/// around texel `(x0, y0)`: the texel itself, its right and lower
/// neighbours (clamped at the last column and row) and the diagonal one.
pub fn bilinear_corners(x0: usize, y0: usize, width: usize, height: usize) -> (c: [usize; 4])
    requires
        x0 < width,
        y0 < height,
        width * height <= usize::MAX,
    ensures
        ({
            let x1 = if x0 + 1 < width { x0 + 1 } else { x0 as int };
            let y1 = if y0 + 1 < height { y0 + 1 } else { y0 as int };
            &&& c[0] == y0 * width + x0
            &&& c[1] == y0 * width + x1
            &&& c[2] == y1 * width + x0
            &&& c[3] == y1 * width + x1
            &&& forall|k: int| 0 <= k < 4 ==> #[trigger] c[k] < width * height
        }),
{
    let x1 = if x0 + 1 < width { x0 + 1 } else { x0 };
    let y1 = if y0 + 1 < height { y0 + 1 } else { y0 };
    proof {
        lemma_row_end(y0 as int, width as int, height as int);
        lemma_row_end(y1 as int, width as int, height as int);
    }
    assert(y0 * width + x0 < width * height && y0 * width + x1 < width * height && y1 * width + x0 < width * height
        && y1 * width + x1 < width * height);
    [y0 * width + x0, y0 * width + x1, y1 * width + x0, y1 * width + x1]
}

} // verus!
