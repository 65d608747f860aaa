//! Integer geometry around super-resolution: padding a grayscale image to
//! a model's fixed input size by edge replication, recovering the scale
//! factor, and cropping a model output back to the image.

use vstd::prelude::*;

verus! {

/// Input height expected by the embedded super-resolution model.
pub const MODEL_INPUT_H: usize = 224;
/// Input width expected by the embedded super-resolution model.
pub const MODEL_INPUT_W: usize = 224;

/// Pixel (`x`, `y`) of the edge-replicated extension of a `w` × `h` image.
pub open spec fn replicated(g: Seq<u8>, w: int, h: int, x: int, y: int) -> u8 {
    g[(if y < h - 1 { y } else { h - 1 }) * w + (if x < w - 1 { x } else { w - 1 })]
}

/// Pads a `width` × `height` grayscale image to `out_w` × `out_h` by
/// replicating its last column and last row; row-major result.
pub fn pad_edge_replicate(
    grayscale: &[u8],
    width: usize,
    height: usize,
    out_w: usize,
    out_h: usize,
) -> (r: Vec<u8>)
    requires
        width > 0,
        height > 0,
        grayscale.len() >= width * height,
        out_w * out_h <= usize::MAX,
    ensures
        r.len() == out_w * out_h,
        forall|y: int, x: int|
            0 <= y < out_h && 0 <= x < out_w ==> #[trigger] r@[y * out_w + x] == replicated(
                grayscale@,
                width as int,
                height as int,
                x,
                y,
            ),
{
    let mut r: Vec<u8> = Vec::new();
    let mut y: usize = 0;
    while y < out_h
        invariant
            y <= out_h,
            width > 0 && height > 0,
            grayscale.len() >= width * height,
            out_w * out_h <= usize::MAX,
            r.len() == y * out_w,
            forall|yy: int, x: int|
                0 <= yy < y && 0 <= x < out_w ==> #[trigger] r@[yy * out_w + x] == replicated(
                    grayscale@,
                    width as int,
                    height as int,
                    x,
                    yy,
                ),
        decreases out_h - y,
    {
        let sy = if y < height - 1 { y } else { height - 1 };
        let mut x: usize = 0;
        proof {
            assert(y * out_w + out_w <= out_w * out_h) by (nonlinear_arith)
                requires
                    y < out_h,
            ;
        }
        while x < out_w
            invariant
                x <= out_w,
                y < out_h,
                sy < height,
                sy as int == (if y < height - 1 { y as int } else { height - 1 }),
                width > 0 && height > 0,
                grayscale.len() >= width * height,
                y * out_w + out_w <= out_w * out_h,
                out_w * out_h <= usize::MAX,
                r.len() == y * out_w + x,
                forall|yy: int, xx: int|
                    0 <= yy < y && 0 <= xx < out_w ==> #[trigger] r@[yy * out_w + xx] == replicated(
                        grayscale@,
                        width as int,
                        height as int,
                        xx,
                        yy,
                    ),
                forall|xx: int|
                    0 <= xx < x ==> #[trigger] r@[y * out_w + xx] == replicated(
                        grayscale@,
                        width as int,
                        height as int,
                        xx,
                        y as int,
                    ),
            decreases out_w - x,
        {
            let sx = if x < width - 1 { x } else { width - 1 };
            proof {
                assert(sy * width + sx < width * height) by (nonlinear_arith)
                    requires
                        sy < height,
                        sx < width,
                ;
            }
            let ghost before = r@;
            r.push(grayscale[sy * width + sx]);
            proof {
                assert forall|yy: int, xx: int|
                    0 <= yy < y && 0 <= xx < out_w implies #[trigger] r@[yy * out_w + xx] == replicated(
                        grayscale@,
                        width as int,
                        height as int,
                        xx,
                        yy,
                    ) by {
                    assert(yy * out_w + xx < y * out_w) by (nonlinear_arith)
                        requires
                            yy < y,
                            xx < out_w,
                    ;
                    assert(r@[yy * out_w + xx] == before[yy * out_w + xx]);
                }
            }
            x += 1;
        }
        proof {
            assert forall|yy: int, xx: int|
                0 <= yy < y + 1 && 0 <= xx < out_w implies #[trigger] r@[yy * out_w + xx] == replicated(
                    grayscale@,
                    width as int,
                    height as int,
                    xx,
                    yy,
                ) by {
                if yy == y {
                    assert(r@[y * out_w + xx] == replicated(grayscale@, width as int, height as int, xx, y as int));
                }
            }
            assert((y + 1) * out_w == y * out_w + out_w) by (nonlinear_arith);
        }
        y += 1;
    }
    assert(y * out_w == out_w * out_h) by (nonlinear_arith)
        requires
            y == out_h,
    ;
    r
}

/// The integer scale factor of a model whose output height is `out_h` for
/// an input `MODEL_INPUT_H` rows high (rounded down).
pub fn scale_from_output_height(out_h: usize) -> (s: usize)
    ensures
        s == out_h / MODEL_INPUT_H,
{
    out_h / MODEL_INPUT_H
}

/// The top-left `out_w` × `out_h` corner of a row-major image whose rows
/// are `full_w` elements long, row-major.
pub fn crop_top_left<T: Copy>(data: &[T], full_w: usize, out_w: usize, out_h: usize) -> (r: Vec<T>)
    requires
        out_h > 0 ==> (out_h - 1) * full_w + out_w <= data.len(),
        out_w * out_h <= usize::MAX,
    ensures
        r.len() == out_w * out_h,
        forall|y: int, x: int|
            0 <= y < out_h && 0 <= x < out_w ==> #[trigger] r@[y * out_w + x] == data@[y * full_w + x],
{
    let mut r: Vec<T> = Vec::new();
    let mut y: usize = 0;
    while y < out_h
        invariant
            y <= out_h,
            out_h > 0 ==> (out_h - 1) * full_w + out_w <= data.len(),
            out_w * out_h <= usize::MAX,
            r.len() == y * out_w,
            forall|yy: int, x: int|
                0 <= yy < y && 0 <= x < out_w ==> #[trigger] r@[yy * out_w + x] == data@[yy * full_w + x],
        decreases out_h - y,
    {
        proof {
            assert(y * full_w + out_w <= (out_h - 1) * full_w + out_w) by (nonlinear_arith)
                requires
                    y < out_h,
            ;
            assert(y * out_w + out_w <= out_w * out_h) by (nonlinear_arith)
                requires
                    y < out_h,
            ;
        }
        let row_start = y * full_w;
        let mut x: usize = 0;
        while x < out_w
            invariant
                x <= out_w,
                y < out_h,
                row_start == y * full_w,
                row_start + out_w <= data.len(),
                y * out_w + out_w <= out_w * out_h,
                out_w * out_h <= usize::MAX,
                r.len() == y * out_w + x,
                forall|yy: int, xx: int|
                    0 <= yy < y && 0 <= xx < out_w ==> #[trigger] r@[yy * out_w + xx] == data@[yy * full_w + xx],
                forall|xx: int| 0 <= xx < x ==> #[trigger] r@[y * out_w + xx] == data@[y * full_w + xx],
            decreases out_w - x,
        {
            let ghost before = r@;
            r.push(data[row_start + x]);
            proof {
                assert forall|yy: int, xx: int|
                    0 <= yy < y && 0 <= xx < out_w implies #[trigger] r@[yy * out_w + xx] == data@[yy * full_w + xx] by {
                    assert(yy * out_w + xx < y * out_w) by (nonlinear_arith)
                        requires
                            yy < y,
                            xx < out_w,
                    ;
                    assert(r@[yy * out_w + xx] == before[yy * out_w + xx]);
                }
            }
            x += 1;
        }
        proof {
            assert forall|yy: int, xx: int|
                0 <= yy < y + 1 && 0 <= xx < out_w implies #[trigger] r@[yy * out_w + xx] == data@[yy * full_w + xx] by {
                if yy == y {
                    assert(r@[y * out_w + xx] == data@[y * full_w + xx]);
                }
            }
            assert((y + 1) * out_w == y * out_w + out_w) by (nonlinear_arith);
        }
        y += 1;
    }
    assert(y * out_w == out_w * out_h) by (nonlinear_arith)
        requires
            y == out_h,
    ;
    r
}

} // verus!
