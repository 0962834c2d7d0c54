//! Raster images, per-component boolean masks, and masked compositing.
//!
//! The template engine paints a composite item texture by stacking masked
//! layers: each layer carries a source image and a mask saying which pixels
//! belong to its component; rendering copies, for every mask-true coordinate,
//! the source pixel into the output, later layers over earlier ones, and
//! leaves uncovered pixels transparent.

use vstd::prelude::*;

verus! {

/// Why a texture could not be composited.
#[derive(PartialEq, Eq, Structural, Clone, Copy, Debug)]
pub enum TextureCompositeError {
    /// The shared reference image deriving the masks is missing.
    MissingMask,
    /// Both the primary and the fallback image of a component are missing.
    MissingComponentImage,
    /// A mask or layer does not match the expected dimensions.
    DimensionMismatch,
}

/// One RGBA pixel, eight bits per channel.
#[derive(PartialEq, Eq, Structural, Clone, Copy, Debug)]
pub struct Rgba8 {
    pub r: u8,
    pub g: u8,
    pub b: u8,
    pub a: u8,
}

impl Rgba8 {
    /// The fully transparent pixel, the background of every composite.
    pub fn transparent() -> (c: Rgba8)
        ensures
            c == (Rgba8 { r: 0, g: 0, b: 0, a: 0 }),
    {
        Rgba8 { r: 0, g: 0, b: 0, a: 0 }
    }
}

/// The spec-level transparent pixel.
pub open spec fn transparent_pixel() -> Rgba8 {
    Rgba8 { r: 0, g: 0, b: 0, a: 0 }
}

/// Products of `u32`-sized factors stay below `2^64`.
proof fn lemma_flat_fits_u64(x: int, y: int, w: int, h: int)
    requires
        0 <= x < w,
        0 <= y < h,
        w <= 0xffff_ffff,
        h <= 0xffff_ffff,
    ensures
        0 <= y * w + x < 0x1_0000_0000_0000_0000,
{
    assert(0 <= y * w + x < 0x1_0000_0000_0000_0000) by (nonlinear_arith)
        requires
            0 <= x < w,
            0 <= y < h,
            w <= 0xffff_ffff,
            h <= 0xffff_ffff;
}

/// A flat coordinate is in range of a `width * height` raster.
proof fn lemma_flat_index(x: int, y: int, w: int, h: int)
    requires
        0 <= x < w,
        0 <= y < h,
    ensures
        0 <= y * w + x < w * h,
    decreases h,
{
    assert(0 <= y * w + x < w * h) by (nonlinear_arith)
        requires
            0 <= x < w,
            0 <= y < h;
}

/// A fixed-size RGBA raster, pixels stored row-major.
#[derive(Debug)]
pub struct RasterImage {
    pub width: u32,
    pub height: u32,
    pub pixels: Vec<Rgba8>,
}

impl Clone for RasterImage {
    fn clone(&self) -> (res: Self)
        ensures
            res.width == self.width,
            res.height == self.height,
            res.pixels@ == self.pixels@,
    {
        RasterImage {
            width: self.width,
            height: self.height,
            pixels: clone_pixel_vec(&self.pixels),
        }
    }
}

/// Clone a pixel vector element by element.
fn clone_pixel_vec(v: &Vec<Rgba8>) -> (r: Vec<Rgba8>)
    ensures
        r@ == v@,
{
    let mut out: Vec<Rgba8> = Vec::new();
    let mut i: usize = 0;
    while i < v.len()
        invariant
            0 <= i <= v.len(),
            out@ =~= v@.take(i as int),
        decreases v.len() - i,
    {
        out.push(v[i]);
        i = i + 1;
    }
    proof {
        assert(out@ =~= v@);
    }
    out
}

impl RasterImage {
    /// Well-formed: the pixel store covers exactly `width * height` cells.
    pub open spec fn wf(self) -> bool {
        self.pixels@.len() == self.width as int * self.height as int
    }

    /// The pixel at column `x`, row `y`.
    pub open spec fn pixel_at(self, x: int, y: int) -> Rgba8 {
        self.pixels@[y * self.width as int + x]
    }

    /// A raster of the given dimensions, every pixel set to `fill`.
    pub fn new(width: u32, height: u32, fill: Rgba8) -> (r: RasterImage)
        requires
            width as int * height as int <= usize::MAX,
        ensures
            r.wf(),
            r.width == width,
            r.height == height,
            forall|i: int| 0 <= i < r.pixels@.len() ==> r.pixels@[i] == fill,
    {
        proof {
            assert(0 <= (width as int) * (height as int) < 0x1_0000_0000_0000_0000)
                by (nonlinear_arith)
                requires
                    width as int <= 0xffff_ffff,
                    height as int <= 0xffff_ffff;
        }
        let n: usize = (width as u64 * height as u64) as usize;
        let mut pixels: Vec<Rgba8> = Vec::new();
        let mut i: usize = 0;
        while i < n
            invariant
                0 <= i <= n,
                pixels@.len() == i,
                forall|j: int| 0 <= j < i ==> pixels@[j] == fill,
            decreases n - i,
        {
            pixels.push(fill);
            i = i + 1;
        }
        RasterImage { width, height, pixels }
    }

    /// Read one pixel.
    pub fn get_pixel(&self, x: u32, y: u32) -> (r: Rgba8)
        requires
            self.wf(),
            x < self.width,
            y < self.height,
        ensures
            r == self.pixel_at(x as int, y as int),
    {
        let n: usize = self.pixels.len();
        proof {
            lemma_flat_index(x as int, y as int, self.width as int, self.height as int);
            lemma_flat_fits_u64(x as int, y as int, self.width as int, self.height as int);
            assert((y as int) * (self.width as int) + (x as int) < n);
        }
        let idx: usize = (y as u64 * self.width as u64 + x as u64) as usize;
        self.pixels[idx]
    }

    /// Write one pixel in place.
    pub fn put_pixel(&mut self, x: u32, y: u32, p: Rgba8)
        requires
            old(self).wf(),
            x < old(self).width,
            y < old(self).height,
        ensures
            final(self).wf(),
            final(self).width == old(self).width,
            final(self).height == old(self).height,
            final(self).pixel_at(x as int, y as int) == p,
            forall|a: int, b: int|
                0 <= a < old(self).width && 0 <= b < old(self).height && !(a == x && b == y)
                    ==> final(self).pixel_at(a, b) == old(self).pixel_at(a, b),
    {
        let n: usize = self.pixels.len();
        proof {
            lemma_flat_index(x as int, y as int, self.width as int, self.height as int);
            lemma_flat_fits_u64(x as int, y as int, self.width as int, self.height as int);
            assert((y as int) * (self.width as int) + (x as int) < n);
        }
        let idx: usize = (y as u64 * self.width as u64 + x as u64) as usize;
        self.pixels.set(idx, p);
        proof {
            let w = self.width as int;
            let h = self.height as int;
            assert forall|a: int, b: int|
                0 <= a < w && 0 <= b < h && !(a == x as int && b == y as int)
                    implies self.pixel_at(a, b) == old(self).pixel_at(a, b) by {
                lemma_flat_index(a, b, w, h);
                assert(b * w + a != y as int * w + x as int) by (nonlinear_arith)
                    requires
                        0 <= a < w,
                        0 <= b < h,
                        0 <= (x as int) < w,
                        0 <= (y as int) < h,
                        !(a == x as int && b == y as int);
            }
        }
    }
}

/// A boolean per-pixel map: `true` where a pixel belongs to a component.
#[derive(Debug)]
pub struct Mask {
    pub width: u32,
    pub height: u32,
    pub bits: Vec<bool>,
}

impl Clone for Mask {
    fn clone(&self) -> (res: Self)
        ensures
            res.width == self.width,
            res.height == self.height,
            res.bits@ == self.bits@,
    {
        let mut bits: Vec<bool> = Vec::new();
        let mut i: usize = 0;
        while i < self.bits.len()
            invariant
                0 <= i <= self.bits.len(),
                bits@ =~= self.bits@.take(i as int),
            decreases self.bits.len() - i,
        {
            bits.push(self.bits[i]);
            i = i + 1;
        }
        proof {
            assert(bits@ =~= self.bits@);
        }
        Mask { width: self.width, height: self.height, bits }
    }
}

impl Mask {
    pub open spec fn wf(self) -> bool {
        self.bits@.len() == self.width as int * self.height as int
    }

    /// Whether the pixel at column `x`, row `y` belongs to the component.
    pub open spec fn bit_at(self, x: int, y: int) -> bool {
        self.bits@[y * self.width as int + x]
    }

    /// Derive a mask from a reference image: a pixel belongs to the
    /// component exactly where the reference pixel equals `color`.
    pub fn from_reference(reference: &RasterImage, color: Rgba8) -> (r: Mask)
        requires
            reference.wf(),
        ensures
            r.wf(),
            r.width == reference.width,
            r.height == reference.height,
            forall|x: int, y: int|
                0 <= x < reference.width && 0 <= y < reference.height ==> r.bit_at(x, y) == (
                reference.pixel_at(x, y) == color),
    {
        let mut bits: Vec<bool> = Vec::new();
        let mut i: usize = 0;
        while i < reference.pixels.len()
            invariant
                0 <= i <= reference.pixels.len(),
                bits@.len() == i,
                forall|j: int|
                    0 <= j < i ==> bits@[j] == (reference.pixels@[j] == color),
            decreases reference.pixels.len() - i,
        {
            bits.push(reference.pixels[i] == color);
            i = i + 1;
        }
        let r = Mask { width: reference.width, height: reference.height, bits };
        proof {
            assert forall|x: int, y: int|
                0 <= x < reference.width && 0 <= y < reference.height implies r.bit_at(x, y) == (
                reference.pixel_at(x, y) == color) by {
                lemma_flat_index(x, y, reference.width as int, reference.height as int);
            }
        }
        r
    }

    /// A mask covering nothing: every bit false.
    pub fn all_false(width: u32, height: u32) -> (r: Mask)
        requires
            width as int * height as int <= usize::MAX,
        ensures
            r.wf(),
            r.width == width,
            r.height == height,
            forall|i: int| 0 <= i < r.bits@.len() ==> !r.bits@[i],
            forall|x: int, y: int|
                0 <= x < width && 0 <= y < height ==> !r.bit_at(x, y),
    {
        proof {
            assert(0 <= (width as int) * (height as int) < 0x1_0000_0000_0000_0000)
                by (nonlinear_arith)
                requires
                    width as int <= 0xffff_ffff,
                    height as int <= 0xffff_ffff;
        }
        let n: usize = (width as u64 * height as u64) as usize;
        let mut bits: Vec<bool> = Vec::new();
        let mut i: usize = 0;
        while i < n
            invariant
                0 <= i <= n,
                bits@.len() == i,
                forall|j: int| 0 <= j < i ==> !bits@[j],
            decreases n - i,
        {
            bits.push(false);
            i = i + 1;
        }
        let r = Mask { width, height, bits };
        proof {
            assert forall|x: int, y: int|
                0 <= x < width && 0 <= y < height implies !r.bit_at(x, y) by {
                lemma_flat_index(x, y, width as int, height as int);
            }
        }
        r
    }

    /// Whether one bit is set.
    pub fn get_bit(&self, x: u32, y: u32) -> (r: bool)
        requires
            self.wf(),
            x < self.width,
            y < self.height,
        ensures
            r == self.bit_at(x as int, y as int),
    {
        let n: usize = self.bits.len();
        proof {
            lemma_flat_index(x as int, y as int, self.width as int, self.height as int);
            lemma_flat_fits_u64(x as int, y as int, self.width as int, self.height as int);
            assert((y as int) * (self.width as int) + (x as int) < n);
        }
        let idx: usize = (y as u64 * self.width as u64 + x as u64) as usize;
        self.bits[idx]
    }
}

/// One component layer: a source image and the mask delimiting which of its
/// pixels belong to the component.
#[derive(Debug)]
pub struct MaskedImage {
    pub mask: Mask,
    pub image: RasterImage,
}

impl Clone for MaskedImage {
    fn clone(&self) -> (res: Self)
        ensures
            res.mask.width == self.mask.width,
            res.mask.height == self.mask.height,
            res.mask.bits@ == self.mask.bits@,
            res.image.width == self.image.width,
            res.image.height == self.image.height,
            res.image.pixels@ == self.image.pixels@,
    {
        MaskedImage { mask: self.mask.clone(), image: self.image.clone() }
    }
}

impl MaskedImage {
    /// Well-formed: mask and image agree on dimensions.
    pub open spec fn wf(self) -> bool {
        self.mask.wf() && self.image.wf() && self.mask.width == self.image.width
            && self.mask.height == self.image.height
    }

    /// Pair a mask with a source image; the dimensions must agree.
    pub fn new(mask: Mask, image: RasterImage) -> (r: Result<
        MaskedImage,
        TextureCompositeError,
    >)
        requires
            mask.wf(),
            image.wf(),
        ensures
            mask.width == image.width && mask.height == image.height <==> r is Ok,
            r matches Ok(m) ==> m.mask == mask && m.image == image && m.wf(),
            r is Err ==> r == Err::<MaskedImage, TextureCompositeError>(
                TextureCompositeError::DimensionMismatch,
            ),
    {
        if mask.width == image.width && mask.height == image.height {
            Ok(MaskedImage { mask, image })
        } else {
            Err(TextureCompositeError::DimensionMismatch)
        }
    }

    pub fn get_mask(&self) -> (r: &Mask)
        ensures
            r == &self.mask,
    {
        &self.mask
    }

    pub fn get_image(&self) -> (r: &RasterImage)
        ensures
            r == &self.image,
    {
        &self.image
    }

    /// The source image with every mask-false pixel blanked to transparent.
    pub fn get_masked_image(&self) -> (r: RasterImage)
        requires
            self.wf(),
        ensures
            r.wf(),
            r.width == self.image.width,
            r.height == self.image.height,
            forall|x: int, y: int|
                0 <= x < self.image.width && 0 <= y < self.image.height ==> r.pixel_at(x, y) == (
                if self.mask.bit_at(x, y) {
                    self.image.pixel_at(x, y)
                } else {
                    transparent_pixel()
                }),
    {
        let mut pixels: Vec<Rgba8> = Vec::new();
        let mut i: usize = 0;
        while i < self.image.pixels.len()
            invariant
                0 <= i <= self.image.pixels.len(),
                self.wf(),
                pixels@.len() == i,
                forall|j: int|
                    0 <= j < i ==> pixels@[j] == (if self.mask.bits@[j] {
                        self.image.pixels@[j]
                    } else {
                        transparent_pixel()
                    }),
            decreases self.image.pixels.len() - i,
        {
            if self.mask.bits[i] {
                pixels.push(self.image.pixels[i]);
            } else {
                pixels.push(Rgba8::transparent());
            }
            i = i + 1;
        }
        let r = RasterImage { width: self.image.width, height: self.image.height, pixels };
        proof {
            assert forall|x: int, y: int|
                0 <= x < self.image.width && 0 <= y < self.image.height implies r.pixel_at(x, y)
                == (if self.mask.bit_at(x, y) {
                self.image.pixel_at(x, y)
            } else {
                transparent_pixel()
            }) by {
                lemma_flat_index(x, y, self.image.width as int, self.image.height as int);
            }
        }
        r
    }
}

/// What the stack of layers paints at flat index `i`: the source pixel of the
/// last layer whose mask covers `i`, else transparent.
pub open spec fn composite_flat(layers: Seq<MaskedImage>, i: int) -> Rgba8
    decreases layers.len(),
{
    if layers.len() == 0 {
        transparent_pixel()
    } else if layers.last().mask.bits[i] {
        layers.last().image.pixels@[i]
    } else {
        composite_flat(layers.drop_last(), i)
    }
}

/// What the stack of layers paints at column `x`, row `y`.
pub open spec fn composite_pixel(layers: Seq<MaskedImage>, x: int, y: int, w: int) -> Rgba8
    decreases layers.len(),
{
    if layers.len() == 0 {
        transparent_pixel()
    } else if layers.last().mask.bit_at(x, y) {
        layers.last().image.pixel_at(x, y)
    } else {
        composite_pixel(layers.drop_last(), x, y, w)
    }
}

/// On layers of width `w`, the coordinate and flat readings agree.
proof fn lemma_composite_coord(layers: Seq<MaskedImage>, x: int, y: int, w: int, h: int)
    requires
        0 <= x < w,
        0 <= y < h,
        forall|k: int|
            0 <= k < layers.len() ==> (#[trigger] layers[k]).mask.width == w
                && layers[k].mask.height == h && layers[k].image.width == w
                && layers[k].image.height == h,
    ensures
        composite_pixel(layers, x, y, w) == composite_flat(layers, y * w + x),
    decreases layers.len(),
{
    if layers.len() > 0 {
        assert(layers[layers.len() - 1] == layers.last());
        lemma_composite_coord(layers.drop_last(), x, y, w, h);
    }
}

/// Builds one composite item texture out of masked component layers.
#[derive(Debug)]
pub struct TemplateComponentRenderer {
    pub width: u32,
    pub height: u32,
    pub layers: Vec<MaskedImage>,
}

impl TemplateComponentRenderer {
    /// Well-formed: the raster fits in memory and every layer is well-formed
    /// with the renderer's dimensions.
    pub open spec fn wf(self) -> bool {
        self.width as int * self.height as int <= usize::MAX && forall|k: int|
            0 <= k < self.layers@.len() ==> (#[trigger] self.layers@[k]).wf()
                && self.layers@[k].mask.width == self.width && self.layers@[k].mask.height
                == self.height
    }

    /// An empty renderer for a raster of the given size.
    pub fn new(size: (u32, u32)) -> (r: TemplateComponentRenderer)
        requires
            size.0 as int * size.1 as int <= usize::MAX,
        ensures
            r.wf(),
            r.width == size.0,
            r.height == size.1,
            r.layers@.len() == 0,
    {
        TemplateComponentRenderer { width: size.0, height: size.1, layers: Vec::new() }
    }

    /// Add one component layer on top; its dimensions must match the
    /// renderer's.
    pub fn add_layer(&mut self, layer: MaskedImage) -> (r: Result<(), TextureCompositeError>)
        requires
            old(self).wf(),
            layer.wf(),
        ensures
            final(self).wf(),
            final(self).width == old(self).width,
            final(self).height == old(self).height,
            layer.mask.width == old(self).width && layer.mask.height == old(self).height <==> r
                is Ok,
            r is Ok ==> final(self).layers@ == old(self).layers@.push(layer),
            r is Err ==> final(self).layers@ == old(self).layers@ && r == Err::<
                (),
                TextureCompositeError,
            >(TextureCompositeError::DimensionMismatch),
    {
        if layer.mask.width == self.width && layer.mask.height == self.height {
            self.layers.push(layer);
            Ok(())
        } else {
            Err(TextureCompositeError::DimensionMismatch)
        }
    }

    /// Paint the composite: start transparent, then copy, layer by layer,
    /// every mask-covered source pixel; later layers win where masks overlap.
    pub fn render(&self) -> (r: RasterImage)
        requires
            self.wf(),
        ensures
            r.wf(),
            r.width == self.width,
            r.height == self.height,
            forall|x: int, y: int|
                0 <= x < self.width && 0 <= y < self.height ==> r.pixel_at(x, y)
                    == composite_pixel(self.layers@, x, y, self.width as int),
    {
        let ghost w = self.width as int;
        let ghost h = self.height as int;
        let mut out = RasterImage::new(self.width, self.height, Rgba8::transparent());
        let mut k: usize = 0;
        proof {
            assert forall|i: int| 0 <= i < out.pixels@.len() implies out.pixels@[i]
                == composite_flat(self.layers@.take(0), i) by {
                assert(self.layers@.take(0) =~= Seq::<MaskedImage>::empty());
            }
        }
        while k < self.layers.len()
            invariant
                0 <= k <= self.layers.len(),
                self.wf(),
                out.wf(),
                out.width == self.width,
                out.height == self.height,
                forall|i: int|
                    0 <= i < out.pixels@.len() ==> out.pixels@[i] == composite_flat(
                        self.layers@.take(k as int),
                        i,
                    ),
            decreases self.layers.len() - k,
        {
            let layer = &self.layers[k];
            let ghost out_before = out;
            let mut i: usize = 0;
            while i < out.pixels.len()
                invariant
                    0 <= i <= out.pixels.len(),
                    self.wf(),
                    k < self.layers.len(),
                    layer == &self.layers@[k as int],
                    layer.wf(),
                    layer.mask.width == self.width && layer.mask.height == self.height,
                    out.wf(),
                    out.width == self.width,
                    out.height == self.height,
                    out.pixels@.len() == out_before.pixels@.len(),
                    forall|j: int|
                        0 <= j < i ==> out.pixels@[j] == (if layer.mask.bits@[j] {
                            layer.image.pixels@[j]
                        } else {
                            out_before.pixels@[j]
                        }),
                    forall|j: int|
                        i <= j < out.pixels@.len() ==> out.pixels@[j] == out_before.pixels@[j],
                decreases out.pixels.len() - i,
            {
                if layer.mask.bits[i] {
                    let p = layer.image.pixels[i];
                    out.pixels.set(i, p);
                }
                i = i + 1;
            }
            proof {
                assert forall|j: int| 0 <= j < out.pixels@.len() implies out.pixels@[j]
                    == composite_flat(self.layers@.take(k as int + 1), j) by {
                    assert(self.layers@.take(k as int + 1).drop_last() =~= self.layers@.take(
                        k as int,
                    ));
                    assert(self.layers@.take(k as int + 1).last() == self.layers@[k as int]);
                }
            }
            k = k + 1;
        }
        proof {
            assert(self.layers@.take(self.layers@.len() as int) =~= self.layers@);
            assert forall|x: int, y: int|
                0 <= x < self.width && 0 <= y < self.height implies out.pixel_at(x, y)
                == composite_pixel(self.layers@, x, y, w) by {
                lemma_flat_index(x, y, w, h);
                lemma_composite_coord(self.layers@, x, y, w, h);
            }
        }
        out
    }
}

} // verus!
