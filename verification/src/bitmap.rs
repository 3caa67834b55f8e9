//! Eight-bit greyscale rasters and the pixel operations the screens are built
//! from.

use image::GrayImage;
use vstd::prelude::*;

verus! {

/// Mathematical model of a raster: its size and its pixels row by row, the
/// top row first and each row from left to right.
pub struct BitmapView {
    pub width: nat,
    pub height: nat,
    pub pixels: Seq<u8>,
}

impl BitmapView {
    /// There is exactly one byte per pixel.
    pub open spec fn wf(self) -> bool {
        &&& self.width <= u32::MAX
        &&& self.height <= u32::MAX
        &&& self.pixels.len() == self.width * self.height
    }

    /// The raster of the given size over `pixels`.
    pub open spec fn of(width: u32, height: u32, pixels: Seq<u8>) -> Self {
        BitmapView { width: width as nat, height: height as nat, pixels }
    }

    /// The pixel in column `x` of row `y`.
    pub open spec fn pixel(self, x: int, y: int) -> u8 {
        self.pixels[y * self.width + x]
    }

    /// The all-black raster of the given size.
    pub open spec fn blank(width: nat, height: nat) -> Self {
        BitmapView { width, height, pixels: Seq::new(width * height, |i: int| 0u8) }
    }

    /// Every pixel replaced by its complement, so that lit and unlit swap.
    pub open spec fn inverted(self) -> Self {
        BitmapView {
            pixels: Seq::new(self.pixels.len(), |i: int| (255 - self.pixels[i]) as u8),
            ..self
        }
    }

    /// Black or white by the middle of the range.
    pub open spec fn threshold(p: u8) -> u8 {
        if p > 127 {
            255
        } else {
            0
        }
    }

    /// The raster reduced to black and white. One that is at least two
    /// pixels wide goes through error diffusion; a narrower one has no
    /// neighbour to pass an error to and is cut at the middle of the range.
    pub open spec fn dithered(self) -> Self {
        BitmapView {
            pixels: if self.width >= 2 && self.height >= 1 {
                bilevel_dither(self.width, self.height, self.pixels)
            } else {
                Seq::new(self.pixels.len(), |i: int| Self::threshold(self.pixels[i]))
            },
            ..self
        }
    }

    /// Whether the pixel with the given index lies under a raster of size
    /// `top_width` by `top_height` whose top left corner is put at `(x, y)`.
    pub open spec fn covers(
        self,
        i: int,
        top_width: nat,
        top_height: nat,
        x: nat,
        y: nat,
    ) -> bool {
        &&& x <= i % (self.width as int) < x + top_width
        &&& y <= i / (self.width as int) < y + top_height
    }

    /// `top` copied over this raster with its top left corner at `(x, y)`;
    /// what sticks out of this raster is cut off.
    pub open spec fn overlaid(self, top: BitmapView, x: nat, y: nat) -> Self {
        BitmapView {
            pixels: Seq::new(
                self.pixels.len(),
                |i: int|
                    if self.covers(i, top.width, top.height, x, y) {
                        top.pixel(i % (self.width as int) - x, i / (self.width as int) - y)
                    } else {
                        self.pixels[i]
                    },
            ),
            ..self
        }
    }
}

/// What `image::imageops::dither` with the `BiLevel` colour map leaves in a
/// greyscale buffer of the given size and contents.
pub uninterp spec fn bilevel_dither(width: nat, height: nat, pixels: Seq<u8>) -> Seq<u8>;

/// Calls `image::imageops::dither` with the `BiLevel` map on a copy of the
/// pixels. The contract claims that the call returns (it indexes the
/// neighbours of every pixel, hence the lower bounds on the size), that the
/// buffer keeps its length, and that its contents are a function of the
/// size and the pixels, named `bilevel_dither`.
#[verifier::external_body]
fn dither_pixels(width: u32, height: u32, pixels: &Vec<u8>) -> (out: Vec<u8>)
    requires
        width >= 2,
        height >= 1,
        pixels@.len() == width * height,
    ensures
        out@.len() == pixels@.len(),
        out@ == bilevel_dither(width as nat, height as nat, pixels@),
{
    let mut buffer = GrayImage::from_raw(width, height, pixels.clone()).unwrap();
    image::imageops::dither(&mut buffer, &image::imageops::BiLevel);
    buffer.into_raw()
}

/// Calls `image::imageops::invert` on a copy of the pixels. The contract
/// claims that every pixel comes back as 255 minus what it was.
#[verifier::external_body]
fn invert_pixels(width: u32, height: u32, pixels: &Vec<u8>) -> (out: Vec<u8>)
    requires
        pixels@.len() == width * height,
    ensures
        out@.len() == pixels@.len(),
        forall|i: int| 0 <= i < out@.len() ==> out@[i] == 255 - #[trigger] pixels@[i],
{
    let mut buffer = GrayImage::from_raw(width, height, pixels.clone()).unwrap();
    image::imageops::invert(&mut buffer);
    buffer.into_raw()
}

/// Calls `image::imageops::overlay` on a copy of the bottom pixels. The
/// contract claims that the pixels of the bottom raster under the top one
/// are replaced by those of the top one, that the others stay, and that the
/// part of the top raster beyond the right or lower edge of the bottom one
/// is dropped.
#[verifier::external_body]
fn overlay_pixels(
    width: u32,
    height: u32,
    pixels: &Vec<u8>,
    top_width: u32,
    top_height: u32,
    top_pixels: &Vec<u8>,
    x: u32,
    y: u32,
) -> (out: Vec<u8>)
    requires
        pixels@.len() == width * height,
        top_pixels@.len() == top_width * top_height,
    ensures
        out@ == BitmapView::of(width, height, pixels@).overlaid(
            BitmapView::of(top_width, top_height, top_pixels@),
            x as nat,
            y as nat,
        ).pixels,
{
    let mut bottom = GrayImage::from_raw(width, height, pixels.clone()).unwrap();
    let top = GrayImage::from_raw(top_width, top_height, top_pixels.clone()).unwrap();
    image::imageops::overlay(&mut bottom, &top, x, y);
    bottom.into_raw()
}

/// A greyscale raster with one byte per pixel.
#[derive(Debug)]
pub struct Bitmap {
    width: u32,
    height: u32,
    pixels: Vec<u8>,
}

impl View for Bitmap {
    type V = BitmapView;

    closed spec fn view(&self) -> BitmapView {
        BitmapView::of(self.width, self.height, self.pixels@)
    }
}

/// The models of a sequence of rasters.
pub open spec fn bitmap_views(rasters: Seq<Bitmap>) -> Seq<BitmapView> {
    rasters.map_values(|raster: Bitmap| raster@)
}

impl Clone for Bitmap {
    fn clone(&self) -> (out: Self)
        ensures
            out@ == self@,
    {
        proof {
            use_type_invariant(self);
        }
        Bitmap { width: self.width, height: self.height, pixels: self.pixels.clone() }
    }
}

impl Bitmap {
    #[verifier::type_invariant]
    spec fn inv(self) -> bool {
        self@.wf()
    }

    /// An all-black raster.
    pub fn new(width: u32, height: u32) -> (img: Bitmap)
        requires
            width * height <= usize::MAX,
        ensures
            img@ == BitmapView::blank(width as nat, height as nat),
            img@.wf(),
    {
        let pixels = vec![0u8; width as usize * height as usize];
        assert(pixels@ =~= Seq::new((width as nat) * (height as nat), |i: int| 0u8));
        Bitmap { width, height, pixels }
    }

    /// The raster of the given size over `pixels`, if there is one byte per
    /// pixel.
    pub fn from_raw(width: u32, height: u32, pixels: Vec<u8>) -> (img: Option<Bitmap>)
        ensures
            img is Some <==> pixels@.len() == width * height,
            img matches Some(b) ==> b@ == BitmapView::of(width, height, pixels@) && b@.wf(),
    {
        assert(width * height <= u64::MAX) by (nonlinear_arith)
            requires
                width <= u32::MAX,
                height <= u32::MAX,
        ;
        if pixels.len() as u64 == width as u64 * height as u64 {
            Some(Bitmap { width, height, pixels })
        } else {
            None
        }
    }

    /// Width in pixels.
    pub fn width(&self) -> (w: u32)
        ensures
            w == self@.width,
            self@.wf(),
    {
        proof {
            use_type_invariant(self);
        }
        self.width
    }

    /// Height in pixels.
    pub fn height(&self) -> (h: u32)
        ensures
            h == self@.height,
            self@.wf(),
    {
        proof {
            use_type_invariant(self);
        }
        self.height
    }

    /// The pixels row by row.
    pub fn pixels(&self) -> (p: &Vec<u8>)
        ensures
            p@ == self@.pixels,
            self@.wf(),
    {
        proof {
            use_type_invariant(self);
        }
        &self.pixels
    }

    /// The pixel in column `x` of row `y`.
    pub fn get_pixel(&self, x: u32, y: u32) -> (p: u8)
        requires
            x < self@.width,
            y < self@.height,
        ensures
            p == self@.pixel(x as int, y as int),
    {
        proof {
            use_type_invariant(self);
            assert(self.pixels.len() == self.pixels@.len());
            assert(y * self.width + x < self.width * self.height) by (nonlinear_arith)
                requires
                    x < self.width,
                    y < self.height,
            ;
        }
        self.pixels[y as usize * self.width as usize + x as usize]
    }

    /// The same raster with lit and unlit swapped.
    pub fn invert(&self) -> (out: Bitmap)
        ensures
            out@ == self@.inverted(),
            out@.wf(),
    {
        proof {
            use_type_invariant(self);
        }
        let pixels = invert_pixels(self.width, self.height, &self.pixels);
        assert(pixels@ =~= self@.inverted().pixels);
        Bitmap { width: self.width, height: self.height, pixels }
    }

    /// The raster reduced to black and white.
    pub fn dither(&self) -> (out: Bitmap)
        ensures
            out@ == self@.dithered(),
            out@.wf(),
    {
        proof {
            use_type_invariant(self);
        }
        if self.width >= 2 && self.height >= 1 {
            let pixels = dither_pixels(self.width, self.height, &self.pixels);
            Bitmap { width: self.width, height: self.height, pixels }
        } else {
            let mut pixels: Vec<u8> = Vec::new();
            let n = self.pixels.len();
            let mut i: usize = 0;
            while i < n
                invariant
                    n == self.pixels@.len(),
                    i <= n,
                    pixels@.len() == i,
                    forall|j: int|
                        0 <= j < i ==> pixels@[j] == BitmapView::threshold(
                            #[trigger] self.pixels@[j],
                        ),
                decreases n - i,
            {
                pixels.push(if self.pixels[i] > 127 { 255 } else { 0 });
                i = i + 1;
            }
            assert(pixels@ =~= self@.dithered().pixels);
            Bitmap { width: self.width, height: self.height, pixels }
        }
    }

    /// Copies `top` onto this raster with its top left corner at `(x, y)`.
    pub fn overlay(&mut self, top: &Bitmap, x: u32, y: u32)
        ensures
            final(self)@ == old(self)@.overlaid(top@, x as nat, y as nat),
            final(self)@.wf(),
    {
        proof {
            use_type_invariant(&*self);
            use_type_invariant(top);
        }
        let pixels = overlay_pixels(
            self.width,
            self.height,
            &self.pixels,
            top.width,
            top.height,
            &top.pixels,
            x,
            y,
        );
        self.pixels = pixels;
    }
}

} // verus!
