//! The 128x64 panel: which regions it takes, page-major bit packing and the
//! command and data transactions of its controller.
//!
//! The driver writes nothing itself. Every operation appends the
//! transactions it asks for to a queue, and the owner of the bus takes them
//! from there, in order, and writes them.

use crate::bitmap::{Bitmap, BitmapView};
use vstd::prelude::*;

verus! {

/// Columns of the panel.
pub const PANEL_WIDTH: u8 = 128;

/// Pages of the panel, each eight pixel rows tall.
pub const PANEL_PAGES: u8 = 8;

/// Register that takes controller commands.
pub const COMMAND_REGISTER: u8 = 0x00;

/// Register that takes display data.
pub const DATA_REGISTER: u8 = 0x40;

/// Most payload bytes the bus carries in one transaction.
pub const MAX_PAYLOAD: usize = 32;

/// Why a region was refused.
#[derive(Clone, Copy, Debug, PartialEq, Eq, Structural)]
pub enum InvalidDimensions {
    /// The region reaches beyond the last column or the last page.
    TooLarge,
    /// An image's height is zero or no multiple of eight.
    InvalidHeight,
    /// The region has no columns.
    ZeroWidth,
    /// The region has no pages.
    ZeroHeight,
}

/// One block write on the bus.
#[derive(Debug, PartialEq, Eq)]
pub struct BusWrite {
    pub register: u8,
    pub payload: Vec<u8>,
}

/// Mathematical model of a block write.
pub struct BusWriteView {
    pub register: u8,
    pub payload: Seq<u8>,
}

impl View for BusWrite {
    type V = BusWriteView;

    open spec fn view(&self) -> BusWriteView {
        BusWriteView { register: self.register, payload: self.payload@ }
    }
}

/// The models of a sequence of block writes.
pub open spec fn write_views(writes: Seq<BusWrite>) -> Seq<BusWriteView> {
    writes.map_values(|write: BusWrite| write@)
}

/// The commands that switch the panel on and configure it.
pub open spec fn init_sequence() -> Seq<u8> {
    seq![
        0xAEu8, 0x00, 0x10, 0x40, 0xB0, 0x81, 0xCF, 0xA1, 0xA6, 0xA8, 0x3F, 0xC8, 0xD3, 0x00,
        0xD5, 0x80, 0xD9, 0xF1, 0xDA, 0x12, 0xDB, 0x40, 0x8D, 0x14, 0x20, 0x00, 0xAF,
    ]
}

/// The write that carries `commands` to the command register.
pub open spec fn command_write(commands: Seq<u8>) -> BusWriteView {
    BusWriteView { register: COMMAND_REGISTER, payload: commands }
}

/// Whether `w` columns from `x` and `h` pages from `y` lie on the panel.
pub open spec fn window_fits(x: u8, y: u8, w: u8, h: u8) -> bool {
    &&& 0 < w
    &&& 0 < h
    &&& x + w <= PANEL_WIDTH
    &&& y + h <= PANEL_PAGES
}

/// Why a window is refused, if it is. A window beyond the panel is reported
/// before an empty one, a missing width before a missing height.
pub open spec fn window_fault(x: u8, y: u8, w: u8, h: u8) -> Option<InvalidDimensions> {
    if x + w > PANEL_WIDTH || y + h > PANEL_PAGES {
        Some(InvalidDimensions::TooLarge)
    } else if w == 0 {
        Some(InvalidDimensions::ZeroWidth)
    } else if h == 0 {
        Some(InvalidDimensions::ZeroHeight)
    } else {
        None
    }
}

/// The two commands that select columns `x ..= x + w - 1` and pages
/// `y ..= y + h - 1` for the data that follows.
pub open spec fn window_commands(x: u8, y: u8, w: u8, h: u8) -> Seq<u8> {
    seq![0x21u8, x, (x + w - 1) as u8, 0x22u8, y, (y + h - 1) as u8]
}

/// Number of transactions that `len` data bytes take.
pub open spec fn chunk_count(len: nat) -> nat {
    ((len + MAX_PAYLOAD - 1) / (MAX_PAYLOAD as int)) as nat
}

/// The `i`-th stretch of at most `MAX_PAYLOAD` bytes of `data`.
pub open spec fn chunk(data: Seq<u8>, i: int) -> Seq<u8> {
    data.subrange(
        i * MAX_PAYLOAD,
        if (i + 1) * MAX_PAYLOAD <= data.len() {
            (i + 1) * MAX_PAYLOAD
        } else {
            data.len() as int
        },
    )
}

/// The data-register writes that stream `data` in full chunks, the last one
/// holding the rest.
pub open spec fn data_writes(data: Seq<u8>) -> Seq<BusWriteView> {
    Seq::new(
        chunk_count(data.len()),
        |i: int| BusWriteView { register: DATA_REGISTER, payload: chunk(data, i) },
    )
}

/// What selecting a window and filling it with `data` puts on the bus.
pub open spec fn region_writes(x: u8, y: u8, w: u8, h: u8, data: Seq<u8>) -> Seq<BusWriteView> {
    seq![command_write(window_commands(x, y, w, h))] + data_writes(data)
}

/// What clearing a window puts on the bus: one zero byte for every column
/// of every page of it.
pub open spec fn clear_writes(x: u8, y: u8, w: u8, h: u8) -> Seq<BusWriteView> {
    region_writes(x, y, w, h, Seq::new((w * h) as nat, |i: int| 0u8))
}

/// Whether the pixel in column `col` and row `bit` of page `page` is lit,
/// as a number: white counts, every other value does not.
pub open spec fn lit(img: BitmapView, page: int, col: int, bit: int) -> int {
    if img.pixel(col, page * 8 + bit) == 255 {
        1
    } else {
        0
    }
}

/// The rows `from .. 8` of one column of a page as a binary number, row
/// `from` in the lowest bit.
pub open spec fn column_bits(img: BitmapView, page: int, col: int, from: int) -> int
    decreases 8 - from,
{
    if from >= 8 {
        0
    } else {
        lit(img, page, col, from) + 2 * column_bits(img, page, col, from + 1)
    }
}

/// The byte that stands for one column of a page: its top pixel in the
/// least significant bit, its bottom pixel in the most significant one.
pub open spec fn column_byte(img: BitmapView, page: int, col: int) -> u8 {
    column_bits(img, page, col, 0) as u8
}

/// The raster in the panel's own format: page after page from the top,
/// in each page one byte per column from the left. Rows below the last
/// full page are left out.
pub open spec fn packed(img: BitmapView) -> Seq<u8> {
    Seq::new(
        img.width * (img.height / 8),
        |k: int| column_byte(img, k / (img.width as int), k % (img.width as int)),
    )
}

/// Why an image is refused at column `x` and page `page_y`, if it is: too
/// wide, then a height that is no positive multiple of eight, then too
/// tall, then no columns at all.
pub open spec fn image_fault(img: BitmapView, x: u8, page_y: u8) -> Option<InvalidDimensions> {
    if x + img.width > PANEL_WIDTH {
        Some(InvalidDimensions::TooLarge)
    } else if img.height == 0 || img.height % 8 != 0 {
        Some(InvalidDimensions::InvalidHeight)
    } else if page_y + img.height / 8 > PANEL_PAGES {
        Some(InvalidDimensions::TooLarge)
    } else if img.width == 0 {
        Some(InvalidDimensions::ZeroWidth)
    } else {
        None
    }
}

/// What drawing an image at column `x` and page `page_y` puts on the bus:
/// the window of its size, then its black-and-white form, packed.
pub open spec fn image_writes(img: BitmapView, x: u8, page_y: u8) -> Seq<BusWriteView> {
    region_writes(x, page_y, img.width as u8, (img.height / 8) as u8, packed(img.dithered()))
}

/// Streaming cuts the data into full transactions and one last for the
/// rest: no write is empty or longer than the bus takes, and byte `j` of
/// the data travels as byte `j % MAX_PAYLOAD` of write `j / MAX_PAYLOAD`.
pub proof fn lemma_data_writes(data: Seq<u8>)
    ensures
        all_fit_bus(data_writes(data)),
        forall|i: int|
            0 <= i < data_writes(data).len() ==> (#[trigger] data_writes(data)[i]).register
                == DATA_REGISTER && data_writes(data)[i].payload.len() > 0,
        forall|i: int|
            0 <= i < data_writes(data).len() - 1 ==> (#[trigger] data_writes(
                data,
            )[i]).payload.len() == MAX_PAYLOAD,
        forall|j: int|
            0 <= j < data.len() ==> j / (MAX_PAYLOAD as int) < data_writes(data).len()
                && data_writes(data)[j / (MAX_PAYLOAD as int)].payload[j % (MAX_PAYLOAD as int)]
                == #[trigger] data[j],
{
}

/// Whether an image lies on the panel with its top left corner at column
/// `x` of page `page_y` and covers whole pages.
pub open spec fn image_fits(img: BitmapView, x: u8, page_y: u8) -> bool {
    &&& 0 < img.width
    &&& 0 < img.height
    &&& img.height % 8 == 0
    &&& x + img.width <= PANEL_WIDTH
    &&& page_y + img.height / 8 <= PANEL_PAGES
}

/// A window is taken exactly if it is not empty and lies on the panel, an
/// image exactly if it lies on the panel and covers whole pages.
pub proof fn lemma_accepted(img: BitmapView, x: u8, y: u8, w: u8, h: u8)
    ensures
        window_fault(x, y, w, h) is None <==> window_fits(x, y, w, h),
        image_fault(img, x, y) is None <==> image_fits(img, x, y),
{
}

/// An image of height nine is refused wherever it is put, an image with at
/// least one column is refused at column 128, and an image of height eight
/// is refused at page 8.
pub proof fn lemma_image_refused(img: BitmapView, x: u8, page_y: u8)
    ensures
        img.height == 9 ==> image_fault(img, x, page_y) is Some,
        img.width > 0 ==> image_fault(img, 128, page_y) is Some,
        img.height == 8 ==> image_fault(img, x, 8) is Some,
{
}

/// Every value of `column_bits` fits in a byte.
pub proof fn lemma_column_bits_bounds(img: BitmapView, page: int, col: int, from: int)
    requires
        0 <= from <= 8,
    ensures
        0 <= column_bits(img, page, col, from) <= 255,
{
    reveal_with_fuel(column_bits, 9);
}

/// Bit `bit` of a column's byte is set exactly where the pixel in row `bit`
/// of the page is white.
pub proof fn lemma_column_byte_bit(img: BitmapView, page: int, col: int, bit: int)
    requires
        0 <= bit < 8,
    ensures
        (column_byte(img, page, col) >> (bit as u8)) & 1 == lit(img, page, col, bit),
{
    reveal_with_fuel(column_bits, 9);
    let b0 = lit(img, page, col, 0) as u8;
    let b1 = lit(img, page, col, 1) as u8;
    let b2 = lit(img, page, col, 2) as u8;
    let b3 = lit(img, page, col, 3) as u8;
    let b4 = lit(img, page, col, 4) as u8;
    let b5 = lit(img, page, col, 5) as u8;
    let b6 = lit(img, page, col, 6) as u8;
    let b7 = lit(img, page, col, 7) as u8;
    let byte = column_byte(img, page, col);
    let k = bit as u8;
    assert((byte >> k) & 1 == if k == 0 {
        b0
    } else if k == 1 {
        b1
    } else if k == 2 {
        b2
    } else if k == 3 {
        b3
    } else if k == 4 {
        b4
    } else if k == 5 {
        b5
    } else if k == 6 {
        b6
    } else {
        b7
    }) by (bit_vector)
        requires
            k < 8,
            b0 <= 1,
            b1 <= 1,
            b2 <= 1,
            b3 <= 1,
            b4 <= 1,
            b5 <= 1,
            b6 <= 1,
            b7 <= 1,
            byte == b0 + 2 * b1 + 4 * b2 + 8 * b3 + 16 * b4 + 32 * b5 + 64 * b6 + 128 * b7,
    ;
}

/// The byte of column `col` in page `page`.
fn pack_column(img: &Bitmap, page: u32, col: u32) -> (byte: u8)
    requires
        img@.wf(),
        col < img@.width,
        page * 8 + 8 <= img@.height,
    ensures
        byte == column_byte(img@, page as int, col as int),
{
    let mut bits: u8 = 0;
    let mut row: u32 = 8;
    while row > 0
        invariant
            row <= 8,
            img@.wf(),
            col < img@.width,
            page * 8 + 8 <= img@.height,
            bits == column_bits(img@, page as int, col as int, row as int),
        decreases row,
    {
        row = row - 1;
        let white: u8 = if img.get_pixel(col, page * 8 + row) == 255 { 1 } else { 0 };
        proof {
            lemma_column_bits_bounds(img@, page as int, col as int, row as int);
            assert(((bits << 1) | white) == 2 * bits + white) by (bit_vector)
                requires
                    bits <= 127,
                    white <= 1,
            ;
        }
        bits = (bits << 1) | white;
    }
    bits
}

/// The raster in the panel's own format.
pub fn pack(img: &Bitmap) -> (data: Vec<u8>)
    ensures
        data@ == packed(img@),
{
    let width = img.width();
    let pages = img.height() / 8;
    let mut data: Vec<u8> = Vec::new();
    let mut page: u32 = 0;
    while page < pages
        invariant
            img@.wf(),
            width == img@.width,
            pages == img@.height / 8,
            page <= pages,
            data@.len() == page * width,
            forall|k: int|
                0 <= k < data@.len() ==> data@[k] == column_byte(
                    img@,
                    k / (width as int),
                    k % (width as int),
                ),
        decreases pages - page,
    {
        let mut col: u32 = 0;
        while col < width
            invariant
                img@.wf(),
                width == img@.width,
                pages == img@.height / 8,
                page < pages,
                col <= width,
                data@.len() == page * width + col,
                forall|k: int|
                    0 <= k < data@.len() ==> data@[k] == column_byte(
                        img@,
                        k / (width as int),
                        k % (width as int),
                    ),
            decreases width - col,
        {
            let byte = pack_column(img, page, col);
            proof {
                vstd::arithmetic::div_mod::lemma_fundamental_div_mod_converse(
                    page * width + col,
                    width as int,
                    page as int,
                    col as int,
                );
            }
            data.push(byte);
            col = col + 1;
        }
        page = page + 1;
        assert(data@.len() == page * width) by (nonlinear_arith)
            requires
                data@.len() == (page - 1) * width + width,
        ;
    }
    assert(data@.len() == img@.width * (img@.height / 8)) by (nonlinear_arith)
        requires
            data@.len() == pages * width,
            width == img@.width,
            pages == img@.height / 8,
    ;
    data
}

/// The panel driver: a queue of the transactions that have been asked for
/// and not yet taken off for writing.
#[derive(Debug)]
pub struct NanoHatOLED {
    pending: Vec<BusWrite>,
}

impl View for NanoHatOLED {
    type V = Seq<BusWriteView>;

    closed spec fn view(&self) -> Seq<BusWriteView> {
        write_views(self.pending@)
    }
}

/// Whether every write fits in one bus transaction.
pub open spec fn all_fit_bus(writes: Seq<BusWriteView>) -> bool {
    forall|i: int| 0 <= i < writes.len() ==> (#[trigger] writes[i]).payload.len() <= MAX_PAYLOAD
}

impl NanoHatOLED {
    #[verifier::type_invariant]
    spec fn inv(self) -> bool {
        all_fit_bus(self@)
    }

    /// A driver whose queue holds the initialisation sequence, as one write
    /// to the command register.
    pub fn open() -> (oled: Self)
        ensures
            oled@ == seq![command_write(init_sequence())],
    {
        let commands: Vec<u8> = vec![
            0xAE, 0x00, 0x10, 0x40, 0xB0, 0x81, 0xCF, 0xA1, 0xA6, 0xA8, 0x3F, 0xC8, 0xD3, 0x00,
            0xD5, 0x80, 0xD9, 0xF1, 0xDA, 0x12, 0xDB, 0x40, 0x8D, 0x14, 0x20, 0x00, 0xAF,
        ];
        let mut oled = NanoHatOLED { pending: Vec::new() };
        oled.send_commands(commands);
        oled
    }

    /// Queues one write of `commands` to the command register.
    fn send_commands(&mut self, commands: Vec<u8>)
        requires
            commands@.len() <= MAX_PAYLOAD,
        ensures
            final(self)@ == old(self)@.push(command_write(commands@)),
    {
        proof {
            use_type_invariant(&*self);
        }
        let mut pending: Vec<BusWrite> = Vec::new();
        core::mem::swap(&mut pending, &mut self.pending);
        pending.push(BusWrite { register: COMMAND_REGISTER, payload: commands });
        assert(write_views(pending@) =~= old(self)@.push(command_write(commands@)));
        self.pending = pending;
    }

    /// Queues the writes that stream `data` to the data register.
    fn send_data(&mut self, data: &Vec<u8>)
        ensures
            final(self)@ == old(self)@ + data_writes(data@),
    {
        proof {
            use_type_invariant(&*self);
        }
        let mut pending: Vec<BusWrite> = Vec::new();
        core::mem::swap(&mut pending, &mut self.pending);
        let n = data.len();
        let count = n / MAX_PAYLOAD + (if n % MAX_PAYLOAD == 0 { 0 } else { 1 });
        let mut k: usize = 0;
        while k < count
            invariant
                n == data@.len(),
                count == chunk_count(data@.len()),
                k <= count,
                write_views(pending@) == old(self)@ + data_writes(data@).take(k as int),
                all_fit_bus(write_views(pending@)),
            decreases count - k,
        {
            let from = k * MAX_PAYLOAD;
            let to = if n - from > MAX_PAYLOAD { from + MAX_PAYLOAD } else { n };
            let mut payload: Vec<u8> = Vec::new();
            let mut i = from;
            while i < to
                invariant
                    from <= i <= to <= n,
                    n == data@.len(),
                    payload@ == data@.subrange(from as int, i as int),
                decreases to - i,
            {
                payload.push(data[i]);
                i = i + 1;
            }
            let ghost before = write_views(pending@);
            pending.push(BusWrite { register: DATA_REGISTER, payload });
            proof {
                let after = write_views(pending@);
                assert(after =~= before.push(data_writes(data@)[k as int]));
                assert(data_writes(data@).take(k + 1) =~= data_writes(data@).take(k as int).push(
                    data_writes(data@)[k as int],
                ));
            }
            k = k + 1;
        }
        self.pending = pending;
    }

    /// Selects `w` columns from `x` and `h` pages from `y` for the data
    /// that follows. A window that is empty or reaches beyond the panel is
    /// refused and queues nothing.
    pub fn set_draw_range(&mut self, x: u8, y: u8, w: u8, h: u8) -> (r: Result<
        (),
        InvalidDimensions,
    >)
        ensures
            match window_fault(x, y, w, h) {
                None => r is Ok && final(self)@ == old(self)@.push(
                    command_write(window_commands(x, y, w, h)),
                ),
                Some(fault) => r == Err::<(), InvalidDimensions>(fault) && final(self)@ == old(
                    self,
                )@,
            },
    {
        if x as u16 + w as u16 > PANEL_WIDTH as u16 || y as u16 + h as u16 > PANEL_PAGES as u16 {
            return Err(InvalidDimensions::TooLarge);
        }
        if w == 0 {
            return Err(InvalidDimensions::ZeroWidth);
        }
        if h == 0 {
            return Err(InvalidDimensions::ZeroHeight);
        }
        let commands: Vec<u8> = vec![0x21, x, x + w - 1, 0x22, y, y + h - 1];
        self.send_commands(commands);
        Ok(())
    }

    /// Selects the whole panel.
    pub fn reset_draw_range(&mut self)
        ensures
            final(self)@ == old(self)@.push(
                command_write(window_commands(0, 0, PANEL_WIDTH, PANEL_PAGES)),
            ),
    {
        let selected = self.set_draw_range(0, 0, PANEL_WIDTH, PANEL_PAGES);
        assert(selected is Ok);
    }

    /// Draws `img` with its top left corner at column `x` of page `page_y`:
    /// the image is reduced to black and white, packed, and streamed into
    /// the window of its size. An image that does not fit, or whose height
    /// is no positive multiple of eight, is refused and queues nothing.
    pub fn draw_image(&mut self, img: &Bitmap, x: u8, page_y: u8) -> (r: Result<
        (),
        InvalidDimensions,
    >)
        ensures
            match image_fault(img@, x, page_y) {
                None => r is Ok && final(self)@ == old(self)@ + image_writes(img@, x, page_y),
                Some(fault) => r == Err::<(), InvalidDimensions>(fault) && final(self)@ == old(
                    self,
                )@,
            },
    {
        let w = img.width();
        let h = img.height() / 8;
        let rem = img.height() % 8;
        if x as u64 + w as u64 > PANEL_WIDTH as u64 {
            return Err(InvalidDimensions::TooLarge);
        }
        if rem != 0 || h == 0 {
            return Err(InvalidDimensions::InvalidHeight);
        }
        if page_y as u64 + h as u64 > PANEL_PAGES as u64 {
            return Err(InvalidDimensions::TooLarge);
        }
        let data = pack(&img.dither());
        let selected = self.set_draw_range(x, page_y, w as u8, h as u8);
        match selected {
            Err(fault) => Err(fault),
            Ok(()) => {
                self.send_data(&data);
                Ok(())
            },
        }
    }

    /// Blanks `w` columns from `x` of `h` pages from `y`. A window that is
    /// empty or reaches beyond the panel is refused and queues nothing.
    pub fn clear(&mut self, x: u8, y: u8, w: u8, h: u8) -> (r: Result<(), InvalidDimensions>)
        ensures
            match window_fault(x, y, w, h) {
                None => r is Ok && final(self)@ == old(self)@ + clear_writes(x, y, w, h),
                Some(fault) => r == Err::<(), InvalidDimensions>(fault) && final(self)@ == old(
                    self,
                )@,
            },
    {
        let selected = self.set_draw_range(x, y, w, h);
        match selected {
            Err(fault) => Err(fault),
            Ok(()) => {
                assert(w * h <= 1024) by (nonlinear_arith)
                    requires
                        w <= 128,
                        h <= 8,
                ;
                let data = vec![0u8; w as usize * h as usize];
                assert(data@ =~= Seq::new((w * h) as nat, |i: int| 0u8));
                self.send_data(&data);
                Ok(())
            },
        }
    }

    /// The queued writes, oldest first; the queue is empty afterwards.
    pub fn take_pending(&mut self) -> (writes: Vec<BusWrite>)
        ensures
            write_views(writes@) == old(self)@,
            all_fit_bus(old(self)@),
            final(self)@ == Seq::<BusWriteView>::empty(),
    {
        proof {
            use_type_invariant(&*self);
        }
        let mut writes: Vec<BusWrite> = Vec::new();
        core::mem::swap(&mut writes, &mut self.pending);
        writes
    }
}

} // verus!
