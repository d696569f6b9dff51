//! Screenshot encoding: back buffer rows to BMP and PNG files, and the bookkeeping
//! around a capture.

use crate::bytes;
use crate::bytes::{push_all, push_u16, push_u32, to_vec};
use crate::d3d;
use crate::d3d::{
    is_ok, Format, HResult, D3DFMT_A1R5G5B5, D3DFMT_A8R8G8B8, D3DFMT_R5G6B5, D3DFMT_X1R5G5B5, D3DFMT_X8R8G8B8,
};
use crate::text;
use crate::nonzero::NonZeroUsize;
use crate::text::{owned, push_decimal, push_number};
use crate::untrusted;
use crate::untrusted::safe_read_until;
use vstd::prelude::*;
use vstd::slice::slice_subrange;

verus! {

/// Back buffer pixel layouts that can be captured.
#[derive(Clone, Copy, Debug, PartialEq, Eq, Structural)]
pub enum SourceFormat {
    /// 32-bit BGRX or BGRA; the fourth byte is dropped.
    Bgrx8888,
    /// 16-bit 5:6:5.
    Bgr565,
    /// 16-bit (1|X):5:5:5; the top bit is dropped.
    Bgr555,
}

/// Expands a 5-bit channel to 8 bits: the upper bits are repeated below.
pub open spec fn expanded5(c: int) -> u8 {
    ((c % 32) * 8 + (c % 32) / 4) as u8
}

/// Expands a 6-bit channel to 8 bits.
pub open spec fn expanded6(c: int) -> u8 {
    ((c % 64) * 4 + (c % 64) / 16) as u8
}

fn expand5(c: u16) -> (res: u8)
    ensures
        res == expanded5(c as int),
{
    ((c % 32) * 8 + (c % 32) / 4) as u8
}

fn expand6(c: u16) -> (res: u8)
    ensures
        res == expanded6(c as int),
{
    ((c % 64) * 4 + (c % 64) / 16) as u8
}

impl SourceFormat {
    /// The layout of a back buffer format, where it can be captured.
    pub open spec fn of_d3d(format: Format) -> Option<SourceFormat> {
        if format == D3DFMT_X8R8G8B8 || format == D3DFMT_A8R8G8B8 {
            Some(SourceFormat::Bgrx8888)
        } else if format == D3DFMT_R5G6B5 {
            Some(SourceFormat::Bgr565)
        } else if format == D3DFMT_X1R5G5B5 || format == D3DFMT_A1R5G5B5 {
            Some(SourceFormat::Bgr555)
        } else {
            None
        }
    }

    /// The layout of `format`, or an error that names it.
    pub fn from_d3d(format: Format) -> (res: Result<SourceFormat, String>)
        ensures
            match res {
                Ok(source) => SourceFormat::of_d3d(format) == Some(source),
                Err(e) => {
                    &&& SourceFormat::of_d3d(format) is None
                    &&& e@ == "unsupported back buffer format 0x"@ + text::hex(format as nat)
                },
            },
    {
        if format == D3DFMT_X8R8G8B8 || format == D3DFMT_A8R8G8B8 {
            Ok(SourceFormat::Bgrx8888)
        } else if format == D3DFMT_R5G6B5 {
            Ok(SourceFormat::Bgr565)
        } else if format == D3DFMT_X1R5G5B5 || format == D3DFMT_A1R5G5B5 {
            Ok(SourceFormat::Bgr555)
        } else {
            let mut e = owned("unsupported back buffer format 0x");
            push_number(&mut e, format as u64, 16);
            Err(e)
        }
    }

    pub open spec fn pixel_size(self) -> nat {
        match self {
            SourceFormat::Bgrx8888 => 4,
            SourceFormat::Bgr565 | SourceFormat::Bgr555 => 2,
        }
    }

    pub fn bytes_per_pixel(self) -> (n: usize)
        ensures
            n == self.pixel_size(),
    {
        match self {
            SourceFormat::Bgrx8888 => 4,
            SourceFormat::Bgr565 | SourceFormat::Bgr555 => 2,
        }
    }

    /// The blue, green and red channels of the pixel at `at`.
    pub open spec fn pixel(self, src: Seq<u8>, at: int) -> Seq<u8> {
        let v = bytes::u16_at(src, at) as int;
        match self {
            SourceFormat::Bgrx8888 => seq![src[at], src[at + 1], src[at + 2]],
            SourceFormat::Bgr565 => seq![
                expanded5(v),
                expanded6(v / 32),
                expanded5(v / 2048),
            ],
            SourceFormat::Bgr555 => seq![
                expanded5(v),
                expanded5(v / 32),
                expanded5(v / 1024),
            ],
        }
    }

    /// Decodes the pixel at `at` to blue, green and red.
    pub fn decode(self, src: &[u8], at: usize) -> (bgr: [u8; 3])
        requires
            at + self.pixel_size() <= src@.len(),
        ensures
            bgr@ == self.pixel(src@, at as int),
    {
        let bgr: [u8; 3] = match self {
            SourceFormat::Bgrx8888 => [src[at], src[at + 1], src[at + 2]],
            SourceFormat::Bgr565 => {
                let v: u16 = src[at] as u16 + 0x100 * (src[at + 1] as u16);
                [expand5(v), expand6(v / 32), expand5(v / 2048)]
            },
            SourceFormat::Bgr555 => {
                let v: u16 = src[at] as u16 + 0x100 * (src[at + 1] as u16);
                [expand5(v), expand5(v / 32), expand5(v / 1024)]
            },
        };
        assert(bgr@ =~= self.pixel(src@, at as int));
        bgr
    }
}

/// Expanding a channel keeps its extremes: black stays black and full stays full, and a
/// brighter channel stays brighter.
pub proof fn lemma_expand(a: int, b: int)
    ensures
        expanded5(0) == 0,
        expanded5(31) == 255,
        expanded6(0) == 0,
        expanded6(63) == 255,
        0 <= a < b < 32 ==> expanded5(a) < expanded5(b),
        0 <= a < b < 64 ==> expanded6(a) < expanded6(b),
{
}

/// A locked surface: `height` rows of `width` pixels, `pitch` bytes apart. With a negative
/// pitch the first row is the last in memory.
#[derive(Clone, Copy, Debug, PartialEq, Eq, Structural)]
pub struct Surface {
    pub width: u32,
    pub height: u32,
    pub pitch: i32,
    pub format: SourceFormat,
}

impl Surface {
    /// Where row `y` starts.
    pub open spec fn row_start(self, y: int) -> int {
        if self.pitch < 0 {
            (self.height - 1 - y) * (-self.pitch)
        } else {
            y * self.pitch
        }
    }

    pub open spec fn row_size(self) -> int {
        self.width * self.format.pixel_size()
    }

    /// Whether all rows lie within `len` bytes.
    pub open spec fn fits(self, len: int) -> bool {
        forall|y: int|
            0 <= y < self.height ==> #[trigger] self.row_start(y) + self.row_size() <= len
    }

    /// The three channels of pixel (`x`, `y`), blue first or red first.
    pub open spec fn channels(self, src: Seq<u8>, x: int, y: int, red_first: bool) -> Seq<u8> {
        let bgr = self.format.pixel(src, self.row_start(y) + x * self.format.pixel_size());
        if red_first {
            bgr.reverse()
        } else {
            bgr
        }
    }

    /// The first `n` pixels of row `y`.
    pub open spec fn row(self, src: Seq<u8>, y: int, n: nat, red_first: bool) -> Seq<u8>
        decreases n,
    {
        if n == 0 {
            seq![]
        } else {
            self.row(src, y, (n - 1) as nat, red_first) + self.channels(src, n - 1, y, red_first)
        }
    }

    /// Whether the row numbers fit the offset type.
    pub open spec fn addressable(self) -> bool {
        self.height - 1 <= isize::MAX
    }

    proof fn lemma_row(self, src: Seq<u8>, y: int, n: nat, red_first: bool, x: int)
        ensures
            self.row(src, y, n, red_first).len() == 3 * n,
            0 <= x < n ==> self.row(src, y, n, red_first).subrange(3 * x, 3 * x + 3)
                == self.channels(src, x, y, red_first),
        decreases n,
    {
        if n > 0 {
            self.lemma_row(src, y, (n - 1) as nat, red_first, x);
            let shorter = self.row(src, y, (n - 1) as nat, red_first);
            let last = self.channels(src, n - 1, y, red_first);
            assert(last.len() == 3);
            if 0 <= x < n {
                if x == n - 1 {
                    assert((shorter + last).subrange(3 * x, 3 * x + 3) =~= last);
                } else {
                    assert((shorter + last).subrange(3 * x, 3 * x + 3) =~= shorter.subrange(
                        3 * x,
                        3 * x + 3,
                    ));
                }
            }
        }
    }
}

/// Appends row `y` of a surface, each pixel as three bytes.
fn push_row(out: &mut Vec<u8>, src: &[u8], surface: &Surface, y: u32, red_first: bool)
    requires
        surface.fits(src@.len() as int),
        y < surface.height,
    ensures
        final(out)@ == old(out)@ + surface.row(src@, y as int, surface.width as nat, red_first),
{
    let size: usize = surface.format.bytes_per_pixel();
    let row: u32 = if surface.pitch < 0 {
        surface.height - 1 - y
    } else {
        y
    };
    let step: u32 = if surface.pitch < 0 {
        (-(surface.pitch as i64)) as u32
    } else {
        surface.pitch as u32
    };
    let ghost start = surface.row_start(y as int);
    assert(start == row * step);
    assert(row * step >= 0) by (nonlinear_arith)
        requires
            row >= 0,
            step >= 0,
    ;
    assert(surface.row_size() >= 0) by (nonlinear_arith)
        requires
            surface.row_size() == surface.width * surface.format.pixel_size(),
            surface.width >= 0,
            surface.format.pixel_size() >= 0,
    ;
    assert(row * step <= src.len());
    let first: usize = row as usize * step as usize;
    let mut at: usize = first;
    let mut x: u32 = 0;
    let ghost row_pixels = surface.row(src@, y as int, 0, red_first);
    assert(out@ =~= old(out)@ + row_pixels);
    while x < surface.width
        invariant
            x <= surface.width,
            y < surface.height,
            size == surface.format.pixel_size(),
            first == surface.row_start(y as int),
            at == first + x * size,
            first + surface.row_size() <= src.len(),
            out@ == old(out)@ + surface.row(src@, y as int, x as nat, red_first),
        decreases surface.width - x,
    {
        assert(x * size + size <= surface.row_size()) by (nonlinear_arith)
            requires
                x < surface.width,
                size == surface.format.pixel_size(),
                surface.row_size() == surface.width * surface.format.pixel_size(),
        ;
        let bgr: [u8; 3] = surface.format.decode(src, at);
        if red_first {
            out.push(bgr[2]);
            out.push(bgr[1]);
            out.push(bgr[0]);
        } else {
            out.push(bgr[0]);
            out.push(bgr[1]);
            out.push(bgr[2]);
        }
        proof {
            let px = surface.channels(src@, x as int, y as int, red_first);
            let tail = seq![bgr@[0], bgr@[1], bgr@[2]];
            if red_first {
                assert(px =~= seq![bgr@[2], bgr@[1], bgr@[0]]);
            } else {
                assert(px =~= tail);
            }
            assert(out@ =~= old(out)@ + surface.row(src@, y as int, (x + 1) as nat, red_first));
            assert((x + 1) * size == x * size + size) by (nonlinear_arith);
        }
        at = at + size;
        x = x + 1;
    }
}

/// The bytes of filling behind a row of `3 * width` bytes, which ends on a multiple of four.
pub open spec fn row_padding(width: int) -> int {
    (4 - 3 * width % 4) % 4
}

/// The size of a row in the file.
pub open spec fn padded_row(width: int) -> int {
    3 * width + row_padding(width)
}

/// The file header of a bitmap with `data` bytes of pixels.
#[verifier::opaque]
pub open spec fn bmp_file_header(data: int) -> Seq<u8> {
    seq![0x42u8, 0x4du8] + bytes::le32((54 + data) as u32) + bytes::le16(0) + bytes::le16(0)
        + bytes::le32(54)
}

/// The information header of an uncompressed 24-bit bitmap, rows bottom-up.
#[verifier::opaque]
pub open spec fn bmp_info_header(width: u32, height: u32, data: int) -> Seq<u8> {
    bytes::le32(40) + bytes::le32(width) + bytes::le32(height) + bytes::le16(1) + bytes::le16(24)
        + bytes::le32(0) + bytes::le32(data as u32) + bytes::le32(0) + bytes::le32(0)
        + bytes::le32(0) + bytes::le32(0)
}

/// What stands in front of the pixels.
pub open spec fn bmp_header(width: u32, height: u32) -> Seq<u8> {
    let data = padded_row(width as int) * height;
    bmp_file_header(data) + bmp_info_header(width, height, data)
}

/// The last `n` rows of a surface, bottom-up, each filled up.
pub open spec fn bmp_rows(surface: Surface, src: Seq<u8>, n: nat) -> Seq<u8>
    decreases n,
{
    if n == 0 {
        seq![]
    } else {
        bmp_rows(surface, src, (n - 1) as nat) + surface.row(
            src,
            surface.height - n,
            surface.width as nat,
            false,
        ) + Seq::new(row_padding(surface.width as int) as nat, |i: int| 0u8)
    }
}

/// The bitmap file of a surface.
pub open spec fn bmp_file(surface: Surface, src: Seq<u8>) -> Seq<u8> {
    bmp_header(surface.width, surface.height) + bmp_rows(surface, src, surface.height as nat)
}

/// Why no bitmap can be made of a surface, in the order of precedence.
pub open spec fn bmp_error(surface: Surface) -> Option<Seq<char>> {
    let data = padded_row(surface.width as int) * surface.height;
    if 3 * surface.width > u32::MAX {
        Some("width too large"@)
    } else if data > u32::MAX {
        Some("image too large"@)
    } else if 54 + data > u32::MAX {
        Some("file size overflow"@)
    } else if !surface.addressable() {
        Some("out of range integral type conversion attempted"@)
    } else {
        None
    }
}

fn push_bmp_header(out: &mut Vec<u8>, width: u32, height: u32, data: u32)
    requires
        data == padded_row(width as int) * height,
        54 + data <= u32::MAX,
        old(out)@.len() == 0,
    ensures
        final(out)@ == bmp_header(width, height),
{
    reveal(bmp_file_header);
    reveal(bmp_info_header);
    out.push(0x42);
    out.push(0x4d);
    assert(out@ =~= seq![0x42u8, 0x4du8]);
    push_u32(out, 54 + data);
    push_u16(out, 0);
    push_u16(out, 0);
    push_u32(out, 54);
    let ghost front = out@;
    push_u32(out, 40);
    push_u32(out, width);
    push_u32(out, height);
    push_u16(out, 1);
    push_u16(out, 24);
    push_u32(out, 0);
    push_u32(out, data);
    push_u32(out, 0);
    push_u32(out, 0);
    push_u32(out, 0);
    push_u32(out, 0);
    assert(out@ =~= front + bmp_info_header(width, height, data as int));
}

/// Constructs a 24-bit BGR Windows bitmap, rows bottom-up.
pub fn build_bmp_24bpp(
    width: u32,
    height: u32,
    pitch: i32,
    src: &[u8],
    format: SourceFormat,
) -> (res: Result<Vec<u8>, String>)
    requires
        (Surface { width, height, pitch, format }).fits(src@.len() as int),
        padded_row(width as int) <= u32::MAX || 3 * width > u32::MAX,
    ensures
        match res {
            Ok(file) => {
                &&& bmp_error(Surface { width, height, pitch, format }) is None
                &&& file@ == bmp_file(Surface { width, height, pitch, format }, src@)
            },
            Err(e) => bmp_error(Surface { width, height, pitch, format }) == Some(e@),
        },
{
    let surface = Surface { width, height, pitch, format };
    let unpadded: u32 = match width.checked_mul(3) {
        Some(n) => n,
        None => {
            return Err(owned("width too large"));
        },
    };
    let pad: u32 = (4 - unpadded % 4) % 4;
    let padded: u32 = unpadded + pad;
    assert(padded == padded_row(width as int));
    let data: u32 = match padded.checked_mul(height) {
        Some(n) => n,
        None => {
            return Err(owned("image too large"));
        },
    };
    if data > u32::MAX - 54 {
        return Err(owned("file size overflow"));
    }
    if height > 0 && (height - 1) as u64 > isize::MAX as u64 {
        return Err(owned("out of range integral type conversion attempted"));
    }
    let mut out: Vec<u8> = Vec::new();
    push_bmp_header(&mut out, width, height, data);
    let mut n: u32 = 0;
    assert(out@ =~= bmp_header(width, height) + bmp_rows(surface, src@, 0));
    while n < height
        invariant
            n <= height,
            surface == (Surface { width, height, pitch, format }),
            surface.fits(src@.len() as int),
            pad == row_padding(width as int),
            out@ == bmp_header(width, height) + bmp_rows(surface, src@, n as nat),
        decreases height - n,
    {
        let ghost before = out@;
        push_row(&mut out, src, &surface, height - 1 - n, false);
        let ghost with_row = out@;
        let mut i: u32 = 0;
        while i < pad
            invariant
                i <= pad,
                out@ == with_row + Seq::new(i as nat, |k: int| 0u8),
            decreases pad - i,
        {
            out.push(0);
            i = i + 1;
            assert(out@ =~= with_row + Seq::new(i as nat, |k: int| 0u8));
        }
        n = n + 1;
        proof {
            let filling = Seq::new(row_padding(width as int) as nat, |k: int| 0u8);
            assert(Seq::new(pad as nat, |k: int| 0u8) =~= filling);
            assert(out@ =~= bmp_header(width, height) + bmp_rows(surface, src@, n as nat));
        }
    }
    Ok(out)
}

proof fn lemma_bmp_rows(surface: Surface, src: Seq<u8>, n: nat, k: nat, x: int)
    requires
        k < n <= surface.height,
        0 <= x < surface.width,
    ensures
        bmp_rows(surface, src, n).len() == n * padded_row(surface.width as int),
        bmp_rows(surface, src, n).subrange(
            k * padded_row(surface.width as int) + 3 * x,
            k * padded_row(surface.width as int) + 3 * x + 3,
        ) == surface.channels(src, x, surface.height - 1 - k, false),
    decreases n,
{
    let size = padded_row(surface.width as int);
    let rest = bmp_rows(surface, src, (n - 1) as nat);
    let row = surface.row(src, surface.height - n, surface.width as nat, false);
    let filling = Seq::new(row_padding(surface.width as int) as nat, |i: int| 0u8);
    surface.lemma_row(src, surface.height - n, surface.width as nat, false, x);
    lemma_bmp_len(surface, src, (n - 1) as nat);
    lemma_bmp_len(surface, src, n);
    let at = k * size + 3 * x;
    assert(k * size >= 0) by (nonlinear_arith)
        requires
            k >= 0,
            size >= 0,
    ;
    if k == n - 1 {
        assert((rest + row + filling).subrange(at, at + 3) =~= row.subrange(3 * x, 3 * x + 3));
    } else {
        lemma_bmp_rows(surface, src, (n - 1) as nat, k, x);
        assert(k * size + size <= (n - 1) * size) by (nonlinear_arith)
            requires
                k + 1 <= n - 1,
                size >= 0,
        ;
        assert((rest + row + filling).subrange(at, at + 3) =~= rest.subrange(at, at + 3));
    }
}

proof fn lemma_bmp_len(surface: Surface, src: Seq<u8>, n: nat)
    ensures
        bmp_rows(surface, src, n).len() == n * padded_row(surface.width as int),
    decreases n,
{
    let size = padded_row(surface.width as int);
    if n > 0 {
        lemma_bmp_len(surface, src, (n - 1) as nat);
        surface.lemma_row(src, surface.height - n, surface.width as nat, false, 0);
        assert(n * size == (n - 1) * size + size) by (nonlinear_arith);
    } else {
        assert(n * size == 0) by (nonlinear_arith)
            requires
                n == 0,
        ;
    }
}

proof fn lemma_bmp_headers(width: u32, height: u32, data: int)
    requires
        0 <= data,
        54 + data <= u32::MAX,
    ensures
        bmp_file_header(data).len() == 14,
        bmp_info_header(width, height, data).len() == 40,
        bmp_file_header(data).take(2) == seq![0x42u8, 0x4du8],
        bytes::u32_at(bmp_file_header(data), 2) == 54 + data,
        bytes::u32_at(bmp_file_header(data), 10) == 54,
        bytes::u32_at(bmp_info_header(width, height, data), 4) == width,
        bytes::u32_at(bmp_info_header(width, height, data), 8) == height,
        bytes::u16_at(bmp_info_header(width, height, data), 14) == 24,
{
    reveal(bmp_file_header);
    reveal(bmp_info_header);
    let a = bmp_file_header(data);
    let b = bmp_info_header(width, height, data);
    let size = (54 + data) as u32;
    assert(a.take(2) =~= seq![0x42u8, 0x4du8]);
    assert(a.subrange(2, 6) =~= bytes::le32(size));
    assert(a.subrange(10, 14) =~= bytes::le32(54));
    assert(b.subrange(4, 8) =~= bytes::le32(width));
    assert(b.subrange(8, 12) =~= bytes::le32(height));
    assert(b.subrange(14, 16) =~= bytes::le16(24));
    bytes::lemma_read_back(size, 24);
    bytes::lemma_read_back(54, 0);
    bytes::lemma_read_back(width, 0);
    bytes::lemma_read_back(height, 0);
    assert(bytes::u32_at(a, 2) == bytes::u32_at(a.subrange(2, 6), 0));
    assert(bytes::u32_at(a, 10) == bytes::u32_at(a.subrange(10, 14), 0));
    assert(bytes::u32_at(b, 4) == bytes::u32_at(b.subrange(4, 8), 0));
    assert(bytes::u32_at(b, 8) == bytes::u32_at(b.subrange(8, 12), 0));
    assert(bytes::u16_at(b, 14) == bytes::u16_at(b.subrange(14, 16), 0));
}

proof fn lemma_file_parts(front: Seq<u8>, info: Seq<u8>, body: Seq<u8>, at: int)
    requires
        front.len() == 14,
        info.len() == 40,
        0 <= at,
        at + 3 <= body.len(),
    ensures
        ({
            let file = (front + info) + body;
            &&& file.len() == 54 + body.len()
            &&& file.take(2) == front.take(2)
            &&& bytes::u32_at(file, 2) == bytes::u32_at(front, 2)
            &&& bytes::u32_at(file, 10) == bytes::u32_at(front, 10)
            &&& bytes::u32_at(file, 18) == bytes::u32_at(info, 4)
            &&& bytes::u32_at(file, 22) == bytes::u32_at(info, 8)
            &&& bytes::u16_at(file, 28) == bytes::u16_at(info, 14)
            &&& file.subrange(54 + at, 54 + at + 3) == body.subrange(at, at + 3)
        }),
{
    let file = (front + info) + body;
    assert(file.take(2) =~= front.take(2));
    assert(file.subrange(54 + at, 54 + at + 3) =~= body.subrange(at, at + 3));
}

/// The layout of a bitmap file: its length is what its header says, the pixels start
/// behind the header, rows stand bottom-up on multiples of four, and every pixel is
/// where a reader looks for it.
pub proof fn lemma_bmp_layout(surface: Surface, src: Seq<u8>, x: int, y: int)
    requires
        bmp_error(surface) is None,
        0 <= x < surface.width,
        0 <= y < surface.height,
    ensures
        ({
            let file = bmp_file(surface, src);
            let row = padded_row(surface.width as int);
            let at = 54 + (surface.height - 1 - y) * row + 3 * x;
            &&& file.take(2) == seq![0x42u8, 0x4du8]
            &&& bytes::u32_at(file, 2) == file.len()
            &&& bytes::u32_at(file, 10) == 54
            &&& bytes::u32_at(file, 18) == surface.width
            &&& bytes::u32_at(file, 22) == surface.height
            &&& bytes::u16_at(file, 28) == 24
            &&& row % 4 == 0
            &&& file.len() == 54 + surface.height * row
            &&& file.subrange(at, at + 3) == surface.channels(src, x, y, false)
        }),
{
    let file = bmp_file(surface, src);
    let row = padded_row(surface.width as int);
    let data = row * surface.height;
    let front = bmp_file_header(data);
    let info = bmp_info_header(surface.width, surface.height, data);
    let body = bmp_rows(surface, src, surface.height as nat);
    let k = (surface.height - 1 - y) as nat;
    assert(data >= 0) by (nonlinear_arith)
        requires
            data == row * surface.height,
            row >= 0,
            surface.height >= 0,
    ;
    lemma_bmp_headers(surface.width, surface.height, data);
    lemma_bmp_rows(surface, src, surface.height as nat, k, x);
    assert(surface.height * row == data) by (nonlinear_arith)
        requires
            data == row * surface.height,
    ;
    let at = k * row + 3 * x;
    assert(k * row >= 0 && k * row + row <= surface.height * row) by (nonlinear_arith)
        requires
            0 <= k < surface.height,
            row >= 0,
    ;
    lemma_file_parts(front, info, body, at);
}

/// The first `n` rows of a surface, top-down, red first.
pub open spec fn rgb_rows(surface: Surface, src: Seq<u8>, n: nat) -> Seq<u8>
    decreases n,
{
    if n == 0 {
        seq![]
    } else {
        rgb_rows(surface, src, (n - 1) as nat) + surface.row(
            src,
            n - 1,
            surface.width as nat,
            true,
        )
    }
}

proof fn lemma_rgb_len(surface: Surface, src: Seq<u8>, n: nat)
    ensures
        rgb_rows(surface, src, n).len() == 3 * (n * surface.width),
    decreases n,
{
    if n > 0 {
        lemma_rgb_len(surface, src, (n - 1) as nat);
        surface.lemma_row(src, n - 1, surface.width as nat, true, 0);
        assert(n * surface.width == (n - 1) * surface.width + surface.width) by (nonlinear_arith);
    } else {
        assert(n * surface.width == 0) by (nonlinear_arith)
            requires
                n == 0,
        ;
    }
}

/// Where an encoder gave up.
#[derive(Clone, Copy, Debug, PartialEq, Eq, Structural)]
pub enum PngStage {
    Header,
    ImageData,
    Finish,
}

/// An encoder's error: the stage, and the text of the error.
#[derive(Debug)]
pub struct PngError {
    pub stage: PngStage,
    pub detail: String,
}

/// The file that the `png` crate makes of 8-bit RGB data, or the stage and the text of its
/// error.
pub uninterp spec fn png_rgb8(
    width: u32,
    height: u32,
    rgb: Seq<u8>,
) -> Result<Seq<u8>, (PngStage, Seq<char>)>;

/// Encodes `rgb` with `png::Encoder` as an 8-bit truecolor image: `new` on an empty
/// buffer, `set_color(Rgb)`, `set_depth(Eight)`, `write_header`, then `write_image_data`
/// and `finish` on the writer. What comes out is a function of the size and the data; the
/// header is refused for an image without width, or else without height. That any other
/// image is encoded is not claimed: the compressor below decides it.
#[verifier::external_body]
fn encode_rgb8(width: u32, height: u32, rgb: &[u8]) -> (res: Result<Vec<u8>, PngError>)
    requires
        rgb@.len() == 3 * (height * width),
    ensures
        match png_rgb8(width, height, rgb@) {
            Ok(file) => res is Ok && res->Ok_0@ == file,
            Err((stage, detail)) => res is Err && res->Err_0.stage == stage && res->Err_0.detail@
                == detail,
        },
        width == 0 ==> res is Err && res->Err_0.stage == PngStage::Header && res->Err_0.detail@
            == "Zero width not allowed"@,
        width != 0 && height == 0 ==> res is Err && res->Err_0.stage == PngStage::Header
            && res->Err_0.detail@ == "Zero height not allowed"@,
{
    let mut out = Vec::new();
    let mut encoder = png::Encoder::new(&mut out, width, height);
    encoder.set_color(png::ColorType::Rgb);
    encoder.set_depth(png::BitDepth::Eight);
    let failed = |stage| move |e: png::EncodingError| PngError { stage, detail: e.to_string() };
    let mut writer = encoder.write_header().map_err(failed(PngStage::Header))?;
    writer.write_image_data(rgb).map_err(failed(PngStage::ImageData))?;
    writer.finish().map_err(failed(PngStage::Finish))?;
    Ok(out)
}

/// What a stage is called in an error.
pub open spec fn stage_prefix(stage: PngStage) -> Seq<char> {
    match stage {
        PngStage::Header => "png write_header: "@,
        PngStage::ImageData => "png write_image_data: "@,
        PngStage::Finish => "png finish: "@,
    }
}

/// Hands an encoder's file on, and puts the stage in front of an error.
pub fn png_outcome(encoded: Result<Vec<u8>, PngError>) -> (res: Result<Vec<u8>, String>)
    ensures
        match encoded {
            Ok(file) => res == Ok::<Vec<u8>, String>(file),
            Err(e) => res is Err && res->Err_0@ == stage_prefix(e.stage) + e.detail@,
        },
{
    match encoded {
        Ok(file) => Ok(file),
        Err(e) => {
            let mut text = match e.stage {
                PngStage::Header => owned("png write_header: "),
                PngStage::ImageData => owned("png write_image_data: "),
                PngStage::Finish => owned("png finish: "),
            };
            text.push_str(e.detail.as_str());
            Err(text)
        },
    }
}

/// Why a surface is not handed to the encoder.
pub open spec fn rgb_error(surface: Surface) -> Option<Seq<char>> {
    if 3 * (surface.height * surface.width) > u32::MAX {
        Some("image too large"@)
    } else if !surface.addressable() {
        Some("out of range integral type conversion attempted"@)
    } else {
        None
    }
}

/// The rows of a surface as 8-bit RGB data, top-down.
pub fn rgb_data(
    width: u32,
    height: u32,
    pitch: i32,
    src: &[u8],
    format: SourceFormat,
) -> (res: Result<Vec<u8>, String>)
    requires
        (Surface { width, height, pitch, format }).fits(src@.len() as int),
    ensures
        match res {
            Ok(rgb) => {
                &&& rgb_error(Surface { width, height, pitch, format }) is None
                &&& rgb@ == rgb_rows(
                    Surface { width, height, pitch, format },
                    src@,
                    height as nat,
                )
                &&& rgb@.len() == 3 * (height * width)
            },
            Err(e) => rgb_error(Surface { width, height, pitch, format }) == Some(e@),
        },
{
    let surface = Surface { width, height, pitch, format };
    assert(width * height == height * width) by (nonlinear_arith);
    let pixels: u32 = match width.checked_mul(height) {
        Some(n) => n,
        None => {
            return Err(owned("image too large"));
        },
    };
    match pixels.checked_mul(3) {
        Some(_) => {},
        None => {
            return Err(owned("image too large"));
        },
    }
    if height > 0 && (height - 1) as u64 > isize::MAX as u64 {
        return Err(owned("out of range integral type conversion attempted"));
    }
    let mut rgb: Vec<u8> = Vec::new();
    let mut y: u32 = 0;
    assert(rgb@ =~= rgb_rows(surface, src@, 0));
    while y < height
        invariant
            y <= height,
            surface == (Surface { width, height, pitch, format }),
            surface.fits(src@.len() as int),
            rgb@ == rgb_rows(surface, src@, y as nat),
        decreases height - y,
    {
        push_row(&mut rgb, src, &surface, y, true);
        y = y + 1;
    }
    proof {
        lemma_rgb_len(surface, src@, height as nat);
    }
    Ok(rgb)
}

/// Constructs an 8-bit truecolor PNG.
pub fn build_png_24bpp(
    width: u32,
    height: u32,
    pitch: i32,
    src: &[u8],
    format: SourceFormat,
) -> (res: Result<Vec<u8>, String>)
    requires
        (Surface { width, height, pitch, format }).fits(src@.len() as int),
    ensures
        ({
            let surface = Surface { width, height, pitch, format };
            match rgb_error(surface) {
                Some(e) => res is Err && res->Err_0@ == e,
                None => match png_rgb8(width, height, rgb_rows(surface, src@, height as nat)) {
                    Ok(file) => res is Ok && res->Ok_0@ == file,
                    Err((stage, detail)) => res is Err && res->Err_0@ == stage_prefix(stage)
                        + detail,
                },
            }
        }),
        rgb_error(Surface { width, height, pitch, format }) is None && width == 0 ==> res is Err
            && res->Err_0@ == "png write_header: "@ + "Zero width not allowed"@,
        rgb_error(Surface { width, height, pitch, format }) is None && width != 0 && height == 0
            ==> res is Err && res->Err_0@ == "png write_header: "@ + "Zero height not allowed"@,
{
    match rgb_data(width, height, pitch, src, format) {
        Ok(rgb) => png_outcome(encode_rgb8(width, height, rgb.as_slice())),
        Err(e) => Err(e),
    }
}

/// The data handed to the PNG encoder and the bitmap show the same picture: a pixel is
/// where its row and column say, and its channels are the bitmap's in reverse.
pub proof fn lemma_rgb_layout(surface: Surface, src: Seq<u8>, n: nat, x: int, y: int)
    requires
        0 <= x < surface.width,
        0 <= y < n,
    ensures
        rgb_rows(surface, src, n).len() == 3 * (n * surface.width),
        ({
            let at = 3 * (y * surface.width + x);
            rgb_rows(surface, src, n).subrange(at, at + 3) == surface.channels(
                src,
                x,
                y,
                false,
            ).reverse()
        }),
    decreases n,
{
    let rest = rgb_rows(surface, src, (n - 1) as nat);
    let row = surface.row(src, n - 1, surface.width as nat, true);
    let at = 3 * (y * surface.width + x);
    lemma_rgb_len(surface, src, n);
    lemma_rgb_len(surface, src, (n - 1) as nat);
    surface.lemma_row(src, n - 1, surface.width as nat, true, x);
    assert(y * surface.width >= 0) by (nonlinear_arith)
        requires
            y >= 0,
            surface.width >= 0,
    ;
    if y == n - 1 {
        assert((rest + row).subrange(at, at + 3) =~= row.subrange(3 * x, 3 * x + 3));
    } else {
        lemma_rgb_layout(surface, src, (n - 1) as nat, x, y);
        assert(y * surface.width + surface.width <= (n - 1) * surface.width) by (nonlinear_arith)
            requires
                y + 1 <= n - 1,
                surface.width >= 0,
        ;
        assert((rest + row).subrange(at, at + 3) =~= rest.subrange(at, at + 3));
    }
}

/// The longest filename that is accepted, with its terminator.
pub const MAX_PATH: usize = 260;

/// Why a filename is rejected.
#[derive(Clone, Copy, Debug, PartialEq, Eq, Structural)]
pub enum FilenameDefect {
    Unreadable,
    /// No terminator among the bytes read.
    TooLongOrUnterminated,
    Empty,
}

/// Accepts the NUL-terminated filename at the start of `read`, the bytes that could be
/// read of it. What is unreadable, empty, or lacks a terminator is rejected.
pub fn sanitize_filename(read: &[u8]) -> (res: Result<Vec<u8>, FilenameDefect>)
    ensures
        match res {
            Ok(path) => {
                &&& path@ == untrusted::until(read@, 0u8)
                &&& path@.len() > 0
                &&& path@.len() < read@.len()
            },
            Err(FilenameDefect::Unreadable) => read@.len() == 0,
            Err(FilenameDefect::TooLongOrUnterminated) => read@.len() > 0 && !read@.contains(0u8),
            Err(FilenameDefect::Empty) => read@.len() > 0 && read@[0] == 0,
        },
{
    if read.len() == 0 {
        return Err(FilenameDefect::Unreadable);
    }
    let path = safe_read_until(read, read.len(), 0u8);
    proof {
        assert(read@.take(read@.len() as int) =~= read@);
        untrusted::lemma_until(read@, 0u8);
    }
    if path.len() == read.len() {
        assert(path@ =~= read@);
        return Err(FilenameDefect::TooLongOrUnterminated);
    }
    if path.len() == 0 {
        return Err(FilenameDefect::Empty);
    }
    Ok(path)
}

/// Returns a copy of `bytes` with a NUL appended.
pub fn nul_terminate(bytes: &[u8]) -> (out: Vec<u8>)
    ensures
        out@ == bytes@.push(0),
{
    let mut out = to_vec(bytes);
    out.push(0);
    out
}

/// The name of the file that is written before it replaces `path`.
pub fn tmp_path(path: &[u8]) -> (tmp: Vec<u8>)
    ensures
        tmp@ == path@ + seq![0x2eu8, 0x74u8, 0x6du8, 0x70u8],
{
    let mut tmp = to_vec(path);
    let tail: [u8; 4] = [0x2e, 0x74, 0x6d, 0x70];
    push_all(&mut tmp, &tail);
    assert(tail@ =~= seq![0x2eu8, 0x74u8, 0x6du8, 0x70u8]);
    tmp
}

/// Whether `b` separates the parts of a path.
pub open spec fn is_separator(b: u8) -> bool {
    b == 0x2f || b == 0x5c
}

/// The part of `path` in front of its last separator, which is created if need be. A path
/// without a separator, or with one at its start only, has no such part.
pub fn ensure_parent(path: &[u8]) -> (res: Option<Vec<u8>>)
    ensures
        match res {
            Some(parent) => {
                let n = parent@.len() as int;
                &&& 0 < n < path@.len()
                &&& parent@ == path@.take(n)
                &&& is_separator(path@[n])
                &&& forall|i: int| n < i < path@.len() ==> !is_separator(#[trigger] path@[i])
            },
            None => forall|i: int| 0 < i < path@.len() ==> !is_separator(#[trigger] path@[i]),
        },
{
    let mut i: usize = path.len();
    while i > 1
        invariant
            i <= path@.len(),
            forall|k: int| i <= k < path@.len() ==> !is_separator(#[trigger] path@[k]),
        decreases i,
    {
        i -= 1;
        if path[i] == 0x2f || path[i] == 0x5c {
            return Some(to_vec(slice_subrange(path, 0, i)));
        }
    }
    None
}

/// The filename of a capture that waits for the next present.
pub struct PendingCapture {
    path: Option<Vec<u8>>,
}

/// What became of a filename that was handed in.
#[derive(Clone, Copy, Debug, PartialEq, Eq, Structural)]
pub enum Stash {
    /// There is no device to capture from.
    DroppedNoDevice,
    /// It waits for the next present.
    Stashed,
    /// It waits for the next present, in place of one that waited.
    Replaced,
}

impl Stash {
    /// What the game's save function returns: 0 when the filename was stashed.
    pub fn status(self) -> (status: u32)
        ensures
            status == if self == Stash::DroppedNoDevice {
                1u32
            } else {
                0u32
            },
    {
        match self {
            Stash::DroppedNoDevice => 1,
            Stash::Stashed | Stash::Replaced => 0,
        }
    }
}

impl PendingCapture {
    /// The waiting filename.
    pub closed spec fn pending(&self) -> Option<Seq<u8>> {
        match self.path {
            Some(path) => Some(path@),
            None => None,
        }
    }

    pub fn new() -> (pending: PendingCapture)
        ensures
            pending.pending() is None,
    {
        PendingCapture { path: None }
    }

    /// Stashes a filename for the next present, unless no device exists at all. A filename
    /// that still waits is replaced.
    pub fn set_pending_cached_save(
        &mut self,
        pinned: Option<NonZeroUsize>,
        path: Vec<u8>,
    ) -> (res: Stash)
        ensures
            res == (if pinned is None {
                Stash::DroppedNoDevice
            } else if old(self).pending() is Some {
                Stash::Replaced
            } else {
                Stash::Stashed
            }),
            final(self).pending() == (if pinned is None {
                old(self).pending()
            } else {
                Some(path@)
            }),
    {
        if pinned.is_none() {
            return Stash::DroppedNoDevice;
        }
        let waited = self.path.is_some();
        self.path = Some(path);
        if waited {
            Stash::Replaced
        } else {
            Stash::Stashed
        }
    }

    /// Takes the waiting filename when the present goes through the game's own device.
    pub fn on_pre_present(
        &mut self,
        pinned: Option<NonZeroUsize>,
        device: NonZeroUsize,
    ) -> (res: Option<Vec<u8>>)
        ensures
            match res {
                Some(path) => pinned == Some(device) && old(self).pending() == Some(path@),
                None => pinned != Some(device) || old(self).pending() is None,
            },
            final(self).pending() == (if pinned == Some(device) {
                None
            } else {
                old(self).pending()
            }),
    {
        match pinned {
            Some(game) => {
                if game != device {
                    return None;
                }
                self.path.take()
            },
            None => None,
        }
    }

    /// Drops a waiting filename, at a reset or at the start of a device replacement: it was
    /// stashed against the outgoing rendering context. Returns whether one waited.
    pub fn drop_pending(&mut self) -> (waited: bool)
        ensures
            waited == (old(self).pending() is Some),
            final(self).pending() is None,
    {
        self.path.take().is_some()
    }
}

/// What a synchronous save does, decided before anything is captured.
#[derive(Clone, Copy, Debug, PartialEq, Eq, Structural)]
pub enum LiveSave {
    /// The filename is unusable, or the caller is not on the render thread.
    Refused,
    /// There is no device to capture from.
    NoDevice,
    /// Capture from this device.
    Capture(NonZeroUsize),
}

/// Decides a synchronous save. A caller off the render thread is refused rather than let
/// near render-thread state.
pub fn live_save(filename_ok: bool, on_render_thread: bool, pinned: Option<NonZeroUsize>) -> (plan:
    LiveSave)
    ensures
        plan == (if !filename_ok || !on_render_thread {
            LiveSave::Refused
        } else {
            match pinned {
                None => LiveSave::NoDevice,
                Some(device) => LiveSave::Capture(device),
            }
        }),
{
    if !filename_ok || !on_render_thread {
        return LiveSave::Refused;
    }
    match pinned {
        None => LiveSave::NoDevice,
        Some(device) => LiveSave::Capture(device),
    }
}

/// The calls that read a frame back, in order.
#[derive(Clone, Copy, Debug, PartialEq, Eq, Structural)]
pub enum CaptureCall {
    GetBackBuffer,
    GetDesc,
    CreateOffscreenPlainSurface,
    GetRenderTargetData,
    LockRect,
}

/// What follows a call.
pub enum CaptureNext {
    Call(CaptureCall),
    /// The surface is locked: encode it in this layout, unlock, then write the file.
    Encode(SourceFormat),
}

/// Why a frame could not be read back.
pub enum CaptureError {
    /// A call failed with this result.
    Failed(CaptureCall, HResult),
    /// The back buffer's format has no encoding.
    Unsupported(String),
    /// The offscreen surface was not handed out.
    NullSurface,
}

/// Decides what follows `call`, which returned `hr`. `format` is the back buffer's, once it
/// was described; `surface` is whether the offscreen surface was handed out.
pub fn after_capture_call(call: CaptureCall, hr: HResult, format: Format, surface: bool) -> (res:
    Result<CaptureNext, CaptureError>)
    requires
        call == CaptureCall::LockRect ==> SourceFormat::of_d3d(format) is Some,
    ensures
        match res {
            Ok(CaptureNext::Call(next)) => {
                &&& d3d::succeeded(hr)
                &&& call != CaptureCall::LockRect
                &&& call == CaptureCall::GetDesc ==> SourceFormat::of_d3d(format) is Some
                &&& call == CaptureCall::CreateOffscreenPlainSurface ==> surface
                &&& next == match call {
                    CaptureCall::GetBackBuffer => CaptureCall::GetDesc,
                    CaptureCall::GetDesc => CaptureCall::CreateOffscreenPlainSurface,
                    CaptureCall::CreateOffscreenPlainSurface => CaptureCall::GetRenderTargetData,
                    _ => CaptureCall::LockRect,
                }
            },
            Ok(CaptureNext::Encode(source)) => {
                &&& d3d::succeeded(hr)
                &&& call == CaptureCall::LockRect
                &&& SourceFormat::of_d3d(format) == Some(source)
            },
            Err(CaptureError::Failed(failed, code)) => {
                &&& !d3d::succeeded(hr)
                &&& failed == call
                &&& code == hr
            },
            Err(CaptureError::Unsupported(e)) => {
                &&& d3d::succeeded(hr)
                &&& call == CaptureCall::GetDesc
                &&& SourceFormat::of_d3d(format) is None
                &&& e@ == "unsupported back buffer format 0x"@ + text::hex(format as nat)
            },
            Err(CaptureError::NullSurface) => {
                &&& d3d::succeeded(hr)
                &&& call == CaptureCall::CreateOffscreenPlainSurface
                &&& !surface
            },
        },
{
    if !is_ok(hr) {
        return Err(CaptureError::Failed(call, hr));
    }
    match call {
        CaptureCall::GetBackBuffer => Ok(CaptureNext::Call(CaptureCall::GetDesc)),
        CaptureCall::GetDesc => match SourceFormat::from_d3d(format) {
            Ok(_) => Ok(CaptureNext::Call(CaptureCall::CreateOffscreenPlainSurface)),
            Err(e) => Err(CaptureError::Unsupported(e)),
        },
        CaptureCall::CreateOffscreenPlainSurface => {
            if surface {
                Ok(CaptureNext::Call(CaptureCall::GetRenderTargetData))
            } else {
                Err(CaptureError::NullSurface)
            }
        },
        CaptureCall::GetRenderTargetData => Ok(CaptureNext::Call(CaptureCall::LockRect)),
        CaptureCall::LockRect => match SourceFormat::from_d3d(format) {
            Ok(source) => Ok(CaptureNext::Encode(source)),
            Err(e) => Err(CaptureError::Unsupported(e)),
        },
    }
}

/// What happened while a file is written beside its target.
pub enum WriteEvent {
    /// The temporary file was opened, or this error came.
    Created(Result<(), u32>),
    /// The write reported success, this many bytes, and this error code.
    Written { ok: bool, written: u32, error: u32 },
    /// The temporary file replaced the target, or this error came.
    Moved(Result<(), u32>),
}

/// What to do next.
pub enum WriteAction {
    /// Write the data.
    Write,
    /// Close the temporary file and move it over the target.
    CloseAndMove,
    /// Close and delete the temporary file; the write failed for this reason.
    CloseAndDelete(String),
    /// Delete the temporary file; the write failed for this reason.
    Delete(String),
    /// Nothing was left behind; the write failed for this reason.
    Fail(String),
    Done,
}

/// A failure text: what failed, and the error code.
pub open spec fn failure_text(what: Seq<char>, error: u32) -> Seq<char> {
    what + text::decimal(error as nat)
}

fn failure(what: &str, error: u32) -> (res: String)
    ensures
        res@ == failure_text(what@, error),
{
    let mut res = owned(what);
    push_decimal(&mut res, error as u64);
    res
}

/// The size to write, where a single write can take it.
pub fn write_len(len: usize) -> (res: Result<u32, String>)
    ensures
        match res {
            Ok(n) => n == len,
            Err(e) => len > u32::MAX && e@ == "image too large for WriteFile"@,
        },
{
    if len as u64 > u32::MAX as u64 {
        Err(owned("image too large for WriteFile"))
    } else {
        Ok(len as u32)
    }
}

/// Decides what follows an event of writing `len` bytes beside the target. A partial file
/// never replaces the target, and is removed.
pub fn write_atomic(len: u32, event: WriteEvent) -> (action: WriteAction)
    ensures
        match event {
            WriteEvent::Created(Ok(())) => action is Write,
            WriteEvent::Created(Err(e)) => action matches WriteAction::Fail(t) && t@
                == failure_text("CreateFileA gle="@, e),
            WriteEvent::Written { ok, written, error } => if !ok {
                action matches WriteAction::CloseAndDelete(t) && t@ == failure_text(
                    "WriteFile gle="@,
                    error,
                )
            } else if written != len {
                action matches WriteAction::CloseAndDelete(t) && t@ == failure_text(
                    "WriteFile short "@,
                    written,
                ) + "/"@ + text::decimal(len as nat)
            } else {
                action is CloseAndMove
            },
            WriteEvent::Moved(Ok(())) => action is Done,
            WriteEvent::Moved(Err(e)) => action matches WriteAction::Delete(t) && t@
                == failure_text("MoveFileExA gle="@, e),
        },
{
    match event {
        WriteEvent::Created(Ok(())) => WriteAction::Write,
        WriteEvent::Created(Err(e)) => WriteAction::Fail(failure("CreateFileA gle=", e)),
        WriteEvent::Written { ok, written, error } => {
            if !ok {
                WriteAction::CloseAndDelete(failure("WriteFile gle=", error))
            } else if written != len {
                let mut t = failure("WriteFile short ", written);
                t.push_str("/");
                push_decimal(&mut t, len as u64);
                WriteAction::CloseAndDelete(t)
            } else {
                WriteAction::CloseAndMove
            }
        },
        WriteEvent::Moved(Ok(())) => WriteAction::Done,
        WriteEvent::Moved(Err(e)) => WriteAction::Delete(failure("MoveFileExA gle=", e)),
    }
}

/// Expanding a channel keeps its bits on top and fills the rest with the highest of them.
pub proof fn lemma_expanded_bits(c: int)
    ensures
        0 <= c < 32 ==> expanded5(c) as int / 8 == c && expanded5(c) as int % 8 == c / 4,
        0 <= c < 64 ==> expanded6(c) as int / 4 == c && expanded6(c) as int % 4 == c / 16,
{
}

/// The back buffer formats that can be read, by their codes.
pub proof fn lemma_source_formats(format: Format)
    ensures
        SourceFormat::of_d3d(format) == Some(SourceFormat::Bgrx8888) <==> format == 21 || format
            == 22,
        SourceFormat::of_d3d(format) == Some(SourceFormat::Bgr565) <==> format == 23,
        SourceFormat::of_d3d(format) == Some(SourceFormat::Bgr555) <==> format == 24 || format
            == 25,
        SourceFormat::Bgrx8888.pixel_size() == 4,
        SourceFormat::Bgr565.pixel_size() == 2,
        SourceFormat::Bgr555.pixel_size() == 2,
{
}

/// The parts of a number made of a blue, a green and a red channel, with `greens` values of
/// green.
proof fn lemma_packed_channels(v: int, b: int, g: int, r: int, top: int, greens: int)
    requires
        0 <= b < 32,
        0 <= g < greens,
        0 <= r < 32,
        greens == 64 && top == 0 || greens == 32,
        v == b + 32 * (g + greens * (r + 32 * top)),
    ensures
        v % 32 == b,
        greens == 64 ==> (v / 32) % 64 == g && v / 2048 == r,
        greens == 32 ==> (v / 32) % 32 == g && (v / 1024) % 32 == r,
{
    let rest = g + greens * (r + 32 * top);
    assert(v % 32 == b && v / 32 == rest) by (nonlinear_arith)
        requires
            0 <= b < 32,
            v == b + 32 * rest,
    ;
    if greens == 64 {
        assert(rest == g + 64 * r);
        assert(v / 2048 == (v / 32) / 64);
    } else {
        assert(rest == g + 32 * (r + 32 * top));
        assert(v / 1024 == (v / 32) / 32);
        assert((v / 32) / 32 == r + 32 * top);
    }
}

/// A packed pixel gives back the channels it was packed from, blue in the lowest bits and
/// red in the highest; a pixel of whole bytes has them in that order.
pub proof fn lemma_unpacked(src: Seq<u8>, at: int, b: int, g: int, r: int, top: int)
    requires
        0 <= b < 32,
        0 <= r < 32,
        0 <= top < 2,
    ensures
        0 <= g < 64 && bytes::u16_at(src, at) == b + 32 * g + 2048 * r
            ==> SourceFormat::Bgr565.pixel(src, at) == seq![
            expanded5(b),
            expanded6(g),
            expanded5(r),
        ],
        0 <= g < 32 && bytes::u16_at(src, at) == b + 32 * g + 1024 * r + 32768 * top
            ==> SourceFormat::Bgr555.pixel(src, at) == seq![
            expanded5(b),
            expanded5(g),
            expanded5(r),
        ],
        SourceFormat::Bgrx8888.pixel(src, at) == seq![src[at], src[at + 1], src[at + 2]],
{
    let v = bytes::u16_at(src, at) as int;
    if 0 <= g < 64 && v == b + 32 * g + 2048 * r {
        lemma_packed_channels(v, b, g, r, 0, 64);
        assert(SourceFormat::Bgr565.pixel(src, at) =~= seq![
            expanded5(b),
            expanded6(g),
            expanded5(r),
        ]);
    }
    if 0 <= g < 32 && v == b + 32 * g + 1024 * r + 32768 * top {
        lemma_packed_channels(v, b, g, r, top, 32);
        assert(SourceFormat::Bgr555.pixel(src, at) =~= seq![
            expanded5(b),
            expanded5(g),
            expanded5(r),
        ]);
    }
}

/// Rows lie one pitch apart. With a positive pitch the first one starts the memory, and with
/// a negative one the last; a pixel is as far into its row as the pixels before it take.
pub proof fn lemma_surface_rows(surface: Surface, src: Seq<u8>, x: int, y: int)
    ensures
        surface.row_start(y + 1) - surface.row_start(y) == surface.pitch,
        surface.pitch >= 0 ==> surface.row_start(0) == 0,
        surface.pitch < 0 ==> surface.row_start(surface.height - 1) == 0,
        surface.row_size() == surface.width * surface.format.pixel_size(),
        surface.channels(src, x, y, false) == surface.format.pixel(
            src,
            surface.row_start(y) + x * surface.format.pixel_size(),
        ),
        surface.channels(src, x, y, true) == surface.channels(src, x, y, false).reverse(),
{
    let p = surface.pitch as int;
    let h = surface.height as int;
    assert((y + 1) * p - y * p == p) by (nonlinear_arith);
    assert((h - 1 - (y + 1)) * (-p) - (h - 1 - y) * (-p) == p) by (nonlinear_arith);
    assert(0 * p == 0) by (nonlinear_arith);
    assert((h - 1 - (h - 1)) * (-p) == 0) by (nonlinear_arith);
}

/// Rows of a bitmap are filled up to the next multiple of four bytes.
pub proof fn lemma_row_padding(width: int)
    requires
        width >= 0,
    ensures
        0 <= row_padding(width) < 4,
        padded_row(width) % 4 == 0,
        padded_row(width) - row_padding(width) == 3 * width,
{
}

/// The rest of a bitmap's header: its own size, one plane, no compression, the size of the
/// pixels, and nothing said about resolution and colours.
pub proof fn lemma_bmp_header_rest(width: u32, height: u32)
    requires
        54 + padded_row(width as int) * height <= u32::MAX,
    ensures
        ({
            let h = bmp_header(width, height);
            &&& h.len() == 54
            &&& bytes::u16_at(h, 6) == 0 && bytes::u16_at(h, 8) == 0
            &&& bytes::u32_at(h, 14) == 40
            &&& bytes::u16_at(h, 26) == 1
            &&& bytes::u32_at(h, 30) == 0
            &&& bytes::u32_at(h, 34) == padded_row(width as int) * height
            &&& bytes::u32_at(h, 38) == 0 && bytes::u32_at(h, 42) == 0
            &&& bytes::u32_at(h, 46) == 0 && bytes::u32_at(h, 50) == 0
        }),
{
    let data = padded_row(width as int) * height;
    assert(data >= 0) by (nonlinear_arith)
        requires
            data == padded_row(width as int) * height,
            padded_row(width as int) >= 0,
            height >= 0,
    ;
    let (a, b) = (bmp_file_header(data), bmp_info_header(width, height, data));
    reveal(bmp_file_header);
    reveal(bmp_info_header);
    let h = bmp_header(width, height);
    bytes::lemma_read_back(data as u32, 1);
    bytes::lemma_read_back(40, 0);
    bytes::lemma_read_back(0, 0);
    assert(h.len() == 54);
    assert(h.subrange(6, 8) =~= bytes::le16(0));
    assert(h.subrange(8, 10) =~= bytes::le16(0));
    assert(h.subrange(14, 18) =~= bytes::le32(40));
    assert(h.subrange(26, 28) =~= bytes::le16(1));
    assert(h.subrange(30, 34) =~= bytes::le32(0));
    assert(h.subrange(34, 38) =~= bytes::le32(data as u32));
    assert(h.subrange(38, 42) =~= bytes::le32(0));
    assert(h.subrange(42, 46) =~= bytes::le32(0));
    assert(h.subrange(46, 50) =~= bytes::le32(0));
    assert(h.subrange(50, 54) =~= bytes::le32(0));
    assert(bytes::u16_at(h, 6) == bytes::u16_at(h.subrange(6, 8), 0));
    assert(bytes::u16_at(h, 8) == bytes::u16_at(h.subrange(8, 10), 0));
    assert(bytes::u32_at(h, 14) == bytes::u32_at(h.subrange(14, 18), 0));
    assert(bytes::u16_at(h, 26) == bytes::u16_at(h.subrange(26, 28), 0));
    assert(bytes::u32_at(h, 30) == bytes::u32_at(h.subrange(30, 34), 0));
    assert(bytes::u32_at(h, 34) == bytes::u32_at(h.subrange(34, 38), 0));
    assert(bytes::u32_at(h, 38) == bytes::u32_at(h.subrange(38, 42), 0));
    assert(bytes::u32_at(h, 42) == bytes::u32_at(h.subrange(42, 46), 0));
    assert(bytes::u32_at(h, 46) == bytes::u32_at(h.subrange(46, 50), 0));
    assert(bytes::u32_at(h, 50) == bytes::u32_at(h.subrange(50, 54), 0));
}

/// What a row of a bitmap is filled up with is zero.
pub proof fn lemma_bmp_padding(surface: Surface, src: Seq<u8>, n: nat, k: nat, i: int)
    requires
        k < n <= surface.height,
        3 * surface.width <= i < padded_row(surface.width as int),
    ensures
        bmp_rows(surface, src, n)[k * padded_row(surface.width as int) + i] == 0,
    decreases n,
{
    let size = padded_row(surface.width as int);
    let rest = bmp_rows(surface, src, (n - 1) as nat);
    surface.lemma_row(src, surface.height - n, surface.width as nat, false, 0);
    lemma_bmp_len(surface, src, (n - 1) as nat);
    assert(k * size >= 0) by (nonlinear_arith)
        requires
            k >= 0,
            size >= 0,
    ;
    if k < n - 1 {
        lemma_bmp_padding(surface, src, (n - 1) as nat, k, i);
        assert(k * size + size <= (n - 1) * size) by (nonlinear_arith)
            requires
                k + 1 <= n - 1,
                size >= 0,
        ;
    }
}

/// A bitmap is made of every surface whose file the format can count, and an image handed
/// to the encoder of every one whose bytes it can; the height has to be an offset as well.
pub proof fn lemma_refused_surfaces(surface: Surface)
    ensures
        bmp_error(surface) is None <==> 3 * surface.width <= u32::MAX && 54 + padded_row(
            surface.width as int,
        ) * surface.height <= u32::MAX && surface.height - 1 <= isize::MAX,
        rgb_error(surface) is None <==> 3 * (surface.height * surface.width) <= u32::MAX
            && surface.height - 1 <= isize::MAX,
        3 * surface.width > u32::MAX ==> bmp_error(surface) == Some("width too large"@),
        3 * surface.width <= u32::MAX && padded_row(surface.width as int) * surface.height
            > u32::MAX ==> bmp_error(surface) == Some("image too large"@),
        3 * (surface.height * surface.width) > u32::MAX ==> rgb_error(surface) == Some(
            "image too large"@,
        ),
{
}

/// Paths are separated by a slash either way.
pub proof fn lemma_separators(b: u8)
    ensures
        is_separator(b) <==> b as char == '/' || b as char == '\\',
{
}

/// A failure names what failed, and then its code; an encoder's names the stage.
pub proof fn lemma_failure_texts(what: Seq<char>, error: u32)
    ensures
        failure_text(what, error).take(what.len() as int) == what,
        failure_text(what, error).skip(what.len() as int) == text::decimal(error as nat),
        stage_prefix(PngStage::Header) == "png write_header: "@,
        stage_prefix(PngStage::ImageData) == "png write_image_data: "@,
        stage_prefix(PngStage::Finish) == "png finish: "@,
{
    assert(failure_text(what, error).take(what.len() as int) =~= what);
    assert(failure_text(what, error).skip(what.len() as int) =~= text::decimal(error as nat));
}

/// The pixels of a bitmap can fit where the file with its header does not, and both where the
/// rows cannot be addressed.
pub proof fn lemma_refused_files(surface: Surface)
    requires
        3 * surface.width <= u32::MAX,
    ensures
        ({
            let data = padded_row(surface.width as int) * surface.height;
            &&& u32::MAX - 54 < data <= u32::MAX ==> bmp_error(surface) == Some(
                "file size overflow"@,
            )
            &&& data <= u32::MAX - 54 && surface.height - 1 > isize::MAX ==> bmp_error(surface)
                == Some("out of range integral type conversion attempted"@)
        }),
{
}

/// A surface fits when each of its rows ends within the memory.
pub proof fn lemma_fits(surface: Surface, len: int)
    ensures
        surface.fits(len) <==> forall|y: int|
            0 <= y <= surface.height - 1 ==> surface.width * surface.format.pixel_size() <= len
                - #[trigger] surface.row_start(y),
{
    if surface.fits(len) {
        assert forall|y: int| 0 <= y <= surface.height - 1 implies surface.width
            * surface.format.pixel_size() <= len - #[trigger] surface.row_start(y) by {
            assert(surface.row_start(y) + surface.row_size() <= len);
        }
    }
}

} // verus!
