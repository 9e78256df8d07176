//! Windows bitmap (BMP) images: the file header, the information header, the
//! colour palette and the pixels of a four-bit image.
use vstd::prelude::*;

verus! {

/// Bytes of the file header.
pub const HEADER_SIZE: usize = 14;
/// Bytes of the information header that follows it.
pub const INFO_HEADER_SIZE: usize = 40;
/// Where the palette starts: right after both headers.
pub const PALETTE_START: usize = 0x36;

/// Why a file is not a bitmap this decoder reads.
#[derive(Debug, Clone, Copy, PartialEq, Eq, Structural)]
pub enum Error {
    NonBitmap,
    OutOfBounds,
}

/// A colour of the palette of a bitmap image.
#[derive(Debug, Clone, Copy, PartialEq, Eq, PartialOrd, Ord, Structural)]
pub struct Color {
    pub r: u8,
    pub g: u8,
    pub b: u8,
}

impl Color {
    /// The colour of the three components.
    pub fn new(r: u8, g: u8, b: u8) -> (c: Self)
        ensures
            c == (Color { r, g, b }),
    {
        Color { r, g, b }
    }

    /// The colour stored as blue, green and red, as bitmap palettes store it.
    pub fn from_bgr(bytes: [u8; 3]) -> (c: Self)
        ensures
            c == (Color { r: bytes@[2], g: bytes@[1], b: bytes@[0] }),
    {
        Color { r: bytes[2], g: bytes[1], b: bytes[0] }
    }

    /// The components, red first.
    pub fn to_rgb(&self) -> (rgb: [u8; 3])
        ensures
            rgb@ == seq![self.r, self.g, self.b],
    {
        let rgb = [self.r, self.g, self.b];
        assert(rgb@ =~= seq![self.r, self.g, self.b]);
        rgb
    }
}

/// The bits of a pixel.
#[derive(Debug, Clone, Copy, PartialEq, Eq, PartialOrd, Ord, Structural)]
pub enum BitDepth {
    MonoChrome,
    Bit4,
    Bit8,
    Bit16,
    Bit24,
}

impl BitDepth {
    /// The depth that a header field names, where it names one.
    pub open spec fn spec_try_from(depth: u16) -> Option<BitDepth> {
        if depth == 1 {
            Some(BitDepth::MonoChrome)
        } else if depth == 4 {
            Some(BitDepth::Bit4)
        } else if depth == 8 {
            Some(BitDepth::Bit8)
        } else if depth == 16 {
            Some(BitDepth::Bit16)
        } else if depth == 24 {
            Some(BitDepth::Bit24)
        } else {
            None
        }
    }

    /// The depth that a header field names, or `NonBitmap`.
    pub fn try_from(depth: u16) -> (r: Result<BitDepth, Error>)
        ensures
            match Self::spec_try_from(depth) {
                Some(d) => r == Ok::<BitDepth, Error>(d),
                None => r == Err::<BitDepth, Error>(Error::NonBitmap),
            },
    {
        match depth {
            1 => Ok(BitDepth::MonoChrome),
            4 => Ok(BitDepth::Bit4),
            8 => Ok(BitDepth::Bit8),
            16 => Ok(BitDepth::Bit16),
            24 => Ok(BitDepth::Bit24),
            _ => Err(Error::NonBitmap),
        }
    }

    /// Whether pixels of this depth are indices into a palette.
    pub open spec fn spec_has_palette(self) -> bool {
        self is MonoChrome || self is Bit4 || self is Bit8
    }

    /// Whether pixels of this depth are indices into a palette.
    pub fn has_palette(&self) -> (b: bool)
        ensures
            b == self.spec_has_palette(),
    {
        match self {
            BitDepth::MonoChrome | BitDepth::Bit4 | BitDepth::Bit8 => true,
            _ => false,
        }
    }
}

/// The file header: the size of the file and where the pixels start.
#[derive(Debug, Clone, Copy, PartialEq, Eq, Structural)]
pub struct BitmapHeader {
    pub file_size: u32,
    pub data_offset: u32,
}

/// The information header: the size of the image, the bits of a pixel and
/// the colours of the palette.
#[derive(Debug, Clone, Copy, PartialEq, Eq, Structural)]
pub struct BitmapInfoHeader {
    pub width: u32,
    pub height: u32,
    pub bit_depth: BitDepth,
    pub num_colors: u32,
    pub image_size: u32,
    pub important_colors: u32,
}

impl BitmapInfoHeader {
    /// The width of the image in pixels.
    pub fn width(&self) -> (w: u32)
        ensures
            w == self.width,
    {
        self.width
    }

    /// The height of the image in pixels.
    pub fn height(&self) -> (h: u32)
        ensures
            h == self.height,
    {
        self.height
    }
}

/// A decoded bitmap image.
#[derive(Debug)]
pub struct Bitmap {
    file_name: String,
    header: BitmapHeader,
    info_header: BitmapInfoHeader,
    palette: Vec<Color>,
    data: Vec<Color>,
}

impl Bitmap {
    /// The name of the file the image came from.
    pub closed spec fn spec_file_name(&self) -> Seq<char> {
        self.file_name@
    }

    /// The file header.
    pub closed spec fn spec_header(&self) -> BitmapHeader {
        self.header
    }

    /// The information header.
    pub closed spec fn spec_info_header(&self) -> BitmapInfoHeader {
        self.info_header
    }

    /// The colours of the palette.
    pub closed spec fn spec_palette(&self) -> Seq<Color> {
        self.palette@
    }

    /// The colours of the pixels.
    pub closed spec fn spec_data(&self) -> Seq<Color> {
        self.data@
    }

    /// The name of the file the image came from.
    pub fn file_name(&self) -> (s: &str)
        ensures
            s@ == self.spec_file_name(),
    {
        self.file_name.as_str()
    }

    /// The colours of the pixels.
    pub fn data(&self) -> (d: &[Color])
        ensures
            d@ == self.spec_data(),
    {
        self.data.as_slice()
    }

    /// The colours of the palette.
    pub fn palette(&self) -> (p: &[Color])
        ensures
            p@ == self.spec_palette(),
    {
        self.palette.as_slice()
    }

    /// The file header.
    pub fn header(&self) -> (h: &BitmapHeader)
        ensures
            *h == self.spec_header(),
    {
        &self.header
    }

    /// The information header.
    pub fn info_header(&self) -> (h: &BitmapInfoHeader)
        ensures
            *h == self.spec_info_header(),
    {
        &self.info_header
    }

    /// The same image, named after the file it came from.
    pub fn named(self, file_name: String) -> (b: Bitmap)
        ensures
            b.spec_file_name() == file_name@,
            b.spec_header() == self.spec_header(),
            b.spec_info_header() == self.spec_info_header(),
            b.spec_palette() == self.spec_palette(),
            b.spec_data() == self.spec_data(),
    {
        Bitmap { file_name, ..self }
    }
}

// ----------------------------------------------------------------------------
// The format as mathematics.
// ----------------------------------------------------------------------------

/// The little-endian 16-bit number at `at`.
pub open spec fn le16(buf: Seq<u8>, at: int) -> int {
    buf[at] + buf[at + 1] * 256
}

/// The little-endian 32-bit number at `at`.
pub open spec fn le32(buf: Seq<u8>, at: int) -> int {
    buf[at] + buf[at + 1] * 256 + buf[at + 2] * 65536 + buf[at + 3] * 16777216
}

/// The file header of `buf`.
pub open spec fn header_spec(buf: Seq<u8>) -> BitmapHeader {
    BitmapHeader { file_size: le32(buf, 0x02) as u32, data_offset: le32(buf, 0x0A) as u32 }
}

/// The depth field of `buf`.
pub open spec fn depth_field(buf: Seq<u8>) -> u16 {
    le16(buf, 0x1C) as u16
}

/// The information header of `buf`, with the depth `depth`.
pub open spec fn info_header_spec(buf: Seq<u8>, depth: BitDepth) -> BitmapInfoHeader {
    BitmapInfoHeader {
        width: le32(buf, 0x12) as u32,
        height: le32(buf, 0x16) as u32,
        bit_depth: depth,
        image_size: le32(buf, 0x22) as u32,
        num_colors: le32(buf, 0x2E) as u32,
        important_colors: le32(buf, 0x32) as u32,
    }
}

/// Whether `buf` starts like a bitmap: both headers are there, the magic
/// bytes are `BM`, and the depth field names a depth.
pub open spec fn is_bitmap(buf: Seq<u8>) -> bool {
    &&& buf.len() >= HEADER_SIZE + INFO_HEADER_SIZE
    &&& buf[0] == 66 && buf[1] == 77
    &&& BitDepth::spec_try_from(depth_field(buf)) is Some
}

/// The palette colour `i` of `buf`, stored blue first at `0x36 + 4 * i`.
pub open spec fn palette_color(buf: Seq<u8>, i: int) -> Color {
    let at = PALETTE_START + 4 * i;
    Color { r: buf[at + 2], g: buf[at + 1], b: buf[at] }
}

/// The palette of `buf`: `count` colours where the depth has a palette.
pub open spec fn palette_spec(buf: Seq<u8>, has_palette: bool, count: nat) -> Seq<Color> {
    if has_palette {
        Seq::new(count, |i: int| palette_color(buf, i))
    } else {
        Seq::empty()
    }
}

/// The pixels of a four-bit image, last first: pixel `k` is the low (for an
/// even `k`) or high nibble of byte `size - 1 - k / 2` of the pixel data,
/// looked up in the palette.
pub open spec fn pixels_spec(buf: Seq<u8>, offset: int, size: nat, palette: Seq<Color>) -> Seq<Color> {
    Seq::new(2 * size, |k: int| {
        let byte = buf[offset + size - 1 - k / 2];
        if k % 2 == 0 {
            palette[(byte % 16) as int]
        } else {
            palette[(byte / 16) as int]
        }
    })
}

/// Whether decoding `buf` stays in bounds: a bitmap this decoder reads has
/// four bits a pixel, a palette inside the file, pixel data inside the file
/// whose offsets fit in 32 bits, and every nibble of it names a colour of the
/// palette.
pub open spec fn decodable(buf: Seq<u8>) -> bool {
    let h = header_spec(buf);
    let i = info_header_spec(buf, BitDepth::Bit4);
    is_bitmap(buf) ==> {
        &&& depth_field(buf) == 4
        &&& PALETTE_START + 4 * i.num_colors <= buf.len()
        &&& h.data_offset + i.image_size <= u32::MAX + 1
        &&& h.data_offset + i.image_size <= buf.len()
        &&& forall|j: int|
            0 <= j < i.image_size ==> #[trigger] buf[h.data_offset + j] / 16 < i.num_colors && buf[h.data_offset
                + j] % 16 < i.num_colors
    }
}

/// The bitmap that `buf` holds, or `NonBitmap`.
pub open spec fn bitmap_spec(buf: Seq<u8>) -> Result<(BitmapHeader, BitmapInfoHeader, Seq<Color>, Seq<Color>), Error> {
    if !is_bitmap(buf) {
        Err(Error::NonBitmap)
    } else {
        let depth = BitDepth::spec_try_from(depth_field(buf))->Some_0;
        let h = header_spec(buf);
        let i = info_header_spec(buf, depth);
        let palette = palette_spec(buf, depth.spec_has_palette(), i.num_colors as nat);
        Ok((h, i, palette, pixels_spec(buf, h.data_offset as int, i.image_size as nat, palette)))
    }
}

// ----------------------------------------------------------------------------
// The decoder.
// ----------------------------------------------------------------------------

fn read_le16(buf: &[u8], at: usize) -> (v: u16)
    requires
        at + 2 <= buf@.len(),
    ensures
        v == le16(buf@, at as int),
{
    buf[at] as u16 + buf[at + 1] as u16 * 256
}

fn read_le32(buf: &[u8], at: usize) -> (v: u32)
    requires
        at + 4 <= buf@.len(),
    ensures
        v == le32(buf@, at as int),
{
    buf[at] as u32 + buf[at + 1] as u32 * 256 + buf[at + 2] as u32 * 65536 + buf[at + 3] as u32 * 16777216
}

fn decode_header(buf: &[u8]) -> (h: BitmapHeader)
    requires
        buf@.len() >= HEADER_SIZE + INFO_HEADER_SIZE,
    ensures
        h == header_spec(buf@),
{
    BitmapHeader { file_size: read_le32(buf, 0x02), data_offset: read_le32(buf, 0x0A) }
}

fn decode_info_header(buf: &[u8]) -> (r: Result<BitmapInfoHeader, Error>)
    requires
        buf@.len() >= HEADER_SIZE + INFO_HEADER_SIZE,
    ensures
        match BitDepth::spec_try_from(depth_field(buf@)) {
            Some(d) => r == Ok::<BitmapInfoHeader, Error>(info_header_spec(buf@, d)),
            None => r == Err::<BitmapInfoHeader, Error>(Error::NonBitmap),
        },
{
    let width = read_le32(buf, 0x12);
    let height = read_le32(buf, 0x16);
    let bit_depth = BitDepth::try_from(read_le16(buf, 0x1C))?;
    let image_size = read_le32(buf, 0x22);
    let num_colors = read_le32(buf, 0x2E);
    let important_colors = read_le32(buf, 0x32);
    Ok(BitmapInfoHeader { width, height, bit_depth, image_size, num_colors, important_colors })
}

fn decode_palette(info_header: &BitmapInfoHeader, buf: &[u8]) -> (colors: Vec<Color>)
    requires
        info_header.bit_depth.spec_has_palette() ==> PALETTE_START + 4 * info_header.num_colors <= buf@.len(),
    ensures
        colors@ == palette_spec(buf@, info_header.bit_depth.spec_has_palette(), info_header.num_colors as nat),
{
    let mut colors: Vec<Color> = Vec::new();
    if info_header.bit_depth.has_palette() {
        let n = info_header.num_colors as usize;
        let len = buf.len();
        let mut i: usize = 0;
        while i < n
            invariant
                i <= n,
                len == buf@.len(),
                n == info_header.num_colors,
                PALETTE_START + 4 * n <= buf@.len(),
                colors@ == Seq::new(i as nat, |j: int| palette_color(buf@, j)),
            decreases n - i,
        {
            assert(PALETTE_START + i * 4 + 4 <= buf@.len());
            let at = PALETTE_START + i * 4;
            let color = Color::from_bgr([buf[at], buf[at + 1], buf[at + 2]]);
            colors.push(color);
            i = i + 1;
            assert(colors@ =~= Seq::new(i as nat, |j: int| palette_color(buf@, j)));
        }
    }
    assert(colors@ =~= palette_spec(buf@, info_header.bit_depth.spec_has_palette(), info_header.num_colors as nat));
    colors
}

fn decode_4_bit_colors(data_offset: u32, size: u32, palette: &[Color], buf: &[u8]) -> (colors: Vec<Color>)
    requires
        data_offset + size <= u32::MAX + 1,
        data_offset + size <= buf@.len(),
        forall|j: int|
            0 <= j < size ==> #[trigger] buf@[data_offset + j] / 16 < palette@.len() && buf@[data_offset + j] % 16
                < palette@.len(),
    ensures
        colors@ == pixels_spec(buf@, data_offset as int, size as nat, palette@),
{
    let ghost want = pixels_spec(buf@, data_offset as int, size as nat, palette@);
    let mut colors: Vec<Color> = Vec::new();
    let mut left: u32 = size;
    while left > 0
        invariant
            left <= size,
            data_offset + size <= u32::MAX + 1,
            data_offset + size <= buf@.len(),
            forall|j: int|
                0 <= j < size ==> #[trigger] buf@[data_offset + j] / 16 < palette@.len() && buf@[data_offset + j] % 16
                    < palette@.len(),
            want == pixels_spec(buf@, data_offset as int, size as nat, palette@),
            colors@ == want.take(2 * (size - left)),
        decreases left,
    {
        let at = data_offset + (left - 1);
        let byte = buf[at as usize];
        assert(buf@[data_offset + (left - 1)] / 16 < palette@.len());
        let lower = byte & 0b1111;
        let upper = byte >> 4;
        assert(lower == byte % 16 && upper == byte / 16) by (bit_vector)
            requires
                lower == byte & 0b1111,
                upper == byte >> 4,
        ;
        colors.push(palette[lower as usize]);
        colors.push(palette[upper as usize]);
        let ghost k = 2 * (size - left);
        proof {
            assert(k / 2 == size - left && (k + 1) / 2 == size - left);
            assert(k % 2 == 0 && (k + 1) % 2 == 1);
        }
        left = left - 1;
        assert(colors@ =~= want.take(2 * (size - left)));
    }
    assert(colors@ =~= want);
    colors
}

/// Decodes the bytes of a bitmap file (see `bitmap_spec`): `NonBitmap` where
/// they are too short for both headers, do not start with `BM`, or name no
/// depth. Only four-bit images are decoded (see `decodable`).
pub fn from_reader(buffer: &[u8]) -> (r: Result<Bitmap, Error>)
    requires
        decodable(buffer@),
    ensures
        match bitmap_spec(buffer@) {
            Ok((h, i, palette, data)) => r matches Ok(b) && b.spec_file_name() == Seq::<char>::empty()
                && b.spec_header() == h && b.spec_info_header() == i && b.spec_palette() == palette
                && b.spec_data() == data,
            Err(e) => r matches Err(x) && x == e,
        },
{
    if buffer.len() < HEADER_SIZE + INFO_HEADER_SIZE {
        return Err(Error::NonBitmap);
    }
    if buffer[0] != 66 || buffer[1] != 77 {
        return Err(Error::NonBitmap);
    }
    let header = decode_header(buffer);
    let info_header = decode_info_header(buffer)?;
    let palette = decode_palette(&info_header, buffer);
    let data = decode_4_bit_colors(header.data_offset, info_header.image_size, palette.as_slice(), buffer);
    Ok(Bitmap { file_name: String::new(), header, info_header, palette, data })
}

/// Whether decoding `buffer` stays in bounds (see `decodable`).
pub fn is_decodable(buffer: &[u8]) -> (b: bool)
    ensures
        b == decodable(buffer@),
{
    if buffer.len() < HEADER_SIZE + INFO_HEADER_SIZE || buffer[0] != 66 || buffer[1] != 77 {
        return true;
    }
    let depth = read_le16(buffer, 0x1C);
    if BitDepth::try_from(depth).is_err() {
        return true;
    }
    if depth != 4 {
        return false;
    }
    let header = decode_header(buffer);
    let num_colors = read_le32(buffer, 0x2E);
    let size = read_le32(buffer, 0x22);
    let len = buffer.len() as u64;
    if PALETTE_START as u64 + 4 * (num_colors as u64) > len {
        return false;
    }
    let offset = header.data_offset;
    if offset as u64 + size as u64 > u32::MAX as u64 + 1 || offset as u64 + size as u64 > len {
        return false;
    }
    let mut j: u32 = 0;
    while j < size
        invariant
            j <= size,
            is_bitmap(buffer@),
            offset + size <= buffer@.len(),
            offset + size <= u32::MAX + 1,
            offset == header_spec(buffer@).data_offset,
            size == info_header_spec(buffer@, BitDepth::Bit4).image_size,
            num_colors == info_header_spec(buffer@, BitDepth::Bit4).num_colors,
            forall|k: int|
                0 <= k < j ==> #[trigger] buffer@[offset + k] / 16 < num_colors && buffer@[offset + k] % 16
                    < num_colors,
        decreases size - j,
    {
        let byte = buffer[(offset + j) as usize];
        if byte as u32 / 16 >= num_colors || byte as u32 % 16 >= num_colors {
            proof {
                let h = header_spec(buffer@);
                assert(buffer@[h.data_offset + (j as int)] == byte);
                assert(!decodable(buffer@));
            }
            return false;
        }
        j = j + 1;
    }
    true
}

} // verus!
