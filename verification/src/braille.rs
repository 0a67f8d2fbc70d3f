use image::{ImageBuffer, Luma, Pixel};
use slice_of_array::prelude::SliceFlatExt;
use vstd::arithmetic::power2::{lemma2_to64, pow2};
use vstd::pervasive::unreached;
use vstd::prelude::*;

verus! {

/// How pixels are turned into braille dots.
#[derive(Clone, Copy, Debug)]
pub struct BrailleConfig {
    /// The text will be shown in a fixed-width font.
    pub monospace: bool,
    /// Raise a dot for light pixels instead of dark ones.
    pub invert: bool,
    /// Luminance against which each pixel is compared.
    pub threshold: u8,
}

impl Default for BrailleConfig {
    fn default() -> (config: Self)
        ensures
            !config.monospace,
            !config.invert,
            config.threshold == 125,
    {
        BrailleConfig { monospace: false, invert: false, threshold: 125 }
    }
}

/// A grayscale image with eight bits for each pixel, kept in the buffer
/// type of the image crate.
#[verifier::external_body]
pub struct LumaImage {
    inner: ImageBuffer<Luma<u8>, Vec<u8>>,
}

/// Number of pixels in each row of an image.
pub uninterp spec fn image_width(image: LumaImage) -> u32;

/// Number of rows of an image.
pub uninterp spec fn image_height(image: LumaImage) -> u32;

/// The luminance of every pixel of an image, row after row from the top,
/// each row from the left.
pub uninterp spec fn image_luma(image: LumaImage) -> Seq<u8>;

/// `ImageBuffer::from_raw`: the image of the given size over the samples,
/// of which the first `width * height` are its pixels. There is no image
/// when the samples are fewer than that.
#[verifier::external_body]
fn from_raw(width: u32, height: u32, samples: Vec<u8>) -> (image: Option<LumaImage>)
    ensures
        image.is_some() <==> width * height <= samples@.len(),
        image.is_some() ==> {
            &&& image_width(image.unwrap()) == width
            &&& image_height(image.unwrap()) == height
            &&& image_luma(image.unwrap()) == samples@.subrange(0, width * height)
        },
{
    match ImageBuffer::from_raw(width, height, samples) {
        Some(inner) => Some(LumaImage { inner }),
        None => None,
    }
}

/// `ImageBuffer::width`.
#[verifier::external_body]
fn width_of(image: &LumaImage) -> (width: u32)
    ensures
        width == image_width(*image),
{
    image.inner.width()
}

/// `ImageBuffer::height`.
#[verifier::external_body]
fn height_of(image: &LumaImage) -> (height: u32)
    ensures
        height == image_height(*image),
{
    image.inner.height()
}

/// `ImageBuffer::get_pixel` followed by `Pixel::to_luma`, which on a
/// grayscale pixel keeps its one sample: the luminance at column `x` of
/// row `y`. The position has to lie inside the image.
#[verifier::external_body]
fn luma_at(image: &LumaImage, x: u32, y: u32) -> (value: u8)
    requires
        x < image_width(*image),
        y < image_height(*image),
    ensures
        value == image_luma(*image)[y * image_width(*image) + x],
{
    image.inner.get_pixel(x, y).to_luma().0[0]
}

impl LumaImage {
    /// The image of `width` by `height` pixels whose luminances are the
    /// first `width * height` samples, read row by row. `None` when there
    /// are too few samples.
    pub fn new(width: u32, height: u32, samples: Vec<u8>) -> (image: Option<LumaImage>)
        ensures
            image.is_some() <==> width * height <= samples@.len(),
            image.is_some() ==> {
                &&& image_width(image.unwrap()) == width
                &&& image_height(image.unwrap()) == height
                &&& image_luma(image.unwrap()) == samples@.subrange(0, width * height)
            },
    {
        from_raw(width, height, samples)
    }

    /// Number of pixels in each row.
    pub fn width(&self) -> (width: u32)
        ensures
            width == image_width(*self),
    {
        width_of(self)
    }

    /// Number of rows.
    pub fn height(&self) -> (height: u32)
        ensures
            height == image_height(*self),
    {
        height_of(self)
    }
}

/// First code point of the braille block: the cell with no dot raised.
pub const BRAILLE_BASE: u32 = 0x2800;

/// The cell with only the lower-left dot of the upper three rows raised.
pub const BRAILLE_LOW_DOT: u32 = 0x2804;

/// Bit that a dot contributes to the code point of its cell. The left column
/// of the upper three rows holds bits 0 to 2, the right column bits 3 to 5,
/// and the bottom row bits 6 and 7.
pub open spec fn dot_weight(row: int, col: int) -> nat {
    if row == 0 && col == 0 {
        1
    } else if row == 1 && col == 0 {
        2
    } else if row == 2 && col == 0 {
        4
    } else if row == 0 && col == 1 {
        8
    } else if row == 1 && col == 1 {
        16
    } else if row == 2 && col == 1 {
        32
    } else if row == 3 && col == 0 {
        64
    } else if row == 3 && col == 1 {
        128
    } else {
        0
    }
}

/// What the cell at `(row, col)` adds to the code point.
pub open spec fn dot_value(pattern: [[bool; 2]; 4], row: int, col: int) -> nat {
    if pattern[row][col] {
        dot_weight(row, col)
    } else {
        0
    }
}

/// Distance of a pattern's code point from the start of the braille block.
pub open spec fn pattern_offset(pattern: [[bool; 2]; 4]) -> nat {
    dot_value(pattern, 0, 0) + dot_value(pattern, 0, 1) + dot_value(pattern, 1, 0) + dot_value(
        pattern,
        1,
        1,
    ) + dot_value(pattern, 2, 0) + dot_value(pattern, 2, 1) + dot_value(pattern, 3, 0)
        + dot_value(pattern, 3, 1)
}

/// Code point that stands for a pattern. A pattern without dots is drawn as
/// a single low dot in monospace mode, so that the cell stays visible.
pub open spec fn braille_code(pattern: [[bool; 2]; 4], config: BrailleConfig) -> nat {
    if config.monospace && pattern_offset(pattern) == 0 {
        BRAILLE_LOW_DOT as nat
    } else {
        BRAILLE_BASE as nat + pattern_offset(pattern)
    }
}

/// Sum of the first `n` cells of a pattern, read row by row.
pub open spec fn partial_offset(pattern: [[bool; 2]; 4], n: int) -> nat
    decreases n,
{
    if n <= 0 {
        0
    } else {
        partial_offset(pattern, n - 1) + dot_value(pattern, (n - 1) / 2, (n - 1) % 2)
    }
}

proof fn lemma_partial_offset_full(pattern: [[bool; 2]; 4])
    ensures
        partial_offset(pattern, 8) == pattern_offset(pattern),
{
    reveal_with_fuel(partial_offset, 9);
}

/// `SliceFlatExt::flat` of slice_of_array on a 4 by 2 grid: the same cells
/// seen as one slice of eight, row after row.
#[verifier::external_body]
fn flat_cells(pattern: &[[bool; 2]; 4]) -> (cells: &[bool])
    ensures
        cells@.len() == 8,
        forall|i: int| 0 <= i < 8 ==> cells@[i] == #[trigger] pattern[i / 2][i % 2],
{
    pattern.flat()
}

/// `char::from_u32`: the character with the given scalar value, and `None`
/// for a surrogate or a value above `0x10FFFF`.
#[verifier::external_body]
fn char_from_u32(value: u32) -> (c: Option<char>)
    ensures
        c.is_some() <==> (value < 0xD800 || 0xDFFF < value <= 0x10FFFF),
        c.is_some() ==> c.unwrap() as u32 == value,
{
    char::from_u32(value)
}

/// Bit position of each cell of a pattern, the cells read row by row.
fn shift_code(index: usize) -> (shift: u32)
    requires
        index < 8,
    ensures
        shift < 8,
        pow2(shift as nat) == dot_weight(index as int / 2, index as int % 2),
{
    proof {
        lemma2_to64();
    }
    if index == 0 {
        0
    } else if index == 1 {
        3
    } else if index == 2 {
        1
    } else if index == 3 {
        4
    } else if index == 4 {
        2
    } else if index == 5 {
        5
    } else if index == 6 {
        6
    } else {
        7
    }
}

/// A single bit at one of the eight positions of a cell is that power of two.
proof fn lemma_bit_is_power(shift: u32)
    requires
        shift < 8,
    ensures
        (1u32 << shift) == pow2(shift as nat),
{
    lemma2_to64();
    assert(shift < 8 ==> (1u32 << shift) == if shift == 0 {
        1u32
    } else if shift == 1 {
        2u32
    } else if shift == 2 {
        4u32
    } else if shift == 3 {
        8u32
    } else if shift == 4 {
        16u32
    } else if shift == 5 {
        32u32
    } else if shift == 6 {
        64u32
    } else {
        128u32
    }) by (bit_vector);
}

/// The braille character whose raised dots are the `true` fields of the pattern.
pub fn pattern_to_braille(pattern: [[bool; 2]; 4], config: &BrailleConfig) -> (c: char)
    ensures
        c as u32 == braille_code(pattern, *config),
{
    let cells = flat_cells(&pattern);
    let mut offset: u32 = 0;
    let mut i: usize = 0;
    while i < 8
        invariant
            i <= 8,
            cells@.len() == 8,
            forall|k: int| 0 <= k < 8 ==> cells@[k] == #[trigger] pattern[k / 2][k % 2],
            offset == partial_offset(pattern, i as int),
            offset <= 128 * i,
        decreases 8 - i,
    {
        let shift = shift_code(i);
        proof {
            lemma2_to64();
            lemma_bit_is_power(shift);
            assert(cells@[i as int] == pattern[i as int / 2][i as int % 2]);
        }
        if cells[i] {
            offset = offset + (1u32 << shift);
        }
        i = i + 1;
    }
    proof {
        lemma_partial_offset_full(pattern);
    }
    if config.monospace && offset == 0 {
        '\u{2804}'
    } else {
        match char_from_u32(BRAILLE_BASE + offset) {
            Some(c) => c,
            None => unreached(),
        }
    }
}

/// Whether a pixel of the given luminance raises its dot.
pub open spec fn dot_raised(luma: u8, config: BrailleConfig) -> bool {
    if !config.invert {
        luma < config.threshold
    } else {
        luma > config.threshold
    }
}

/// Luminance of the pixel at column `x` of row `y`.
pub open spec fn pixel(image: LumaImage, x: int, y: int) -> u8 {
    image_luma(image)[y * image_width(image) + x]
}

/// Whether the pattern holds the dots of the two by four pixels whose upper
/// left corner is `(x, y)`.
pub open spec fn is_pattern_at(
    pattern: [[bool; 2]; 4],
    image: LumaImage,
    x: int,
    y: int,
    config: BrailleConfig,
) -> bool {
    forall|row: int, col: int|
        0 <= row < 4 && 0 <= col < 2 ==> #[trigger] pattern[row][col] == dot_raised(
            pixel(image, x + col, y + row),
            config,
        )
}

/// What the pixel at `(x + col, y + row)` adds to the code point of the
/// cell whose upper left corner is `(x, y)`.
pub open spec fn cell_dot(
    image: LumaImage,
    x: int,
    y: int,
    row: int,
    col: int,
    config: BrailleConfig,
) -> nat {
    if dot_raised(pixel(image, x + col, y + row), config) {
        dot_weight(row, col)
    } else {
        0
    }
}

/// Distance from the start of the braille block of the cell whose upper
/// left corner is `(x, y)`.
pub open spec fn cell_offset(image: LumaImage, x: int, y: int, config: BrailleConfig) -> nat {
    cell_dot(image, x, y, 0, 0, config) + cell_dot(image, x, y, 0, 1, config) + cell_dot(
        image,
        x,
        y,
        1,
        0,
        config,
    ) + cell_dot(image, x, y, 1, 1, config) + cell_dot(image, x, y, 2, 0, config) + cell_dot(
        image,
        x,
        y,
        2,
        1,
        config,
    ) + cell_dot(image, x, y, 3, 0, config) + cell_dot(image, x, y, 3, 1, config)
}

/// Code point of the braille character for the cell whose upper left corner
/// is `(x, y)`.
pub open spec fn cell_code(image: LumaImage, x: int, y: int, config: BrailleConfig) -> nat {
    if config.monospace && cell_offset(image, x, y, config) == 0 {
        BRAILLE_LOW_DOT as nat
    } else {
        BRAILLE_BASE as nat + cell_offset(image, x, y, config)
    }
}

/// Characters in each row of the text: one for every two whole columns.
pub open spec fn text_width(image: LumaImage) -> nat {
    (image_width(image) / 2) as nat
}

/// Rows of the text: one for every four whole rows of pixels.
pub open spec fn text_height(image: LumaImage) -> nat {
    (image_height(image) / 4) as nat
}

/// Whether `line` holds the characters of the four rows of pixels that
/// start at row `y` of an image.
pub open spec fn is_text_row(
    line: Seq<char>,
    image: LumaImage,
    y: int,
    config: BrailleConfig,
) -> bool {
    &&& line.len() == text_width(image)
    &&& forall|k: int|
        0 <= k < line.len() ==> (#[trigger] line[k]) as u32 == cell_code(image, 2 * k, y, config)
}

/// The pattern of a cell stands for the code point of that cell.
pub proof fn lemma_pattern_code(
    pattern: [[bool; 2]; 4],
    image: LumaImage,
    x: int,
    y: int,
    config: BrailleConfig,
)
    requires
        is_pattern_at(pattern, image, x, y, config),
    ensures
        braille_code(pattern, config) == cell_code(image, x, y, config),
{
    assert(pattern[0][0] == dot_raised(pixel(image, x + 0, y + 0), config));
    assert(pattern[0][1] == dot_raised(pixel(image, x + 1, y + 0), config));
    assert(pattern[1][0] == dot_raised(pixel(image, x + 0, y + 1), config));
    assert(pattern[1][1] == dot_raised(pixel(image, x + 1, y + 1), config));
    assert(pattern[2][0] == dot_raised(pixel(image, x + 0, y + 2), config));
    assert(pattern[2][1] == dot_raised(pixel(image, x + 1, y + 2), config));
    assert(pattern[3][0] == dot_raised(pixel(image, x + 0, y + 3), config));
    assert(pattern[3][1] == dot_raised(pixel(image, x + 1, y + 3), config));
}

/// Whether the pixel at `(x, y)` raises its dot.
fn dot_at(image: &LumaImage, x: u32, y: u32, config: &BrailleConfig) -> (raised: bool)
    requires
        x < image_width(*image),
        y < image_height(*image),
    ensures
        raised == dot_raised(pixel(*image, x as int, y as int), *config),
{
    let val = luma_at(image, x, y);
    if !config.invert {
        val < config.threshold
    } else {
        val > config.threshold
    }
}

/// The dots of the two by four pixels whose upper left corner is `(x, y)`.
fn extract_pattern(image: &LumaImage, x: u32, y: u32, config: &BrailleConfig) -> (pattern: [[
    bool;
    2
]; 4])
    requires
        x + 1 < image_width(*image),
        y + 3 < image_height(*image),
    ensures
        is_pattern_at(pattern, *image, x as int, y as int, *config),
{
    let a0 = dot_at(image, x, y, config);
    let a1 = dot_at(image, x, y + 1, config);
    let a2 = dot_at(image, x, y + 2, config);
    let a3 = dot_at(image, x, y + 3, config);
    let b0 = dot_at(image, x + 1, y, config);
    let b1 = dot_at(image, x + 1, y + 1, config);
    let b2 = dot_at(image, x + 1, y + 2, config);
    let b3 = dot_at(image, x + 1, y + 3, config);
    [[a0, b0], [a1, b1], [a2, b2], [a3, b3]]
}

/// The braille characters of the four rows of pixels that start at row `y`.
fn extract_pattern_row(image: &LumaImage, y: u32, config: &BrailleConfig) -> (line: Vec<char>)
    requires
        image_width(*image) >= 1,
        y + 3 < image_height(*image),
    ensures
        line@.len() == text_width(*image),
        forall|k: int|
            0 <= k < line@.len() ==> (#[trigger] line@[k]) as u32 == cell_code(
                *image,
                2 * k,
                y as int,
                *config,
            ),
{
    let width = width_of(image);
    let mut line: Vec<char> = Vec::new();
    let mut x: u32 = 0;
    while x < width - 1
        invariant
            width == image_width(*image),
            width >= 1,
            y + 3 < image_height(*image),
            x % 2 == 0,
            x <= width,
            line@.len() == x / 2,
            forall|k: int|
                0 <= k < line@.len() ==> (#[trigger] line@[k]) as u32 == cell_code(
                    *image,
                    2 * k,
                    y as int,
                    *config,
                ),
        decreases width - x,
    {
        let pattern = extract_pattern(image, x, y, config);
        let c = pattern_to_braille(pattern, config);
        proof {
            lemma_pattern_code(pattern, *image, x as int, y as int, *config);
        }
        line.push(c);
        x = x + 2;
    }
    line
}

/// The text of an image that holds at least one column and three rows of
/// pixels: one braille character for every two by four pixels, row by row.
/// Columns and rows of pixels that fill no whole character are left out.
pub fn image_to_patterns(image: &LumaImage, config: &BrailleConfig) -> (text: Vec<Vec<char>>)
    requires
        image_width(*image) >= 1,
        image_height(*image) >= 3,
    ensures
        text@.len() == text_height(*image),
        forall|row: int|
            0 <= row < text@.len() ==> is_text_row(
                (#[trigger] text@[row])@,
                *image,
                4 * row,
                *config,
            ),
{
    let height = height_of(image);
    let mut text: Vec<Vec<char>> = Vec::new();
    let mut y: u32 = 0;
    while y < height - 3
        invariant
            height == image_height(*image),
            height >= 3,
            image_width(*image) >= 1,
            y % 4 == 0,
            y <= height,
            text@.len() == y / 4,
            forall|row: int|
                0 <= row < text@.len() ==> is_text_row(
                    (#[trigger] text@[row])@,
                    *image,
                    4 * row,
                    *config,
                ),
        decreases height - y,
    {
        let line = extract_pattern_row(image, y, config);
        text.push(line);
        y = y + 4;
    }
    text
}

/// The text of an image, where the image holds at least one column and
/// three rows of pixels, and nothing where it holds fewer.
pub fn image_text(image: &LumaImage, config: &BrailleConfig) -> (text: Option<Vec<Vec<char>>>)
    ensures
        text.is_some() <==> image_width(*image) >= 1 && image_height(*image) >= 3,
        text.is_some() ==> {
            &&& text.unwrap()@.len() == text_height(*image)
            &&& forall|row: int|
                0 <= row < text.unwrap()@.len() ==> is_text_row(
                    (#[trigger] text.unwrap()@[row])@,
                    *image,
                    4 * row,
                    *config,
                )
        },
{
    if width_of(image) >= 1 && height_of(image) >= 3 {
        Some(image_to_patterns(image, config))
    } else {
        None
    }
}

} // verus!
