use vstd::prelude::*;
use crate::radiance::{is_displayed, Radiance};

verus! {

/// A rendered image: `width * height` pixels, row after row from the top, each
/// row from left to right.
pub struct Buffer<C> {
    pixels: Vec<C>,
    width: usize,
    height: usize,
}

/// The character that writes the decimal digit `d`.
pub open spec fn digit_char(d: nat) -> char
    recommends
        d < 10,
{
    seq!['0', '1', '2', '3', '4', '5', '6', '7', '8', '9'][d as int]
}

/// The decimal numeral of `n`, without sign or leading zeros.
pub open spec fn decimal(n: nat) -> Seq<char>
    decreases n,
{
    if n < 10 {
        seq![digit_char(n)]
    } else {
        decimal(n / 10).push(digit_char(n % 10))
    }
}

fn digit_str(d: usize) -> (s: &'static str)
    requires
        d < 10,
    ensures
        s@ == seq![digit_char(d as nat)],
{
    proof {
        reveal_strlit("0");
        reveal_strlit("1");
        reveal_strlit("2");
        reveal_strlit("3");
        reveal_strlit("4");
        reveal_strlit("5");
        reveal_strlit("6");
        reveal_strlit("7");
        reveal_strlit("8");
        reveal_strlit("9");
    }
    let s = if d == 0 {
        "0"
    } else if d == 1 {
        "1"
    } else if d == 2 {
        "2"
    } else if d == 3 {
        "3"
    } else if d == 4 {
        "4"
    } else if d == 5 {
        "5"
    } else if d == 6 {
        "6"
    } else if d == 7 {
        "7"
    } else if d == 8 {
        "8"
    } else {
        "9"
    };
    assert(s@ =~= seq![digit_char(d as nat)]);
    s
}

/// Appends the decimal numeral of `n` to `text`.
pub fn push_decimal(text: &mut String, n: usize)
    ensures
        final(text)@ == old(text)@ + decimal(n as nat),
    decreases n,
{
    if n >= 10 {
        push_decimal(text, n / 10);
    }
    text.append(digit_str(n % 10));
    assert(final(text)@ =~= old(text)@ + decimal(n as nat));
}

/// The three header lines of the plain-text raster format.
pub open spec fn ppm_header(width: nat, height: nat) -> Seq<char> {
    seq!['P', '3', '\n'] + decimal(width) + seq![' '] + decimal(height) + seq![
        '\n',
        '2',
        '5',
        '5',
        '\n',
    ]
}

/// The line of one pixel: red, green and blue, separated by single spaces.
pub open spec fn ppm_line(pixel: (u8, u8, u8)) -> Seq<char> {
    decimal(pixel.0 as nat) + seq![' '] + decimal(pixel.1 as nat) + seq![' '] + decimal(
        pixel.2 as nat,
    ) + seq!['\n']
}

/// The lines of `pixels`, one after another in the order of the sequence.
pub open spec fn ppm_body(pixels: Seq<(u8, u8, u8)>) -> Seq<char>
    decreases pixels.len(),
{
    if pixels.len() == 0 {
        Seq::empty()
    } else {
        ppm_body(pixels.drop_last()) + ppm_line(pixels.last())
    }
}

/// An image in the plain-text raster format: the header, then the pixels.
pub open spec fn ppm(width: nat, height: nat, pixels: Seq<(u8, u8, u8)>) -> Seq<char> {
    ppm_header(width, height) + ppm_body(pixels)
}

/// The flat bytes of `pixels`: four per pixel, red, green, blue and an alpha
/// of 255.
pub open spec fn rgba(pixels: Seq<(u8, u8, u8)>) -> Seq<u8> {
    Seq::new(
        4 * pixels.len(),
        |k: int|
            if k % 4 == 0 {
                pixels[k / 4].0
            } else if k % 4 == 1 {
                pixels[k / 4].1
            } else if k % 4 == 2 {
                pixels[k / 4].2
            } else {
                255u8
            },
    )
}

/// The number of places in `text` at which `mark` stands.
pub open spec fn count_of(text: Seq<char>, mark: char) -> nat
    decreases text.len(),
{
    if text.len() == 0 {
        0
    } else {
        count_of(text.drop_last(), mark) + if text.last() == mark {
            1nat
        } else {
            0nat
        }
    }
}

proof fn lemma_count_of_concat(left: Seq<char>, right: Seq<char>, mark: char)
    ensures
        count_of(left + right, mark) == count_of(left, mark) + count_of(right, mark),
    decreases right.len(),
{
    if right.len() == 0 {
        assert(left + right =~= left);
    } else {
        assert((left + right).drop_last() =~= left + right.drop_last());
        lemma_count_of_concat(left, right.drop_last(), mark);
    }
}

proof fn lemma_count_of_push(text: Seq<char>, c: char, mark: char)
    ensures
        count_of(text.push(c), mark) == count_of(text, mark) + if c == mark {
            1nat
        } else {
            0nat
        },
{
    assert(text.push(c).drop_last() =~= text);
}

proof fn lemma_decimal_is_digits(n: nat, mark: char)
    requires
        mark == ' ' || mark == '\n',
    ensures
        count_of(decimal(n), mark) == 0,
    decreases n,
{
    if n < 10 {
        lemma_count_of_push(Seq::empty(), digit_char(n), mark);
        assert(decimal(n) =~= Seq::<char>::empty().push(digit_char(n)));
    } else {
        lemma_decimal_is_digits(n / 10, mark);
        lemma_count_of_push(decimal(n / 10), digit_char(n % 10), mark);
    }
}

proof fn lemma_ppm_header_marks(width: nat, height: nat, mark: char)
    requires
        mark == ' ' || mark == '\n',
    ensures
        count_of(ppm_header(width, height), mark) == if mark == '\n' {
            3nat
        } else {
            1nat
        },
{
    let empty = Seq::<char>::empty();
    let magic = seq!['P', '3', '\n'];
    let depth = seq!['\n', '2', '5', '5', '\n'];
    lemma_count_of_push(empty, 'P', mark);
    lemma_count_of_push(empty.push('P'), '3', mark);
    lemma_count_of_push(empty.push('P').push('3'), '\n', mark);
    assert(magic =~= empty.push('P').push('3').push('\n'));
    lemma_count_of_push(empty, '\n', mark);
    lemma_count_of_push(empty.push('\n'), '2', mark);
    lemma_count_of_push(empty.push('\n').push('2'), '5', mark);
    lemma_count_of_push(empty.push('\n').push('2').push('5'), '5', mark);
    lemma_count_of_push(empty.push('\n').push('2').push('5').push('5'), '\n', mark);
    assert(depth =~= empty.push('\n').push('2').push('5').push('5').push('\n'));
    lemma_decimal_is_digits(width, mark);
    lemma_decimal_is_digits(height, mark);
    lemma_count_of_push(magic + decimal(width), ' ', mark);
    assert(magic + decimal(width) + seq![' '] =~= (magic + decimal(width)).push(' '));
    lemma_count_of_concat(magic, decimal(width), mark);
    lemma_count_of_concat(magic + decimal(width) + seq![' '], decimal(height), mark);
    lemma_count_of_concat(magic + decimal(width) + seq![' '] + decimal(height), depth, mark);
}

proof fn lemma_ppm_line_marks(pixel: (u8, u8, u8), mark: char)
    requires
        mark == ' ' || mark == '\n',
    ensures
        count_of(ppm_line(pixel), mark) == if mark == '\n' {
            1nat
        } else {
            2nat
        },
{
    let red = decimal(pixel.0 as nat);
    let green = decimal(pixel.1 as nat);
    let blue = decimal(pixel.2 as nat);
    lemma_decimal_is_digits(pixel.0 as nat, mark);
    lemma_decimal_is_digits(pixel.1 as nat, mark);
    lemma_decimal_is_digits(pixel.2 as nat, mark);
    lemma_count_of_push(red, ' ', mark);
    assert(red + seq![' '] =~= red.push(' '));
    lemma_count_of_concat(red + seq![' '], green, mark);
    lemma_count_of_push(red + seq![' '] + green, ' ', mark);
    assert(red + seq![' '] + green + seq![' '] =~= (red + seq![' '] + green).push(' '));
    lemma_count_of_concat(red + seq![' '] + green + seq![' '], blue, mark);
    lemma_count_of_push(red + seq![' '] + green + seq![' '] + blue, '\n', mark);
    assert(ppm_line(pixel) =~= (red + seq![' '] + green + seq![' '] + blue).push('\n'));
}

/// The line of a pixel holds three numerals: it has two spaces, and its one
/// line end is its last character.
pub proof fn lemma_ppm_line_is_a_triple(pixel: (u8, u8, u8))
    ensures
        count_of(ppm_line(pixel), ' ') == 2,
        count_of(ppm_line(pixel), '\n') == 1,
        ppm_line(pixel).last() == '\n',
{
    lemma_ppm_line_marks(pixel, ' ');
    lemma_ppm_line_marks(pixel, '\n');
}

/// The lines of the pixels stand in the order of the pixels: the line of
/// pixel `k` comes after the lines of the pixels before it and before the
/// lines of the pixels after it.
pub proof fn lemma_ppm_body_in_order(pixels: Seq<(u8, u8, u8)>, k: int)
    requires
        0 <= k < pixels.len(),
    ensures
        ppm_body(pixels) == ppm_body(pixels.take(k)) + ppm_line(pixels[k]) + ppm_body(
            pixels.skip(k + 1),
        ),
    decreases pixels.len(),
{
    if k == pixels.len() - 1 {
        assert(pixels.drop_last() =~= pixels.take(k));
        assert(pixels.skip(k + 1) =~= Seq::<(u8, u8, u8)>::empty());
        assert(ppm_body(pixels) =~= ppm_body(pixels.take(k)) + ppm_line(pixels[k]) + ppm_body(
            pixels.skip(k + 1),
        ));
    } else {
        let shorter = pixels.drop_last();
        lemma_ppm_body_in_order(shorter, k);
        assert(shorter.take(k) =~= pixels.take(k));
        assert(pixels.skip(k + 1).drop_last() =~= shorter.skip(k + 1));
        assert(pixels.skip(k + 1).last() == pixels.last());
        assert(ppm_body(pixels) =~= ppm_body(pixels.take(k)) + ppm_line(pixels[k]) + ppm_body(
            pixels.skip(k + 1),
        ));
    }
}

/// The text of an image of `n` pixels has the three lines of the header and
/// after them exactly `n` lines, one for each pixel.
pub proof fn lemma_ppm_has_a_line_for_each_pixel(
    width: nat,
    height: nat,
    pixels: Seq<(u8, u8, u8)>,
)
    ensures
        count_of(ppm_header(width, height), '\n') == 3,
        count_of(ppm_body(pixels), '\n') == pixels.len(),
        count_of(ppm(width, height, pixels), '\n') == 3 + pixels.len(),
    decreases pixels.len(),
{
    lemma_ppm_header_marks(width, height, '\n');
    if pixels.len() > 0 {
        lemma_ppm_has_a_line_for_each_pixel(width, height, pixels.drop_last());
        lemma_ppm_line_is_a_triple(pixels.last());
        lemma_count_of_concat(ppm_body(pixels.drop_last()), ppm_line(pixels.last()), '\n');
    }
    lemma_count_of_concat(ppm_header(width, height), ppm_body(pixels), '\n');
}

/// `bytes` holds, pixel by pixel, display bytes of `colours`.
pub open spec fn displayed<C: Radiance>(colours: Seq<C>, bytes: Seq<(u8, u8, u8)>) -> bool {
    &&& bytes.len() == colours.len()
    &&& forall|k: int| 0 <= k < colours.len() ==> is_displayed(colours[k], #[trigger] bytes[k])
}

/// Writes `pixels` as an image of the given size in the plain-text raster
/// format.
pub fn ppm_text(width: usize, height: usize, pixels: &Vec<(u8, u8, u8)>) -> (text: String)
    ensures
        text@ == ppm(width as nat, height as nat, pixels@),
{
    proof {
        reveal_strlit("P3\n");
        reveal_strlit(" ");
        reveal_strlit("\n255\n");
    }
    let mut text = String::new();
    text.append("P3\n");
    push_decimal(&mut text, width);
    text.append(" ");
    push_decimal(&mut text, height);
    text.append("\n255\n");
    assert(text@ =~= ppm_header(width as nat, height as nat));
    let mut index: usize = 0;
    while index < pixels.len()
        invariant
            index <= pixels@.len(),
            text@ == ppm_header(width as nat, height as nat) + ppm_body(pixels@.take(index as int)),
        decreases pixels@.len() - index,
    {
        proof {
            reveal_strlit(" ");
            reveal_strlit("\n");
        }
        let ghost before = text@;
        let ghost pixel = pixels@[index as int];
        let (red, green, blue) = pixels[index];
        push_decimal(&mut text, red as usize);
        text.append(" ");
        assert(text@ =~= before + (decimal(pixel.0 as nat) + seq![' ']));
        push_decimal(&mut text, green as usize);
        text.append(" ");
        assert(text@ =~= before + (decimal(pixel.0 as nat) + seq![' '] + decimal(pixel.1 as nat)
            + seq![' ']));
        push_decimal(&mut text, blue as usize);
        text.append("\n");
        assert(text@ =~= before + ppm_line(pixel));
        index = index + 1;
        proof {
            let seen = pixels@.take(index as int);
            assert(seen.drop_last() =~= pixels@.take(index - 1));
            assert(seen.last() == pixel);
            assert(text@ =~= ppm_header(width as nat, height as nat) + ppm_body(seen));
        }
    }
    assert(pixels@.take(index as int) =~= pixels@);
    text
}

/// Lays `pixels` out as flat bytes, four per pixel.
pub fn rgba_bytes(pixels: &Vec<(u8, u8, u8)>) -> (bytes: Vec<u8>)
    ensures
        bytes@ == rgba(pixels@),
{
    let mut bytes: Vec<u8> = Vec::new();
    let mut index: usize = 0;
    while index < pixels.len()
        invariant
            index <= pixels@.len(),
            bytes@ == rgba(pixels@.take(index as int)),
        decreases pixels@.len() - index,
    {
        let (red, green, blue) = pixels[index];
        bytes.push(red);
        bytes.push(green);
        bytes.push(blue);
        bytes.push(255);
        index = index + 1;
        assert(bytes@ =~= rgba(pixels@.take(index as int)));
    }
    assert(pixels@.take(index as int) =~= pixels@);
    bytes
}

/// The display bytes of each of `pixels`, in the same order.
pub fn display_bytes<C: Radiance>(pixels: &Vec<C>) -> (bytes: Vec<(u8, u8, u8)>)
    ensures
        displayed(pixels@, bytes@),
{
    let mut bytes: Vec<(u8, u8, u8)> = Vec::new();
    let mut index: usize = 0;
    while index < pixels.len()
        invariant
            index <= pixels@.len(),
            displayed(pixels@.take(index as int), bytes@),
        decreases pixels@.len() - index,
    {
        bytes.push(pixels[index].to_u8());
        index = index + 1;
    }
    assert(pixels@.take(index as int) =~= pixels@);
    bytes
}

/// The flat display bytes of an image of `width * height` pixels: four bytes
/// for each pixel, its red, green and blue display bytes and an alpha of 255.
pub fn pixels_to_uint8_arr<C: Radiance>(pixels: &Vec<C>, width: usize, height: usize) -> (arr: Vec<
    u8,
>)
    requires
        pixels@.len() == width * height,
    ensures
        arr@.len() == 4 * (width * height),
        exists|bytes: Seq<(u8, u8, u8)>| #[trigger] displayed(pixels@, bytes) && arr@ == rgba(bytes),
{
    let bytes = display_bytes(pixels);
    rgba_bytes(&bytes)
}

impl<C> View for Buffer<C> {
    type V = Seq<C>;

    /// The pixels, row after row.
    closed spec fn view(&self) -> Seq<C> {
        self.pixels@
    }
}

impl<C> Buffer<C> {
    #[verifier::type_invariant]
    spec fn sized(&self) -> bool {
        self.pixels@.len() == self.width * self.height
    }

    /// The number of pixels in a row.
    pub closed spec fn spec_width(&self) -> usize {
        self.width
    }

    /// The number of rows.
    pub closed spec fn spec_height(&self) -> usize {
        self.height
    }

    /// An image of `width` by `height` pixels that holds `arr`, row after row.
    pub fn new(arr: Vec<C>, width: usize, height: usize) -> (buffer: Self)
        requires
            arr@.len() == width * height,
        ensures
            buffer@ == arr@,
            buffer.width() == width,
            buffer.height() == height,
    {
        Buffer { pixels: arr, width, height }
    }

    /// The number of pixels in a row.
    #[verifier::when_used_as_spec(spec_width)]
    pub fn width(&self) -> (width: usize)
        ensures
            width == self.width(),
    {
        self.width
    }

    /// The number of rows.
    #[verifier::when_used_as_spec(spec_height)]
    pub fn height(&self) -> (height: usize)
        ensures
            height == self.height(),
    {
        self.height
    }

    /// The pixels, row after row; there are `width * height` of them.
    pub fn pixels(&self) -> (pixels: &Vec<C>)
        ensures
            pixels@ == self@,
            pixels@.len() == self.width() * self.height(),
    {
        proof {
            use_type_invariant(self);
        }
        &self.pixels
    }

    /// Gives up the image for its pixels.
    pub fn into_pixels(self) -> (pixels: Vec<C>)
        ensures
            pixels@ == self@,
            pixels@.len() == self.width() * self.height(),
    {
        proof {
            use_type_invariant(&self);
        }
        self.pixels
    }
}

impl<C: Radiance> Buffer<C> {
    /// The image in the plain-text raster format, each pixel written with its
    /// display bytes.
    pub fn to_ppm(&self) -> (text: String)
        ensures
            exists|bytes: Seq<(u8, u8, u8)>| #[trigger]
                displayed(self@, bytes) && text@ == ppm(
                    self.width() as nat,
                    self.height() as nat,
                    bytes,
                ),
    {
        let bytes = display_bytes(&self.pixels);
        let text = ppm_text(self.width, self.height, &bytes);
        assert(displayed(self@, bytes@));
        text
    }
}

} // verus!
