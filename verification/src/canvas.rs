//! A grid of pixels, stored row after row, and its text form in the plain
//! PPM format.
use vstd::prelude::*;
use crate::png::{png_bytes, png_file, PngError};

verus! {

broadcast use vstd::string::group_string_axioms;

/// A grid of `width` by `height` pixels, row after row.
#[derive(Debug, PartialEq, Clone)]
pub struct Canvas<P> {
    pub width: u32,
    pub height: u32,
    pub pixels: Vec<P>,
}

/// A canvas as its size and its sequence of pixels.
pub struct CanvasView<P> {
    pub width: u32,
    pub height: u32,
    pub pixels: Seq<P>,
}

impl<P> View for Canvas<P> {
    type V = CanvasView<P>;

    open spec fn view(&self) -> CanvasView<P> {
        CanvasView { width: self.width, height: self.height, pixels: self.pixels@ }
    }
}

impl<P> CanvasView<P> {
    /// The position of pixel `(x, y)` among the pixels.
    pub open spec fn index_of(self, x: int, y: int) -> int {
        x + y * self.width
    }

    /// The pixel `(x, y)`.
    pub open spec fn pixel_at(self, x: int, y: int) -> P {
        self.pixels[self.index_of(x, y)]
    }

    /// The canvas with pixel `(x, y)` set to `color`.
    pub open spec fn with_pixel(self, x: int, y: int, color: P) -> CanvasView<P> {
        CanvasView {
            width: self.width,
            height: self.height,
            pixels: self.pixels.update(self.index_of(x, y), color),
        }
    }

    /// `(x, y)` names a pixel that the canvas holds.
    pub open spec fn holds_pixel(self, x: int, y: int) -> bool {
        0 <= self.index_of(x, y) < self.pixels.len() && self.index_of(x, y) <= u32::MAX
    }
}

impl<P: Copy> Canvas<P> {
    /// A canvas of `width` by `height` pixels, all `fill`.
    pub fn new(width: u32, height: u32, fill: P) -> (r: Canvas<P>)
        requires
            width * height <= u32::MAX,
        ensures
            r.width == width,
            r.height == height,
            r.pixels@ == Seq::new((width * height) as nat, |i: int| fill),
    {
        let pixel_count = (width * height) as usize;
        let mut pixels: Vec<P> = Vec::new();
        while pixels.len() < pixel_count
            invariant
                pixels.len() <= pixel_count,
                forall|i: int| 0 <= i < pixels@.len() ==> pixels@[i] == fill,
            decreases pixel_count - pixels.len(),
        {
            pixels.push(fill);
        }
        assert(pixels@ =~= Seq::new((width * height) as nat, |i: int| fill));
        Canvas { width, height, pixels }
    }

    /// The position of pixel `(x, y)` among the pixels.
    pub fn coords_to_index(&self, x: u32, y: u32) -> (r: usize)
        requires
            x + y * self.width <= u32::MAX,
        ensures
            r == self@.index_of(x as int, y as int),
    {
        (x + y * self.width) as usize
    }

    /// The pixel `(x, y)`.
    pub fn get_pixel(&self, x: u32, y: u32) -> (r: &P)
        requires
            self@.holds_pixel(x as int, y as int),
        ensures
            *r == self@.pixel_at(x as int, y as int),
    {
        &self.pixels[self.coords_to_index(x, y)]
    }

    /// Sets pixel `(x, y)` to `color`.
    pub fn set_pixel(&mut self, x: u32, y: u32, color: P)
        requires
            old(self)@.holds_pixel(x as int, y as int),
        ensures
            final(self)@ == old(self)@.with_pixel(x as int, y as int, color),
    {
        let index = self.coords_to_index(x, y);
        self.pixels.set(index, color);
    }

    /// The pixel that sits at position `index`, as `(x, y)`.
    pub fn pixel_coordinates(&self, index: usize) -> (r: (u32, u32))
        requires
            self.width > 0,
            index <= u32::MAX,
        ensures
            r.0 == index as int % self.width as int,
            r.1 == index as int / self.width as int,
    {
        let i = index as u32;
        (i % self.width, i / self.width)
    }
}

/// On a canvas of `width` by `height` pixels, any pixel `(x, y)` with
/// `x < width` and `y < height` can be set; reading it then gives back the
/// color written, and every other pixel, the size and the number of pixels
/// stay as they were.
pub proof fn lemma_read_after_write<P>(
    canvas: CanvasView<P>,
    x: int,
    y: int,
    color: P,
    other_x: int,
    other_y: int,
)
    requires
        canvas.pixels.len() == canvas.width * canvas.height,
        canvas.width * canvas.height <= u32::MAX,
        0 <= x < canvas.width,
        0 <= y < canvas.height,
        0 <= other_x < canvas.width,
        0 <= other_y < canvas.height,
    ensures
        canvas.holds_pixel(x, y),
        canvas.with_pixel(x, y, color).pixel_at(x, y) == color,
        (other_x, other_y) != (x, y) ==> canvas.with_pixel(x, y, color).pixel_at(other_x, other_y)
            == canvas.pixel_at(other_x, other_y),
        canvas.with_pixel(x, y, color).width == canvas.width,
        canvas.with_pixel(x, y, color).height == canvas.height,
        canvas.with_pixel(x, y, color).pixels.len() == canvas.pixels.len(),
{
    let w = canvas.width as int;
    let h = canvas.height as int;
    assert(x + y * w < w * h) by (nonlinear_arith)
        requires
            0 <= x < w,
            0 <= y < h,
    ;
    assert(other_x + other_y * w < w * h) by (nonlinear_arith)
        requires
            0 <= other_x < w,
            0 <= other_y < h,
    ;
    assert(0 <= y * w && 0 <= other_y * w) by (nonlinear_arith)
        requires
            0 <= y,
            0 <= other_y,
            0 <= w,
    ;
    if (other_x, other_y) != (x, y) && other_x + other_y * w == x + y * w {
        vstd::arithmetic::div_mod::lemma_fundamental_div_mod_converse(x + y * w, w, y, x);
        vstd::arithmetic::div_mod::lemma_fundamental_div_mod_converse(
            other_x + other_y * w,
            w,
            other_y,
            other_x,
        );
        vstd::arithmetic::mul::lemma_mul_is_commutative(w, y);
        vstd::arithmetic::mul::lemma_mul_is_commutative(w, other_y);
    }
}

/// A position and the pixel coordinates it gives lead back to each other.
pub proof fn lemma_coordinates_round_trip(width: int, index: int, x: int, y: int)
    requires
        width > 0,
        index >= 0,
        0 <= x < width,
        y >= 0,
    ensures
        (index % width) + (index / width) * width == index,
        (x + y * width) % width == x,
        (x + y * width) / width == y,
{
    vstd::arithmetic::div_mod::lemma_fundamental_div_mod(index, width);
    vstd::arithmetic::div_mod::lemma_fundamental_div_mod_converse(x + y * width, width, y, x);
    vstd::arithmetic::mul::lemma_mul_is_commutative(width, index / width);
    vstd::arithmetic::mul::lemma_mul_is_commutative(width, y);
}

/// A pixel of eight bits per channel.
#[derive(Debug, PartialEq, Eq, Structural, Clone, Copy)]
pub struct Rgb8 {
    pub red: u8,
    pub green: u8,
    pub blue: u8,
}

/// The decimal digit `d`.
pub open spec fn digit_char(d: int) -> char {
    if d == 0 {
        '0'
    } else if d == 1 {
        '1'
    } else if d == 2 {
        '2'
    } else if d == 3 {
        '3'
    } else if d == 4 {
        '4'
    } else if d == 5 {
        '5'
    } else if d == 6 {
        '6'
    } else if d == 7 {
        '7'
    } else if d == 8 {
        '8'
    } else {
        '9'
    }
}

/// `n` written in decimal, without leading zeros.
pub open spec fn decimal(n: nat) -> Seq<char>
    decreases n,
{
    if n < 10 {
        seq![digit_char(n as int)]
    } else {
        decimal(n / 10).push(digit_char((n % 10) as int))
    }
}

/// The number that the digits `s` spell in base ten, each character read by
/// its code: `'0'` is 48 and `'9'` is 57.
pub open spec fn numeral_value(s: Seq<char>) -> int
    decreases s.len(),
{
    if s.len() == 0 {
        0
    } else {
        numeral_value(s.drop_last()) * 10 + (s.last() as int - 48)
    }
}

/// Every character of `s` is a decimal digit, `'0'` to `'9'`.
pub open spec fn all_digits(s: Seq<char>) -> bool {
    forall|i: int| 0 <= i < s.len() ==> 48 <= #[trigger] (s[i] as int) <= 57
}

/// The digit of `d` is the character with code `48 + d`.
pub proof fn lemma_digit_codes(d: int)
    requires
        0 <= d < 10,
    ensures
        digit_char(d) as int == 48 + d,
{
}

/// `n` in decimal is the usual base-ten numeral: made of digits, read back
/// it gives `n`, and it starts with `'0'` only where `n` is zero. So distinct
/// numbers are written differently.
pub proof fn lemma_decimal_reads_back(n: nat)
    ensures
        all_digits(decimal(n)),
        numeral_value(decimal(n)) == n,
        decimal(n).len() >= 1,
        decimal(n)[0] == '0' ==> n == 0,
    decreases n,
{
    if n < 10 {
        lemma_digit_codes(n as int);
        assert(decimal(n).drop_last() =~= Seq::<char>::empty());
        assert(decimal(n)[0] as int == 48 + n);
        assert(numeral_value(decimal(n)) == numeral_value(decimal(n).drop_last()) * 10 + (
        decimal(n).last() as int - 48));
    } else {
        lemma_decimal_reads_back(n / 10);
        let d = (n % 10) as int;
        lemma_digit_codes(d);
        let s = decimal(n);
        assert(s.drop_last() =~= decimal(n / 10));
        assert(s.last() as int == 48 + d);
        assert((n / 10) * 10 + n % 10 == n) by {
            vstd::arithmetic::div_mod::lemma_fundamental_div_mod(n as int, 10);
        }
        assert(numeral_value(s) == numeral_value(decimal(n / 10)) * 10 + d);
        assert(s[0] == decimal(n / 10)[0]);
        assert(n / 10 >= 1);
        assert forall|i: int| 0 <= i < s.len() implies 48 <= #[trigger] (s[i] as int) <= 57 by {
            if i < s.len() - 1 {
                assert(s[i] == decimal(n / 10)[i]);
            }
        }
    }
}

/// Distinct numbers are written differently in decimal.
pub proof fn lemma_decimal_injective(m: nat, n: nat)
    requires
        decimal(m) == decimal(n),
    ensures
        m == n,
{
    lemma_decimal_reads_back(m);
    lemma_decimal_reads_back(n);
}

/// `parts` joined by `separator`.
pub open spec fn join(parts: Seq<Seq<char>>, separator: char) -> Seq<char>
    decreases parts.len(),
{
    if parts.len() == 0 {
        Seq::empty()
    } else if parts.len() == 1 {
        parts[0]
    } else {
        join(parts.drop_last(), separator).push(separator) + parts.last()
    }
}

/// The channel values of `pixels`: red, green and blue of each in turn.
pub open spec fn channels(pixels: Seq<Rgb8>) -> Seq<u8> {
    Seq::new(
        3 * pixels.len(),
        |i: int|
            if i % 3 == 0 {
                pixels[i / 3].red
            } else if i % 3 == 1 {
                pixels[i / 3].green
            } else {
                pixels[i / 3].blue
            },
    )
}

/// One line of the PPM text: the channel values of `pixels` in decimal,
/// separated by spaces.
pub open spec fn row_text(pixels: Seq<Rgb8>) -> Seq<char> {
    join(channels(pixels).map_values(|v: u8| decimal(v as nat)), ' ')
}

/// The number of rows of `width` pixels that `count` pixels fill, the last
/// one possibly short.
pub open spec fn row_count(count: int, width: int) -> int {
    (count + width - 1) / width
}

/// Row `r` of `pixels` in rows of `width`.
pub open spec fn row(pixels: Seq<Rgb8>, width: int, r: int) -> Seq<Rgb8> {
    pixels.subrange(
        r * width,
        if (r + 1) * width <= pixels.len() {
            (r + 1) * width
        } else {
            pixels.len() as int
        },
    )
}

/// The three header lines: the format, the size, the largest channel value.
pub open spec fn header_lines(width: u32, height: u32) -> Seq<Seq<char>> {
    seq![
        seq!['P', '3'],
        decimal(width as nat) + seq![' '] + decimal(height as nat),
        seq!['2', '5', '5'],
    ]
}

/// The lines of the PPM text of a canvas: the header, then one line per row.
pub open spec fn ppm_lines(canvas: Canvas<Rgb8>) -> Seq<Seq<char>> {
    header_lines(canvas.width, canvas.height) + Seq::new(
        row_count(canvas.pixels@.len() as int, canvas.width as int) as nat,
        |r: int| row_text(row(canvas.pixels@, canvas.width as int, r)),
    )
}

/// The channel values give pixel `i`'s red, green and blue at `3 i`,
/// `3 i + 1` and `3 i + 2`.
pub proof fn lemma_channels_of_pixel(pixels: Seq<Rgb8>, i: int)
    requires
        0 <= i < pixels.len(),
    ensures
        channels(pixels).len() == 3 * pixels.len(),
        channels(pixels)[3 * i] == pixels[i].red,
        channels(pixels)[3 * i + 1] == pixels[i].green,
        channels(pixels)[3 * i + 2] == pixels[i].blue,
{
    assert((3 * i) / 3 == i && (3 * i) % 3 == 0);
    assert((3 * i + 1) / 3 == i && (3 * i + 1) % 3 == 1);
    assert((3 * i + 2) / 3 == i && (3 * i + 2) % 3 == 2);
}

/// The header reads back as the format `P3`, the width and then the height
/// separated by one space, and the largest channel value 255.
pub proof fn lemma_header_reads_back(width: u32, height: u32)
    ensures
        header_lines(width, height).len() == 3,
        header_lines(width, height)[0] == seq!['P', '3'],
        ({
            let line = header_lines(width, height)[1];
            let k = decimal(width as nat).len() as int;
            &&& 0 < k < line.len()
            &&& line[k] == ' '
            &&& all_digits(line.take(k)) && numeral_value(line.take(k)) == width
            &&& all_digits(line.skip(k + 1)) && numeral_value(line.skip(k + 1)) == height
        }),
        all_digits(header_lines(width, height)[2]),
        numeral_value(header_lines(width, height)[2]) == 255,
{
    lemma_decimal_reads_back(width as nat);
    lemma_decimal_reads_back(height as nat);
    let line = header_lines(width, height)[1];
    let k = decimal(width as nat).len() as int;
    assert(line.take(k) =~= decimal(width as nat));
    assert(line.skip(k + 1) =~= decimal(height as nat));
    let two = seq!['2'];
    let twenty_five = seq!['2', '5'];
    let last = seq!['2', '5', '5'];
    assert(two.drop_last() =~= Seq::<char>::empty());
    assert(numeral_value(Seq::<char>::empty()) == 0);
    assert(two.last() as int == 50);
    assert(numeral_value(two) == 2);
    assert(twenty_five.drop_last() =~= two);
    assert(numeral_value(twenty_five) == 25);
    assert(last.drop_last() =~= twenty_five);
    assert(numeral_value(last) == 255);
}

/// Appends the decimal digit `d`.
fn push_digit(out: &mut String, d: u32)
    requires
        d < 10,
    ensures
        final(out)@ == old(out)@.push(digit_char(d as int)),
{
    proof {
        reveal_strlit("0");
        reveal_strlit("1");
        reveal_strlit("2");
        reveal_strlit("3");
        reveal_strlit("4");
        reveal_strlit("5");
        reveal_strlit("6");
        reveal_strlit("7");
        reveal_strlit("8");
        reveal_strlit("9");
    }
    let digit = if d == 0 {
        "0"
    } else if d == 1 {
        "1"
    } else if d == 2 {
        "2"
    } else if d == 3 {
        "3"
    } else if d == 4 {
        "4"
    } else if d == 5 {
        "5"
    } else if d == 6 {
        "6"
    } else if d == 7 {
        "7"
    } else if d == 8 {
        "8"
    } else {
        "9"
    };
    out.append(digit);
    assert(final(out)@ =~= old(out)@.push(digit_char(d as int)));
}

/// Appends `n` in decimal.
pub fn push_decimal(out: &mut String, n: u32)
    ensures
        final(out)@ == old(out)@ + decimal(n as nat),
    decreases n,
{
    if n >= 10 {
        push_decimal(out, n / 10);
    }
    push_digit(out, n % 10);
    assert(final(out)@ =~= old(out)@ + decimal(n as nat));
}

/// `n` in decimal.
pub fn decimal_text(n: u32) -> (r: String)
    ensures
        r@ == decimal(n as nat),
{
    let mut out = String::new();
    push_decimal(&mut out, n);
    assert(out@ =~= decimal(n as nat));
    out
}

impl Canvas<Rgb8> {
    /// The canvas as a PNG file (see `png_bytes`); the canvas must hold
    /// `width` times `height` pixels.
    pub fn to_png(&self) -> (r: Result<Vec<u8>, PngError>)
        requires
            self.pixels@.len() == self.width * self.height,
        ensures
            match png_file(channels(self.pixels@), self.width, self.height) {
                Some(bytes) => r matches Ok(v) && v@ == bytes,
                None => r == Err::<Vec<u8>, PngError>(PngError::Refused),
            },
    {
        let rgb = self.channel_bytes();
        png_bytes(&rgb, self.width, self.height)
    }

    /// The channel values of the pixels, red, green and blue of each in turn.
    pub fn channel_bytes(&self) -> (r: Vec<u8>)
        ensures
            r@ == channels(self.pixels@),
    {
        let mut out: Vec<u8> = Vec::new();
        let mut k: usize = 0;
        while k < self.pixels.len()
            invariant
                k <= self.pixels.len(),
                out@ =~= channels(self.pixels@.take(k as int)),
            decreases self.pixels.len() - k,
        {
            let p = self.pixels[k];
            out.push(p.red);
            out.push(p.green);
            out.push(p.blue);
            proof {
                let next = channels(self.pixels@.take(k + 1));
                assert forall|i: int| 0 <= i < next.len() implies #[trigger] next[i] == out@[i] by {
                    assert(self.pixels@.take(k + 1)[i / 3] == if i / 3 < k {
                        self.pixels@.take(k as int)[i / 3]
                    } else {
                        p
                    });
                }
            }
            k = k + 1;
        }
        assert(self.pixels@.take(self.pixels.len() as int) =~= self.pixels@);
        out
    }

    /// The three header lines of the PPM text.
    pub fn get_header(&self) -> (r: Vec<String>)
        ensures
            r@.len() == 3,
            forall|i: int| 0 <= i < 3 ==> #[trigger] r@[i]@ == header_lines(self.width, self.height)[i],
    {
        let identifier = "P3".to_string();
        let mut image_size = decimal_text(self.width);
        image_size.append(" ");
        push_decimal(&mut image_size, self.height);
        let color_range = "255".to_string();
        proof {
            reveal_strlit("P3");
            reveal_strlit(" ");
            reveal_strlit("255");
        }
        let r = vec![identifier, image_size, color_range];
        assert(r@[0]@ =~= header_lines(self.width, self.height)[0]);
        assert(r@[1]@ =~= header_lines(self.width, self.height)[1]);
        assert(r@[2]@ =~= header_lines(self.width, self.height)[2]);
        r
    }

    /// The canvas in the plain PPM format: the header lines, then one line
    /// per row of `width` pixels, joined by newlines.
    pub fn to_ppm(&self) -> (r: String)
        requires
            self.width > 0,
        ensures
            r@ == join(ppm_lines(*self), '\n'),
    {
        proof {
            reveal_strlit("P3");
            reveal_strlit(" ");
            reveal_strlit("255");
            reveal_strlit("\n");
        }
        let ghost lines = ppm_lines(*self);
        assert(lines.len() == 3 + row_count(self.pixels@.len() as int, self.width as int));
        let mut out = String::new();
        out.append("P3");
        out.append("\n");
        push_decimal(&mut out, self.width);
        out.append(" ");
        push_decimal(&mut out, self.height);
        out.append("\n");
        out.append("255");
        proof {
            lemma_join_step(lines, 0, '\n');
            lemma_join_step(lines, 1, '\n');
            lemma_join_step(lines, 2, '\n');
            assert(out@ =~= join(lines.take(3), '\n'));
            lemma_row_count_step(count_of(self) as int, self.width as int, 0);
        }
        let width = self.width as usize;
        let count = self.pixels.len();
        let mut start: usize = 0;
        let ghost mut r: int = 0;
        while start < count
            invariant
                lines == ppm_lines(*self),
                width == self.width,
                width > 0,
                count == self.pixels@.len(),
                start <= count,
                r >= 0,
                start < count ==> start == r * width && r < row_count(count as int, width as int),
                start == count ==> r == row_count(count as int, width as int),
                out@ == join(lines.take(3 + r), '\n'),
            decreases count - start,
        {
            let end = if count - start >= width {
                start + width
            } else {
                count
            };
            proof {
                assert((r + 1) * width == r * width + width) by (nonlinear_arith);
                assert(self.pixels@.subrange(start as int, end as int) =~= row(
                    self.pixels@,
                    width as int,
                    r,
                ));
            }
            let ghost before = out@;
            proof {
                reveal_strlit("\n");
            }
            out.append("\n");
            assert(out@ =~= before.push('\n'));
            self.append_row(&mut out, start, end);
            proof {
                assert(lines.take(3 + r + 1).drop_last() =~= lines.take(3 + r));
                assert(lines[3 + r] == row_text(row(self.pixels@, width as int, r)));
                lemma_join_step(lines, 3 + r, '\n');
                r = r + 1;
                lemma_row_count_step(count as int, width as int, r);
            }
            start = end;
        }
        assert(lines.take(3 + r) =~= lines);
        out
    }

    /// Appends the row of the pixels from `start` to `end`.
    fn append_row(&self, out: &mut String, start: usize, end: usize)
        requires
            start < end <= self.pixels@.len(),
        ensures
            final(out)@ == old(out)@ + row_text(self.pixels@.subrange(start as int, end as int)),
    {
        let ghost pixels = self.pixels@.subrange(start as int, end as int);
        let ghost words = channels(pixels).map_values(|v: u8| decimal(v as nat));
        let ghost before = out@;
        let mut k: usize = start;
        while k < end
            invariant
                start <= k <= end <= self.pixels@.len(),
                pixels == self.pixels@.subrange(start as int, end as int),
                words == channels(pixels).map_values(|v: u8| decimal(v as nat)),
                words.len() == 3 * (end - start),
                out@ == before + join(words.take(3 * (k - start)), ' '),
            decreases end - k,
        {
            let p = self.pixels[k];
            let ghost j: int = 3 * (k - start);
            proof {
                reveal_strlit(" ");
                assert(pixels[k - start] == p);
                assert(words[j] == decimal(p.red as nat));
                assert(words[j + 1] == decimal(p.green as nat));
                assert(words[j + 2] == decimal(p.blue as nat));
            }
            if k > start {
                out.append(" ");
            }
            push_decimal(out, p.red as u32);
            proof {
                lemma_join_step(words, j, ' ');
            }
            out.append(" ");
            push_decimal(out, p.green as u32);
            proof {
                lemma_join_step(words, j + 1, ' ');
            }
            out.append(" ");
            push_decimal(out, p.blue as u32);
            proof {
                lemma_join_step(words, j + 2, ' ');
            }
            k = k + 1;
        }
        assert(words.take(3 * (end - start)) =~= words);
    }
}

proof fn lemma_join_step(parts: Seq<Seq<char>>, j: int, separator: char)
    requires
        0 <= j < parts.len(),
    ensures
        j == 0 ==> join(parts.take(j + 1), separator) == parts[j],
        j > 0 ==> join(parts.take(j + 1), separator) == join(parts.take(j), separator).push(
            separator,
        ) + parts[j],
{
    assert(parts.take(j + 1).drop_last() =~= parts.take(j));
}

spec fn count_of(canvas: &Canvas<Rgb8>) -> nat {
    canvas.pixels@.len()
}

proof fn lemma_row_count_step(count: int, width: int, r: int)
    requires
        width > 0,
        count >= 0,
        0 <= r,
        (r - 1) * width < count,
    ensures
        r <= row_count(count, width),
        r * width < count ==> r < row_count(count, width),
        r * width >= count ==> r == row_count(count, width),
{
    let n = count + width - 1;
    let q = n / width;
    vstd::arithmetic::div_mod::lemma_fundamental_div_mod(n, width);
    let m = n % width;
    assert(0 <= m < width);
    assert(q * width <= n < q * width + width) by (nonlinear_arith)
        requires
            n == width * q + m,
            0 <= m < width,
    ;
    assert((q - 1) * width < count <= q * width) by (nonlinear_arith)
        requires
            q * width <= count + width - 1 < q * width + width,
    ;
    assert(r <= q) by (nonlinear_arith)
        requires
            (r - 1) * width < count,
            count <= q * width,
            width > 0,
    ;
    if r * width < count {
        assert(r < q) by (nonlinear_arith)
            requires
                r * width < count,
                count <= q * width,
                width > 0,
        ;
    }
    if r * width >= count {
        assert(r >= q) by (nonlinear_arith)
            requires
                r * width >= count,
                (q - 1) * width < count,
                width > 0,
        ;
    }
}


/// The PPM text of a canvas of `width` by `height` pixels has the three
/// header lines and one line per row.
pub proof fn lemma_ppm_line_count(canvas: Canvas<Rgb8>)
    requires
        canvas.width > 0,
        canvas.pixels@.len() == canvas.width * canvas.height,
    ensures
        ppm_lines(canvas).len() == 3 + canvas.height,
{
    let w = canvas.width as int;
    let h = canvas.height as int;
    assert((w * h + w - 1) / w == h) by {
        vstd::arithmetic::mul::lemma_mul_is_commutative(w, h);
        vstd::arithmetic::div_mod::lemma_fundamental_div_mod_converse(w * h + w - 1, w, h, w - 1);
    }
}

} // verus!
