use vstd::prelude::*;

use crate::canvas::extent;

verus! {

/// The character of a decimal digit.
pub open spec fn digit_char(d: nat) -> char
    recommends
        d < 10,
{
    seq!['0', '1', '2', '3', '4', '5', '6', '7', '8', '9'][d as int]
}

/// The decimal digits of `n`, most significant first, without leading zeros.
pub open spec fn decimal(n: nat) -> Seq<char>
    decreases n,
{
    if n < 10 {
        seq![digit_char(n)]
    } else {
        decimal(n / 10).push(digit_char(n % 10))
    }
}

/// `n` in decimal, with a leading `-` when it is negative.
pub open spec fn signed_decimal(n: int) -> Seq<char> {
    if n < 0 {
        seq!['-'] + decimal((-n) as nat)
    } else {
        decimal(n as nat)
    }
}

/// The three channels of a pixel as decimal numbers separated by spaces.
pub open spec fn rgb_chars(rgb: [u8; 3]) -> Seq<char> {
    decimal(rgb[0] as nat) + seq![' '] + decimal(rgb[1] as nat) + seq![' '] + decimal(
        rgb[2] as nat,
    )
}

fn digit_str(d: u32) -> (s: &'static str)
    requires
        d < 10,
    ensures
        s@ == seq![digit_char(d as nat)],
{
    proof {
        reveal_strlit("0");
        reveal_strlit("1");
        reveal_strlit("2");
        reveal_strlit("3");
        reveal_strlit("4");
        reveal_strlit("5");
        reveal_strlit("6");
        reveal_strlit("7");
        reveal_strlit("8");
        reveal_strlit("9");
    }
    match d {
        0 => "0",
        1 => "1",
        2 => "2",
        3 => "3",
        4 => "4",
        5 => "5",
        6 => "6",
        7 => "7",
        8 => "8",
        _ => "9",
    }
}

/// Appends the decimal digits of `n`.
pub fn push_decimal(out: &mut String, n: u32)
    ensures
        final(out)@ == old(out)@ + decimal(n as nat),
    decreases n,
{
    if n >= 10 {
        push_decimal(out, n / 10);
    }
    out.append(digit_str(n % 10));
    assert(decimal(n as nat) =~= if n < 10 {
        seq![digit_char(n as nat)]
    } else {
        decimal((n / 10) as nat).push(digit_char((n % 10) as nat))
    });
}

/// Appends `n` in decimal, with a leading `-` when it is negative.
pub fn push_signed_decimal(out: &mut String, n: i32)
    ensures
        final(out)@ == old(out)@ + signed_decimal(n as int),
{
    if n < 0 {
        proof {
            reveal_strlit("-");
        }
        out.append("-");
        let magnitude: u32 = (-(n as i64)) as u32;
        push_decimal(out, magnitude);
    } else {
        push_decimal(out, n as u32);
    }
}

/// The channels of a pixel as text, as they appear in a plain PPM file.
pub fn rgb_text(rgb: [u8; 3]) -> (r: String)
    ensures
        r@ == rgb_chars(rgb),
{
    proof {
        reveal_strlit(" ");
    }
    let mut out = String::new();
    push_decimal(&mut out, rgb[0] as u32);
    out.append(" ");
    push_decimal(&mut out, rgb[1] as u32);
    out.append(" ");
    push_decimal(&mut out, rgb[2] as u32);
    out
}

/// Index of the last line break in `s`, or 0 when it holds none.
pub open spec fn last_newline(s: Seq<char>) -> int
    decreases s.len(),
{
    if s.len() == 0 {
        0
    } else if s.last() == '\n' {
        s.len() - 1
    } else {
        last_newline(s.drop_last())
    }
}

/// Width of the current line as the layout measures it: the number of
/// characters from the last line break on.
pub open spec fn line_width(s: Seq<char>) -> int {
    s.len() - last_newline(s)
}

/// Longest line, in characters, that a pixel may extend without first
/// starting a new line.
pub const MAX_LINE_WIDTH: usize = 70;

/// `out` followed by the text of one pixel: a separating space unless a line
/// has just begun, a line break when the text would take the line beyond
/// `MAX_LINE_WIDTH`, the text and a trailing space.
pub open spec fn append_pixel(out: Seq<char>, text: Seq<char>) -> Seq<char> {
    let spaced = if out.len() > 0 && out.last() == '\n' {
        out
    } else {
        out.push(' ')
    };
    let wrapped = if line_width(spaced) + text.len() > MAX_LINE_WIDTH {
        spaced.push('\n')
    } else {
        spaced
    };
    wrapped + text + seq![' ']
}

/// `out` followed by the pixels of one row, first to last.
pub open spec fn append_row(out: Seq<char>, row: Seq<[u8; 3]>) -> Seq<char>
    decreases row.len(),
{
    if row.len() == 0 {
        out
    } else {
        append_pixel(append_row(out, row.drop_last()), rgb_chars(row.last()))
    }
}

/// Row `y` of a grid held as columns: the `y`-th pixel of each column, in
/// order of `x`.
pub open spec fn grid_row(columns: Seq<Seq<[u8; 3]>>, y: int) -> Seq<[u8; 3]> {
    Seq::new(columns.len(), |x: int| columns[x][y])
}

/// `out` followed by the first `rows` rows of the grid, top to bottom, each
/// ended by a line break.
pub open spec fn append_rows(out: Seq<char>, columns: Seq<Seq<[u8; 3]>>, rows: nat) -> Seq<char>
    decreases rows,
{
    if rows == 0 {
        out
    } else {
        append_row(append_rows(out, columns, (rows - 1) as nat), grid_row(columns, rows - 1)).push(
            '\n',
        )
    }
}

/// The header of a plain PPM file: magic number, size and largest channel value.
pub open spec fn ppm_header(width: i32, height: i32) -> Seq<char> {
    seq!['P', '3', '\n'] + signed_decimal(width as int) + seq![' '] + signed_decimal(
        height as int,
    ) + seq!['\n', '2', '5', '5', '\n']
}

/// A whole plain PPM file for a grid of the given size held as columns: the
/// header, then the pixels in row-major order, one row of the image per line
/// (longer rows wrapped).
pub open spec fn ppm_chars(width: i32, height: i32, columns: Seq<Seq<[u8; 3]>>) -> Seq<char> {
    append_rows(ppm_header(width, height), columns, extent(height))
}

pub proof fn lemma_last_newline_push(s: Seq<char>, c: char)
    ensures
        last_newline(s.push(c)) == if c == '\n' {
            s.len() as int
        } else {
            last_newline(s)
        },
{
    assert(s.push(c).drop_last() =~= s);
}

pub proof fn lemma_last_newline_append(s: Seq<char>, t: Seq<char>)
    requires
        forall|i: int| 0 <= i < t.len() ==> t[i] != '\n',
    ensures
        last_newline(s + t) == last_newline(s),
    decreases t.len(),
{
    if t.len() > 0 {
        assert((s + t).drop_last() =~= s + t.drop_last());
        lemma_last_newline_append(s, t.drop_last());
    } else {
        assert(s + t =~= s);
    }
}

pub proof fn lemma_digit_char(d: nat)
    requires
        d < 10,
    ensures
        digit_char(d) != '\n',
{
    let digits = seq!['0', '1', '2', '3', '4', '5', '6', '7', '8', '9'];
    assert(forall|i: int| 0 <= i < 10 ==> #[trigger] digits[i] != '\n');
}

pub proof fn lemma_decimal_digits(n: nat)
    ensures
        forall|i: int| 0 <= i < decimal(n).len() ==> decimal(n)[i] != '\n',
        n < 10 ==> decimal(n).len() == 1,
        n < 100 ==> decimal(n).len() <= 2,
        n < 1000 ==> decimal(n).len() <= 3,
    decreases n,
{
    lemma_digit_char(n % 10);
    if n >= 10 {
        lemma_decimal_digits(n / 10);
        let prefix = decimal(n / 10);
        let d = decimal(n);
        assert forall|i: int| 0 <= i < d.len() implies d[i] != '\n' by {
            if i < prefix.len() {
                assert(d[i] == prefix[i]);
            }
        }
    } else {
        lemma_digit_char(n);
    }
}

pub proof fn lemma_rgb_chars(rgb: [u8; 3])
    ensures
        forall|i: int| 0 <= i < rgb_chars(rgb).len() ==> rgb_chars(rgb)[i] != '\n',
        rgb_chars(rgb).len() <= 11,
{
    lemma_decimal_digits(rgb[0] as nat);
    lemma_decimal_digits(rgb[1] as nat);
    lemma_decimal_digits(rgb[2] as nat);
    let t = rgb_chars(rgb);
    assert forall|i: int| 0 <= i < t.len() implies t[i] != '\n' by {
        let d0 = decimal(rgb[0] as nat);
        let d1 = decimal(rgb[1] as nat);
        if i < d0.len() {
            assert(t[i] == d0[i]);
        } else if i == d0.len() {
        } else if i < d0.len() + 1 + d1.len() {
            assert(t[i] == d1[i - d0.len() - 1]);
        } else if i == d0.len() + 1 + d1.len() {
        } else {
            assert(t[i] == decimal(rgb[2] as nat)[i - d0.len() - d1.len() - 2]);
        }
    }
}

} // verus!
