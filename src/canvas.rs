use vstd::prelude::*;

use crate::ppm::{
    append_pixel, append_row, append_rows, grid_row, lemma_last_newline_append,
    lemma_last_newline_push, lemma_rgb_chars, line_width, ppm_chars, ppm_header,
    push_signed_decimal, rgb_chars, rgb_text, MAX_LINE_WIDTH,
};

verus! {

/// Number of cells along an axis of the given signed size: none when it is
/// not positive.
pub open spec fn extent(n: i32) -> nat {
    if n > 0 {
        n as nat
    } else {
        0
    }
}

/// A grid of pixels indexed as `pixels[x][y]`: one column of `height` pixels
/// for each of the `width` x coordinates.
pub struct Canvas<P> {
    pub width: i32,
    pub height: i32,
    pub pixels: Vec<Vec<P>>,
}

impl<P> Canvas<P> {
    /// The pixels as a sequence of columns.
    pub open spec fn grid(&self) -> Seq<Seq<P>> {
        self.pixels@.map_values(|column: Vec<P>| column@)
    }

    /// The grid is complete: `width` columns of `height` pixels each (none
    /// along an axis whose size is not positive).
    pub open spec fn wf(&self) -> bool {
        &&& self.pixels@.len() == extent(self.width)
        &&& forall|x: int|
            0 <= x < self.pixels@.len() ==> #[trigger] self.pixels@[x]@.len() == extent(self.height)
    }
}

impl<P: Copy> Canvas<P> {
    /// A canvas of the given size with every pixel set to `color`.
    pub fn new(width: i32, height: i32, color: P) -> (r: Self)
        ensures
            r.width == width,
            r.height == height,
            r.grid() == Seq::new(extent(width), |x: int| Seq::new(extent(height), |y: int| color)),
            r.wf(),
    {
        let mut pixels: Vec<Vec<P>> = Vec::new();
        let mut x: i32 = 0;
        while x < width
            invariant
                0 <= x,
                x <= width || x == 0,
                pixels@.len() == x,
                forall|i: int|
                    0 <= i < x ==> #[trigger] pixels@[i]@ == Seq::new(
                        extent(height),
                        |y: int| color,
                    ),
            decreases width - x,
        {
            let mut column: Vec<P> = Vec::new();
            let mut y: i32 = 0;
            while y < height
                invariant
                    0 <= y,
                    y <= height || y == 0,
                    column@ == Seq::new(y as nat, |k: int| color),
                decreases height - y,
            {
                column.push(color);
                y = y + 1;
                assert(column@ =~= Seq::new(y as nat, |k: int| color));
            }
            assert(column@ =~= Seq::new(extent(height), |k: int| color));
            pixels.push(column);
            x = x + 1;
        }
        let r = Canvas { width, height, pixels };
        assert(r.grid() =~= Seq::new(extent(width), |i: int| Seq::new(extent(height), |y: int| color)));
        r
    }
}

impl Canvas<[u8; 3]> {
    /// The canvas as a plain PPM file: the header, then the pixels in
    /// row-major order (`y` outer, `x` inner), each row of the image ended
    /// by a line break.
    pub fn to_ppm(&self) -> (r: String)
        requires
            self.wf(),
        ensures
            r@ == ppm_chars(self.width, self.height, self.grid()),
    {
        proof {
            reveal_strlit("P3\n");
            reveal_strlit(" ");
            reveal_strlit("\n");
            reveal_strlit("\n255\n");
        }
        let mut out = String::new();
        out.append("P3\n");
        push_signed_decimal(&mut out, self.width);
        out.append(" ");
        push_signed_decimal(&mut out, self.height);
        out.append("\n255\n");
        assert(out@ =~= ppm_header(self.width, self.height));
        proof {
            lemma_last_newline_push(out@.drop_last(), '\n');
            assert(out@.drop_last().push('\n') =~= out@);
        }
        let ghost header = out@;
        let ghost grid = self.grid();
        let rows: usize = if self.height > 0 {
            self.height as usize
        } else {
            0
        };
        let columns: usize = self.pixels.len();
        let mut line_len: usize = 1;
        let mut line_start: bool = true;
        let mut y: usize = 0;
        while y < rows
            invariant
                self.wf(),
                grid == self.grid(),
                rows == extent(self.height),
                columns == self.pixels@.len(),
                y <= rows,
                out@ == append_rows(header, grid, y as nat),
                out@.len() > 0,
                line_start == (out@.last() == '\n'),
                line_len == line_width(out@),
                1 <= line_len <= MAX_LINE_WIDTH + 2,
            decreases rows - y,
        {
            proof {
                reveal_strlit("\n");
            }
            let ghost start = out@;
            let ghost row = grid_row(grid, y as int);
            let mut x: usize = 0;
            while x < columns
                invariant
                    self.wf(),
                    grid == self.grid(),
                    rows == extent(self.height),
                    columns == self.pixels@.len(),
                    y < rows,
                    row == grid_row(grid, y as int),
                    x <= columns,
                    out@ == append_row(start, row.take(x as int)),
                    out@.len() > 0,
                    line_start == (out@.last() == '\n'),
                    line_len == line_width(out@),
                    1 <= line_len <= MAX_LINE_WIDTH + 2,
                decreases columns - x,
            {
                proof {
                    reveal_strlit(" ");
                    reveal_strlit("\n");
                }
                let ghost before = out@;
                assert(self.pixels@[x as int]@.len() == rows);
                let rgb = self.pixels[x][y];
                assert(rgb == row[x as int]);
                let text = rgb_text(rgb);
                let text_len = text.as_str().unicode_len();
                proof {
                    lemma_rgb_chars(rgb);
                }
                if !line_start {
                    let ghost prev = out@;
                    out.append(" ");
                    line_len = line_len + 1;
                    proof {
                        assert(out@ =~= prev.push(' '));
                        lemma_last_newline_push(prev, ' ');
                    }
                }
                if line_len + text_len > MAX_LINE_WIDTH {
                    let ghost prev = out@;
                    out.append("\n");
                    line_len = 1;
                    proof {
                        assert(out@ =~= prev.push('\n'));
                        lemma_last_newline_push(prev, '\n');
                    }
                }
                let ghost wrapped = out@;
                out.append(text.as_str());
                line_len = line_len + text_len;
                proof {
                    lemma_last_newline_append(wrapped, text@);
                }
                let ghost prev = out@;
                out.append(" ");
                line_len = line_len + 1;
                proof {
                    assert(out@ =~= prev.push(' '));
                    lemma_last_newline_push(prev, ' ');
                }
                line_start = false;
                proof {
                    assert(out@ =~= append_pixel(before, rgb_chars(rgb)));
                    assert(row.take(x + 1).drop_last() =~= row.take(x as int));
                }
                x = x + 1;
            }
            let ghost prev = out@;
            out.append("\n");
            line_len = 1;
            line_start = true;
            proof {
                assert(out@ =~= prev.push('\n'));
                lemma_last_newline_push(prev, '\n');
                assert(row.take(row.len() as int) =~= row);
            }
            y = y + 1;
        }
        out
    }
}

} // verus!
