//! The character ramp, the brightness-to-glyph mapping, and the rendering
//! of a luminance grid as newline-separated rows of glyphs.

use vstd::prelude::*;

verus! {

/// Number of characters in the ramp.
pub const RAMP_LEN: usize = 10;

/// The ramp, densest first: brightness 0 maps to its first character and
/// brightness 255 to its last.
pub open spec fn ramp() -> Seq<char> {
    seq!['@', '%', '#', '*', '+', '=', '-', ':', '.', ' ']
}

/// Index into the ramp for a brightness value: `b * (RAMP_LEN - 1) / 255`,
/// truncated.
pub open spec fn glyph_index_of(b: u8) -> int {
    (b as int * (RAMP_LEN - 1) as int) / 255
}

/// The character drawn for a brightness value.
pub open spec fn glyph_of(b: u8) -> char {
    ramp()[glyph_index_of(b)]
}

/// Row `y` of a `width`-wide luminance grid, drawn as glyphs.
pub open spec fn row_text(luma: Seq<u8>, width: nat, y: nat) -> Seq<char> {
    Seq::new(width, |x: int| glyph_of(luma[y * width + x]))
}

/// The first `height` rows of a `width`-wide luminance grid, drawn as glyphs
/// and separated by single line breaks, with none after the last row. A grid
/// with no rows or no columns draws as the empty text.
pub open spec fn grid_text(luma: Seq<u8>, width: nat, height: nat) -> Seq<char>
    decreases height,
{
    if width == 0 || height == 0 {
        Seq::empty()
    } else if height == 1 {
        row_text(luma, width, 0)
    } else {
        grid_text(luma, width, (height - 1) as nat) + seq!['\n'] + row_text(
            luma,
            width,
            (height - 1) as nat,
        )
    }
}

/// `t` consists of `height` lines of exactly `width` characters each, none
/// of them a line break, separated by single line breaks and with no line
/// break after the last; no lines at all means the empty text.
pub open spec fn is_text_grid(t: Seq<char>, width: nat, height: nat) -> bool {
    if height == 0 {
        t.len() == 0
    } else {
        &&& t.len() == height * (width + 1) - 1
        &&& forall|y: int, x: int|
            0 <= y < height && 0 <= x < width ==> #[trigger] t[y * (width + 1) + x] != '\n'
        &&& forall|y: int| 0 <= y && y + 1 < height ==> #[trigger] t[y * (width + 1) + width] == '\n'
    }
}

/// Brightness maps onto the ramp in order: the darkest value takes the
/// densest glyph, the brightest value the sparsest, a brighter value never
/// takes a denser glyph than a darker one, and one step of brightness moves
/// at most one step along the ramp.
pub proof fn lemma_glyph_index_monotonic(b1: u8, b2: u8)
    requires
        b1 < b2,
    ensures
        glyph_index_of(b1) <= glyph_index_of(b2),
        glyph_index_of(0) == 0,
        glyph_index_of(255) == RAMP_LEN - 1,
        b2 == b1 + 1 ==> glyph_index_of(b2) <= glyph_index_of(b1) + 1,
{
    assert(glyph_index_of(b1) <= glyph_index_of(b2)) by (nonlinear_arith)
        requires
            b1 < b2,
            glyph_index_of(b1) == (b1 as int * 9) / 255,
            glyph_index_of(b2) == (b2 as int * 9) / 255,
    ;
    assert(b2 == b1 + 1 ==> glyph_index_of(b2) <= glyph_index_of(b1) + 1) by (nonlinear_arith)
        requires
            glyph_index_of(b1) == (b1 as int * 9) / 255,
            glyph_index_of(b2) == (b2 as int * 9) / 255,
    ;
}

/// Every brightness value maps inside the ramp, to a glyph that is not a
/// line break.
pub proof fn lemma_glyph_in_ramp(b: u8)
    ensures
        0 <= glyph_index_of(b) < RAMP_LEN,
        glyph_of(b) != '\n',
{
    assert(0 <= glyph_index_of(b) < 10) by (nonlinear_arith)
        requires
            glyph_index_of(b) == (b as int * 9) / 255,
            0 <= b <= 255,
    ;
}

/// A rendered grid with at least one column is `height` lines of exactly
/// `width` glyphs.
pub proof fn lemma_grid_text_shape(luma: Seq<u8>, width: nat, height: nat)
    requires
        width > 0,
    ensures
        is_text_grid(grid_text(luma, width, height), width, height),
    decreases height,
{
    let t = grid_text(luma, width, height);
    if height == 1 {
        assert forall|y: int, x: int| 0 <= y < height && 0 <= x < width implies #[trigger] t[y
            * (width + 1) + x] != '\n' by {
            assert(y * (width + 1) + x == x) by (nonlinear_arith)
                requires
                    y == 0,
            ;
            assert(0 * width + x == x);
            lemma_glyph_in_ramp(luma[x]);
        }
        assert(t.len() == width);
        assert(t.len() == height * (width + 1) - 1) by (nonlinear_arith)
            requires
                t.len() == width,
                height == 1,
        ;
    } else if height > 1 {
        let h1 = (height - 1) as nat;
        let p = grid_text(luma, width, h1);
        let r = row_text(luma, width, h1);
        lemma_grid_text_shape(luma, width, h1);
        assert(t == p + seq!['\n'] + r);
        assert(p.len() == h1 * (width + 1) - 1);
        assert(t.len() == height * (width + 1) - 1) by (nonlinear_arith)
            requires
                t.len() == p.len() + 1 + width,
                p.len() == h1 * (width + 1) - 1,
                height == h1 + 1,
        ;
        assert forall|y: int, x: int| 0 <= y < height && 0 <= x < width implies #[trigger] t[y
            * (width + 1) + x] != '\n' by {
            if y < h1 {
                assert(y * (width + 1) + x < p.len()) by (nonlinear_arith)
                    requires
                        0 <= y < h1,
                        0 <= x < width,
                        p.len() == h1 * (width + 1) - 1,
                ;
                assert(p[y * (width + 1) + x] != '\n');
            } else {
                assert(y * (width + 1) + x == p.len() + 1 + x) by (nonlinear_arith)
                    requires
                        y == h1,
                        p.len() == h1 * (width + 1) - 1,
                ;
                lemma_glyph_in_ramp(luma[h1 * width + x]);
                assert(r[x] != '\n');
            }
        }
        assert forall|y: int| 0 <= y && y + 1 < height implies #[trigger] t[y * (width + 1)
            + width] == '\n' by {
            if y + 1 < h1 {
                assert(y * (width + 1) + width < p.len()) by (nonlinear_arith)
                    requires
                        0 <= y,
                        y + 1 < h1,
                        p.len() == h1 * (width + 1) - 1,
                ;
                assert(p[y * (width + 1) + width] == '\n');
            } else {
                assert(y * (width + 1) + width == p.len()) by (nonlinear_arith)
                    requires
                        y + 1 == h1,
                        p.len() == h1 * (width + 1) - 1,
                ;
            }
        }
    }
}

/// Each cell of a rendered grid is the glyph of its luminance sample: the
/// character in line `y`, column `x` draws sample `y * width + x`.
pub proof fn lemma_grid_text_cells(luma: Seq<u8>, width: nat, height: nat)
    requires
        width > 0,
    ensures
        forall|y: int, x: int|
            0 <= y < height && 0 <= x < width ==> #[trigger] grid_text(luma, width, height)[y * (
            width + 1) + x] == glyph_of(luma[y * width + x]),
    decreases height,
{
    let t = grid_text(luma, width, height);
    if height == 1 {
        assert forall|y: int, x: int| 0 <= y < height && 0 <= x < width implies #[trigger] t[y
            * (width + 1) + x] == glyph_of(luma[y * width + x]) by {
            assert(y * (width + 1) + x == x && y * width + x == x) by (nonlinear_arith)
                requires
                    y == 0,
            ;
        }
    } else if height > 1 {
        let h1 = (height - 1) as nat;
        let p = grid_text(luma, width, h1);
        let r = row_text(luma, width, h1);
        lemma_grid_text_cells(luma, width, h1);
        lemma_grid_text_shape(luma, width, h1);
        assert(t == p + seq!['\n'] + r);
        assert forall|y: int, x: int| 0 <= y < height && 0 <= x < width implies #[trigger] t[y
            * (width + 1) + x] == glyph_of(luma[y * width + x]) by {
            if y < h1 {
                assert(y * (width + 1) + x < p.len()) by (nonlinear_arith)
                    requires
                        0 <= y < h1,
                        0 <= x < width,
                        p.len() == h1 * (width + 1) - 1,
                ;
                assert(p[y * (width + 1) + x] == glyph_of(luma[y * width + x]));
            } else {
                assert(y * (width + 1) + x == p.len() + 1 + x) by (nonlinear_arith)
                    requires
                        y == h1,
                        p.len() == h1 * (width + 1) - 1,
                ;
                assert(r[x] == glyph_of(luma[h1 * width + x]));
            }
        }
    }
}

/// The ramp index of a brightness value.
pub fn glyph_index(b: u8) -> (r: usize)
    ensures
        r == glyph_index_of(b),
        r < RAMP_LEN,
{
    let v: usize = b as usize;
    proof {
        assert(0 <= v * 9 <= 255 * 9) by (nonlinear_arith)
            requires
                v <= 255,
        ;
    }
    (v * (RAMP_LEN - 1)) / 255
}

/// The ramp character at `i`, as a one-character string.
fn ramp_str(i: usize) -> (r: &'static str)
    requires
        i < RAMP_LEN,
    ensures
        r@ == seq![ramp()[i as int]],
{
    proof {
        reveal_strlit("@");
        reveal_strlit("%");
        reveal_strlit("#");
        reveal_strlit("*");
        reveal_strlit("+");
        reveal_strlit("=");
        reveal_strlit("-");
        reveal_strlit(":");
        reveal_strlit(".");
        reveal_strlit(" ");
    }
    match i {
        0 => "@",
        1 => "%",
        2 => "#",
        3 => "*",
        4 => "+",
        5 => "=",
        6 => "-",
        7 => ":",
        8 => ".",
        _ => " ",
    }
}

/// Draws a `width` × `height` luminance grid, given in raster order (row
/// by row, left to right, top to bottom), as text: one glyph per sample,
/// rows separated by line breaks.
pub fn luma_to_ascii(luma: &Vec<u8>, width: u32, height: u32) -> (r: String)
    requires
        luma@.len() == width * height,
    ensures
        r@ == grid_text(luma@, width as nat, height as nat),
{
    let mut out = String::new();
    if width == 0 {
        return out;
    }
    let n: usize = luma.len();
    let mut y: u32 = 0;
    let mut i: usize = 0;
    while y < height
        invariant
            luma@.len() == width * height,
            n == luma@.len(),
            width > 0,
            y <= height,
            i == y * width,
            out@ == grid_text(luma@, width as nat, y as nat),
        decreases height - y,
    {
        if y > 0 {
            proof {
                reveal_strlit("\n");
            }
            out.append("\n");
        }
        let ghost prefix = out@;
        let ghost row = row_text(luma@, width as nat, y as nat);
        let mut x: u32 = 0;
        while x < width
            invariant
                luma@.len() == width * height,
                n == luma@.len(),
                y < height,
                x <= width,
                i == y * width + x,
                row == row_text(luma@, width as nat, y as nat),
                out@ == prefix + row.take(x as int),
            decreases width - x,
        {
            proof {
                assert(i < luma@.len()) by (nonlinear_arith)
                    requires
                        i == y * width + x,
                        x < width,
                        y < height,
                        luma@.len() == width * height,
                ;
            }
            out.append(ramp_str(glyph_index(luma[i])));
            proof {
                assert(row.take(x + 1) =~= row.take(x as int).push(row[x as int]));
            }
            x = x + 1;
            i = i + 1;
        }
        proof {
            assert(row.take(width as int) =~= row);
            assert(i == (y + 1) * width) by (nonlinear_arith)
                requires
                    i == y * width + width,
            ;
        }
        y = y + 1;
    }
    out
}

} // verus!
