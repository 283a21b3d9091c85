//! The branch montage, a picture of eight frames per row.
//!
//! ```text
//! row 1          the observed context tail
//! rows 2 ..      the model's branches
//! (group gap)
//! rows ..        the same branches, generated by the scene itself
//! ```
//!
//! Frames come in as one 8-bit grey per pixel.

use vstd::prelude::*;

use crate::bytes::push_bytes;
use crate::experiment::stats::{sample_indices, spaced};
use crate::model::params::ints;
use crate::scene::Request;
use crate::text::{decimal, push_decimal};

verus! {

/// Frames drawn per row.
pub const MONTAGE_COLS: usize = 8;

/// Integer upscale factor.
pub const MONTAGE_SCALE: usize = 3;

/// Gap between tiles, in output pixels.
pub const MONTAGE_GAP: usize = 2;

/// Width of the per-row marker margin, in output pixels.
pub const MONTAGE_MARGIN: usize = 6;

/// Extra gap in front of the ground-truth block, in output pixels.
pub const MONTAGE_GROUP_GAP: usize = 6;

/// Display gamma applied when a frame is mapped to 8 bits: the bits of `0.7`.
pub const MONTAGE_GAMMA: u32 = 0x3f33_3333;

/// Output pixels along one side of a tile.
pub const TILE: usize = 96;

/// Width of the picture.
pub const MONTAGE_WIDTH: usize = 792;

/// Grey of the lattice between tiles.
pub const LATTICE: u8 = 70;

/// Frames as sequences of greys.
pub open spec fn greys(frames: Seq<Vec<u8>>) -> Seq<Seq<u8>> {
    frames.map_values(|f: Vec<u8>| f@)
}

/// The frames of every row, from the top.
pub open spec fn montage_rows(
    context: Seq<Vec<u8>>,
    model: Seq<(Request, Vec<Vec<u8>>)>,
    truth: Seq<(Request, Vec<Vec<u8>>)>,
) -> Seq<Seq<Seq<u8>>> {
    Seq::new(
        1 + model.len() + truth.len(),
        |r: int|
            if r == 0 {
                greys(context)
            } else if r <= model.len() {
                greys(model[r - 1].1@)
            } else {
                greys(truth[r - 1 - model.len()].1@)
            },
    )
}

/// Where row `r` begins, when the group gap is in front of row `group`.
pub open spec fn row_top(r: int, group: int) -> int {
    2 + 98 * r + if r >= group {
        6int
    } else {
        0
    }
}

/// Height of the picture.
pub open spec fn montage_height(rows: int, group: int) -> int {
    2 + 98 * rows + if rows > group {
        6int
    } else {
        0
    }
}

/// The row whose tiles line `y` crosses, from row `from` on.
pub open spec fn row_at(y: int, rows: int, group: int, from: int) -> Option<int>
    decreases rows - from,
{
    if from >= rows {
        None
    } else if row_top(from, group) <= y < row_top(from, group) + TILE {
        Some(from)
    } else {
        row_at(y, rows, group, from + 1)
    }
}

/// The grey that marks row `r` in the margin.
pub open spec fn marker(r: int) -> u8 {
    if 24 + 26 * r > 255 {
        255
    } else {
        (24 + 26 * r) as u8
    }
}

/// The grey of a row at column `x`, `dy` lines below its top: its marker in the
/// margin, eight sampled frames, scaled up, in the tiles, and the lattice elsewhere. Where
/// there are no frames at all the tiles are black.
pub open spec fn row_grey(frames: Seq<Seq<u8>>, r: int, x: int, dy: int) -> u8 {
    let picks = spaced(frames.len() as int, 8);
    if x < 6 {
        marker(r)
    } else if 8 <= x < 790 && (x - 8) % 98 < 96 {
        let col = (x - 8) / 98;
        if frames.len() > 0 {
            frames[picks[col]][(dy / 3) * 32 + (x - 8) % 98 / 3]
        } else {
            0
        }
    } else {
        LATTICE
    }
}

/// The grey of the picture at column `x` of line `y`.
pub open spec fn montage_grey(rows: Seq<Seq<Seq<u8>>>, group: int, x: int, y: int) -> u8 {
    match row_at(y, rows.len() as int, group, 0) {
        Some(r) => row_grey(rows[r], r, x, y - row_top(r, group)),
        None => LATTICE,
    }
}

/// The three equal bytes of every pixel, line by line.
pub open spec fn montage_pixels(rows: Seq<Seq<Seq<u8>>>, group: int) -> Seq<u8> {
    Seq::new(
        (montage_height(rows.len() as int, group) * 792 * 3) as nat,
        |i: int| montage_grey(rows, group, i / 3 % 792, i / 3 / 792),
    )
}

/// The header of the picture.
pub open spec fn montage_header(height: nat) -> Seq<char> {
    "P6\n792 "@ + decimal(height) + "\n255\n"@
}

/// Every frame has a grey for each pixel, and the rows and the picture have sizes
/// that a machine can hold.
pub open spec fn drawable(rows: Seq<Seq<Seq<u8>>>) -> bool {
    &&& (98 * rows.len() + 8) * 792 * 3 <= usize::MAX
    &&& forall|r: int| 0 <= r < rows.len() ==> row_drawable(#[trigger] rows[r])
}

/// Every frame of a row has a grey for each pixel, and they can be sampled.
pub open spec fn row_drawable(frames: Seq<Seq<u8>>) -> bool {
    &&& 7 * frames.len() <= usize::MAX
    &&& forall|i: int| 0 <= i < frames.len() ==> (#[trigger] frames[i]).len() == 1024
}

/// The sampled indices of a row are indices of its frames.
proof fn lemma_picks(len: int)
    requires
        0 <= len,
    ensures
        forall|i: int| 0 <= i < spaced(len, 8).len() ==> 0 <= #[trigger] spaced(len, 8)[i] < len,
        len > 0 ==> spaced(len, 8).len() == 8,
        len == 0 ==> spaced(len, 8).len() == 0,
{
    if len > 0 {
        crate::experiment::stats::law_samples_span_the_range(len, 8);
    }
}

/// The frames of row `r`.
fn row_frames<'a>(
    context: &'a [Vec<u8>],
    model: &'a [(Request, Vec<Vec<u8>>)],
    truth: &'a [(Request, Vec<Vec<u8>>)],
    r: usize,
) -> (f: &'a [Vec<u8>])
    requires
        r < 1 + model@.len() + truth@.len(),
    ensures
        greys(f@) == montage_rows(context@, model@, truth@)[r as int],
{
    if r == 0 {
        context
    } else if r <= model.len() {
        model[r - 1].1.as_slice()
    } else {
        truth[r - 1 - model.len()].1.as_slice()
    }
}

/// The row that line `y` crosses.
fn find_row(y: usize, rows: usize, group: usize) -> (r: Option<usize>)
    requires
        98 * rows + 104 <= usize::MAX,
    ensures
        match r {
            Some(k) => k < rows && row_at(y as int, rows as int, group as int, 0) == Some(k as int),
            None => row_at(y as int, rows as int, group as int, 0) is None,
        },
{
    let mut k: usize = 0;
    while k < rows
        invariant
            k <= rows,
            98 * rows + 104 <= usize::MAX,
            row_at(y as int, rows as int, group as int, 0) == row_at(
                y as int,
                rows as int,
                group as int,
                k as int,
            ),
        decreases rows - k,
    {
        let top: usize = 2 + 98 * k + if k >= group {
            6
        } else {
            0
        };
        if top <= y && y < top + TILE {
            return Some(k);
        }
        k = k + 1;
    }
    None
}

/// Where [`row_at`] leads.
proof fn lemma_row_at(y: int, rows: int, group: int, from: int)
    requires
        0 <= from,
    ensures
        row_at(y, rows, group, from) matches Some(r) ==> from <= r < rows && row_top(r, group) <= y
            < row_top(r, group) + TILE,
    decreases rows - from,
{
    if from < rows && !(row_top(from, group) <= y < row_top(from, group) + TILE) {
        lemma_row_at(y, rows, group, from + 1);
    }
}

/// Appends the pixels of one line.
fn push_line(
    img: &mut Vec<u8>,
    context: &[Vec<u8>],
    model: &[(Request, Vec<Vec<u8>>)],
    truth: &[(Request, Vec<Vec<u8>>)],
    y: usize,
)
    requires
        drawable(montage_rows(context@, model@, truth@)),
        1 + model@.len() + truth@.len() <= usize::MAX,
    ensures
        final(img)@ == old(img)@ + Seq::new(
            2376,
            |i: int|
                montage_grey(
                    montage_rows(context@, model@, truth@),
                    1 + model@.len() as int,
                    i / 3,
                    y as int,
                ),
        ),
{
    let ghost all = montage_rows(context@, model@, truth@);
    let ghost start = img@;
    let group: usize = 1 + model.len();
    let rows: usize = group + truth.len();
    let row: Option<usize> = find_row(y, rows, group);
    proof {
        lemma_row_at(y as int, rows as int, group as int, 0);
    }
    let mut picks: Vec<usize> = Vec::new();
    let mut dy: usize = 0;
    match row {
        Some(r) => {
            assert(row_drawable(all[r as int]));
            let frames = row_frames(context, model, truth, r);
            assert(greys(frames@).len() == frames@.len());
            picks = sample_indices(frames.len(), MONTAGE_COLS);
            dy = y - (2 + 98 * r + if r >= group {
                6
            } else {
                0
            });
        },
        None => {},
    }
    let mut x: usize = 0;
    let ghost line = Seq::new(
        2376,
        |i: int| montage_grey(all, 1 + model@.len() as int, i / 3, y as int),
    );
    assert(line.take(0) =~= Seq::<u8>::empty());
    assert(img@ =~= start + line.take(0));
    while x < MONTAGE_WIDTH
        invariant
            x <= 792,
            all == montage_rows(context@, model@, truth@),
            drawable(all),
            group == 1 + model@.len(),
            rows == group + truth@.len(),
            line == Seq::new(2376, |i: int| montage_grey(all, 1 + model@.len() as int, i / 3, y as int)),
            match row {
                Some(r) => {
                    &&& r < rows
                    &&& row_at(y as int, rows as int, group as int, 0) == Some(r as int)
                    &&& ints(picks@) == spaced(all[r as int].len() as int, 8)
                    &&& dy == y - row_top(r as int, group as int)
                    &&& dy < TILE
                },
                None => row_at(y as int, rows as int, group as int, 0) is None,
            },
            img@ == start + line.take(3 * x),
        decreases 792 - x,
    {
        let g: u8 = match row {
            None => LATTICE,
            Some(r) => {
                if x < MONTAGE_MARGIN {
                    if r > 8 {
                        255
                    } else {
                        (24 + 26 * r) as u8
                    }
                } else if 8 <= x && x < 790 && (x - 8) % 98 < TILE {
                    let col: usize = (x - 8) / 98;
                    let frames = row_frames(context, model, truth, r);
                    proof {
                        assert(row_drawable(all[r as int]));
                        lemma_picks(all[r as int].len() as int);
                        assert(ints(picks@).len() == picks@.len());
                    }
                    if col < picks.len() {
                        proof {
                            assert(ints(picks@)[col as int] == picks@[col as int]);
                            assert(all[r as int][picks@[col as int] as int].len() == 1024);
                        }
                        let f: &Vec<u8> = &frames[picks[col]];
                        assert(f@ == greys(frames@)[picks@[col as int] as int]);
                        f[(dy / 3) * 32 + (x - 8) % 98 / 3]
                    } else {
                        0
                    }
                } else {
                    LATTICE
                }
            },
        };
        assert(g == montage_grey(all, group as int, x as int, y as int));
        img.push(g);
        img.push(g);
        img.push(g);
        proof {
            assert((3 * x) / 3 == x && (3 * x + 1) / 3 == x && (3 * x + 2) / 3 == x);
            assert(img@ =~= start + line.take(3 * (x + 1)));
        }
        x = x + 1;
    }
    assert(line.take(2376) =~= line);
}

/// Render the branch montage as a binary PPM picture.
pub fn build_montage(
    context_tail: &[Vec<u8>],
    model_branches: &[(Request, Vec<Vec<u8>>)],
    truth_branches: &[(Request, Vec<Vec<u8>>)],
) -> (out: Vec<u8>)
    requires
        drawable(montage_rows(context_tail@, model_branches@, truth_branches@)),
    ensures
        ({
            let rows = montage_rows(context_tail@, model_branches@, truth_branches@);
            let group = 1 + model_branches@.len() as int;
            out@ == vstd::utf8::encode_utf8(
                montage_header(montage_height(rows.len() as int, group) as nat),
            ) + montage_pixels(rows, group)
        }),
{
    let ghost all = montage_rows(context_tail@, model_branches@, truth_branches@);
    let group: usize = 1 + model_branches.len();
    let rows: usize = group + truth_branches.len();
    let height: usize = 2 + 98 * rows + if rows > group {
        6
    } else {
        0
    };
    let mut header: String = String::new();
    header.append("P6\n792 ");
    push_decimal(&mut header, height as u64);
    header.append("\n255\n");
    assert(header@ =~= montage_header(height as nat));
    let mut out: Vec<u8> = Vec::new();
    push_bytes(&mut out, header.as_str().as_bytes());
    let ghost start = out@;
    let ghost pixels = montage_pixels(all, group as int);
    let mut y: usize = 0;
    assert(pixels.take(0) =~= Seq::<u8>::empty());
    assert(out@ =~= start + pixels.take(0));
    while y < height
        invariant
            y <= height,
            all == montage_rows(context_tail@, model_branches@, truth_branches@),
            drawable(all),
            group == 1 + model_branches@.len(),
            rows == group + truth_branches@.len(),
            height == montage_height(all.len() as int, group as int),
            pixels == montage_pixels(all, group as int),
            out@ == start + pixels.take(2376 * y),
        decreases height - y,
    {
        let ghost before = out@;
        push_line(&mut out, context_tail, model_branches, truth_branches, y);
        proof {
            let line = Seq::new(
                2376,
                |i: int| montage_grey(all, 1 + model_branches@.len() as int, i / 3, y as int),
            );
            assert(out@ == before + line);
            assert forall|i: int| 0 <= i < 2376 implies pixels[2376 * y + i] == line[i] by {
                assert((2376 * y + i) / 3 == 792 * y + i / 3);
                assert((792 * y + i / 3) % 792 == i / 3);
                assert((792 * y + i / 3) / 792 == y);
            }
            assert(out@ =~= start + pixels.take(2376 * (y + 1)));
        }
        y = y + 1;
    }
    assert(pixels.take(2376 * y) =~= pixels);
    out
}

/// The picture is a function of what is drawn: equal rows give equal pictures,
/// which are `792` pixels wide and have three equal bytes for every pixel.
pub proof fn law_montage_size(rows: Seq<Seq<Seq<u8>>>, group: int)
    requires
        0 < group <= rows.len(),
    ensures
        montage_pixels(rows, group).len() == montage_height(rows.len() as int, group) * 792 * 3,
        forall|p: int|
            0 <= p < 792 * montage_height(rows.len() as int, group) ==> #[trigger] montage_pixels(
                rows,
                group,
            )[3 * p] == montage_pixels(rows, group)[3 * p + 1] && montage_pixels(rows, group)[3
                * p + 1] == montage_pixels(rows, group)[3 * p + 2],
        rows.len() == 9 && group == 5 ==> montage_height(rows.len() as int, group) == 890,
{
    let px = montage_pixels(rows, group);
    let h = montage_height(rows.len() as int, group);
    assert(h >= 0);
    assert(px.len() == (h * 792 * 3) as nat);
    assert forall|p: int| 0 <= p < 792 * montage_height(rows.len() as int, group) implies
        #[trigger] px[3 * p] == px[3 * p + 1] && px[3 * p + 1] == px[3 * p + 2] by {
        assert((3 * p) / 3 == p && (3 * p + 1) / 3 == p && (3 * p + 2) / 3 == p);
    }
}

/// Rows do not overlap, so a line crosses at most one of them.
pub proof fn law_rows_do_not_overlap(a: int, b: int, group: int)
    requires
        0 <= a < b,
    ensures
        row_top(a, group) + TILE + MONTAGE_GAP <= row_top(b, group),
{
}

// ---------------------------------------------------------------------------
// What the picture shows
// ---------------------------------------------------------------------------

/// A line within the tiles of row `r` crosses row `r`.
proof fn lemma_row_is_found(y: int, rows: int, group: int, from: int, r: int)
    requires
        0 <= from <= r < rows,
        row_top(r, group) <= y < row_top(r, group) + 96,
    ensures
        row_at(y, rows, group, from) == Some(r),
    decreases r - from,
{
    if from < r {
        law_rows_do_not_overlap(from, r, group);
        lemma_row_is_found(y, rows, group, from + 1, r);
    }
}

/// The rows of the picture, from the top: the context, then the model's branches in order,
/// then the scene's own in order.
pub proof fn law_rows_are_context_model_truth(
    context: Seq<Vec<u8>>,
    model: Seq<(Request, Vec<Vec<u8>>)>,
    truth: Seq<(Request, Vec<Vec<u8>>)>,
    i: int,
    k: int,
)
    ensures
        ({
            let rows = montage_rows(context, model, truth);
            &&& rows.len() == 1 + model.len() + truth.len()
            &&& rows[0].len() == context.len()
            &&& 0 <= k < context.len() ==> rows[0][k] == context[k]@
            &&& 0 <= i < model.len() ==> rows[1 + i].len() == model[i].1@.len()
            &&& 0 <= i < model.len() && 0 <= k < model[i].1@.len() ==> rows[1 + i][k]
                == model[i].1@[k]@
            &&& 0 <= i < truth.len() ==> rows[1 + model.len() + i].len() == truth[i].1@.len()
            &&& 0 <= i < truth.len() && 0 <= k < truth[i].1@.len() ==> rows[1 + model.len() + i][k]
                == truth[i].1@[k]@
        }),
{
}

/// A tile shows its frame upright, three times as large. Row `r` begins 98 lines below the
/// row above it, with six lines more in front of the scene's own branches; column `c` begins
/// 98 pixels to the right of the column before it and shows the frame that is `c` sevenths
/// of the way through the row. Each of the nine pixels that a frame's pixel `(px, py)`
/// becomes has its grey, in all three of its bytes.
pub proof fn law_tiles_show_frames_upright(
    rows: Seq<Seq<Seq<u8>>>,
    group: int,
    r: int,
    c: int,
    px: int,
    py: int,
    dx: int,
    dy: int,
    byte: int,
)
    requires
        0 < group <= rows.len(),
        0 <= r < rows.len(),
        rows[r].len() > 0,
        0 <= c < 8,
        0 <= px < 32,
        0 <= py < 32,
        0 <= dx < 3,
        0 <= dy < 3,
        0 <= byte < 3,
    ensures
        ({
            let x = 8 + 98 * c + 3 * px + dx;
            let top = if r < group {
                2 + 98 * r
            } else {
                8 + 98 * r
            };
            let y = top + 3 * py + dy;
            let shown = rows[r][c * (rows[r].len() - 1) / 7][py * 32 + px];
            &&& montage_grey(rows, group, x, y) == shown
            &&& montage_pixels(rows, group)[3 * (792 * y + x) + byte] == shown
        }),
{
    let x = 8 + 98 * c + 3 * px + dx;
    let top = if r < group {
        2 + 98 * r
    } else {
        8 + 98 * r
    };
    let y = top + 3 * py + dy;
    lemma_row_is_found(y, rows.len() as int, group, 0, r);
    assert((x - 8) / 98 == c && (x - 8) % 98 == 3 * px + dx);
    assert((3 * px + dx) / 3 == px);
    assert((3 * py + dy) / 3 == py);
    assert(spaced(rows[r].len() as int, 8)[c] == c * (rows[r].len() - 1) / 7);
    lemma_pixel_of(rows, group, x, y, byte);
}

/// Where a pixel of the picture stands among its bytes.
proof fn lemma_pixel_of(rows: Seq<Seq<Seq<u8>>>, group: int, x: int, y: int, byte: int)
    requires
        0 <= x < 792,
        0 <= y < montage_height(rows.len() as int, group),
        0 <= byte < 3,
    ensures
        montage_pixels(rows, group)[3 * (792 * y + x) + byte] == montage_grey(rows, group, x, y),
{
    let i = 3 * (792 * y + x) + byte;
    assert(i / 3 == 792 * y + x);
    assert((792 * y + x) % 792 == x);
    assert((792 * y + x) / 792 == y);
    assert(0 <= i < montage_height(rows.len() as int, group) * 792 * 3);
}

/// Between the tiles is a lattice of one grey: above and below every row, to the left of
/// each column and at the right edge. The margin of a row is marked, lighter from row to
/// row, as far as white.
pub proof fn law_lattice_and_margin(
    rows: Seq<Seq<Seq<u8>>>,
    group: int,
    r: int,
    dy: int,
    x: int,
    c: int,
)
    requires
        0 < group <= rows.len(),
        0 <= r < rows.len(),
        0 <= c < 8,
        0 <= x < 792,
    ensures
        ({
            let top = if r < group {
                2 + 98 * r
            } else {
                8 + 98 * r
            };
            &&& 0 <= dy < 96 ==> montage_grey(rows, group, 6 + 98 * c, top + dy) == 70
            &&& 0 <= dy < 96 ==> montage_grey(rows, group, 7 + 98 * c, top + dy) == 70
            &&& 0 <= dy < 96 ==> montage_grey(rows, group, 790, top + dy) == 70
            &&& 0 <= dy < 96 && x < 6 && r <= 8 ==> montage_grey(rows, group, x, top + dy) == 24
                + 26 * r
            &&& 0 <= dy < 96 && x < 6 && r > 8 ==> montage_grey(rows, group, x, top + dy) == 255
            &&& 96 <= dy < 98 ==> montage_grey(rows, group, x, top + dy) == 70
            &&& r == 0 && -2 <= dy < 0 ==> montage_grey(rows, group, x, top + dy) == 70
            &&& r == group && -8 <= dy < 0 ==> montage_grey(rows, group, x, top + dy) == 70
        }),
{
    let top = row_top(r, group);
    if 0 <= dy < 96 {
        lemma_row_is_found(top + dy, rows.len() as int, group, 0, r);
    }
    if 96 <= dy < 98 || (r == 0 && -2 <= dy < 0) || (r == group && -8 <= dy < 0) {
        lemma_no_row(top + dy, rows.len() as int, group, r, dy, 0);
    }
}

/// A line between two rows crosses none.
proof fn lemma_no_row(y: int, rows: int, group: int, r: int, dy: int, from: int)
    requires
        0 <= from,
        0 <= r < rows,
        y == row_top(r, group) + dy,
        96 <= dy < 98 || (r == 0 && -2 <= dy < 0) || (r == group && -8 <= dy < 0),
    ensures
        row_at(y, rows, group, from) is None,
    decreases rows - from,
{
    if from < rows {
        lemma_no_row(y, rows, group, r, dy, from + 1);
    }
}

/// The picture is a binary PPM file of 792 pixels by as many lines as its rows take: 98 each,
/// two more, and six more in front of the scene's own branches, if there are any.
pub proof fn law_picture_is_a_binary_ppm(rows: int, group: int, height: nat)
    requires
        0 < group <= rows,
    ensures
        montage_header(height) == "P6\n792 "@ + decimal(height) + "\n255\n"@,
        rows == group ==> montage_height(rows, group) == 98 * rows + 2,
        rows > group ==> montage_height(rows, group) == 98 * rows + 8,
{
}

} // verus!
