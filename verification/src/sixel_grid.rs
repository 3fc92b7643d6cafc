//! The growable pixel grid that Sixel decoding draws into, and the
//! parameter parser shared by both Sixel decoders.
//!
//! A decoded image is described abstractly by the sequence of *placements*
//! the data stream makes: each sixel data character places one column of
//! six vertical pixels at the cursor. The colour of a pixel is the colour
//! of the last placement that sets it, or the background.

use vstd::prelude::*;

verus! {

/// One sixel column placed by the data stream: six vertical pixels at
/// column `x`, rows `6 * row .. 6 * row + 6`, of which those whose bit is
/// set in `bits` (bit 0 = topmost) take `color`.
pub struct Placement<C> {
    pub x: nat,
    pub row: nat,
    pub bits: u32,
    pub color: C,
}

/// Whether bit `b` of `bits` is set.
pub open spec fn bit_set(bits: u32, b: u32) -> bool {
    (bits >> b) & 1u32 == 1u32
}

/// Whether placement `p` sets the pixel at `(x, y)`.
pub open spec fn covers<C>(p: Placement<C>, x: int, y: int) -> bool {
    &&& p.x == x
    &&& p.row * 6 <= y < p.row * 6 + 6
    &&& bit_set(p.bits, (y - p.row * 6) as u32)
}

/// The colour of pixel `(x, y)` after all placements `ps`: the colour of
/// the last placement covering it, or `background` when none does.
pub open spec fn color_at<C>(ps: Seq<Placement<C>>, x: int, y: int, background: C) -> C
    decreases ps.len(),
{
    if ps.len() == 0 {
        background
    } else if covers(ps.last(), x, y) {
        ps.last().color
    } else {
        color_at(ps.drop_last(), x, y, background)
    }
}

/// `count` consecutive placements starting at column `x` of sixel row `row`.
pub open spec fn place_run<C>(
    ps: Seq<Placement<C>>,
    x: nat,
    row: nat,
    count: nat,
    bits: u32,
    color: C,
) -> Seq<Placement<C>> {
    ps + Seq::new(count, |k: int| Placement { x: x + k as nat, row, bits, color })
}

/// All placements lie inside a grid of `w` columns and `h` pixel rows.
pub open spec fn within<C>(ps: Seq<Placement<C>>, w: nat, h: nat) -> bool {
    forall|k: int| #![trigger ps[k]] 0 <= k < ps.len() ==> ps[k].x < w && (ps[k].row + 1) * 6 <= h
}

/// Pushing a placement inside a grid that grew keeps all placements inside.
pub proof fn lemma_within_push<C>(ps: Seq<Placement<C>>, p: Placement<C>, w0: nat, h0: nat, w: nat, h: nat)
    requires
        within(ps, w0, h0),
        w0 <= w,
        h0 <= h,
        p.x < w,
        (p.row + 1) * 6 <= h,
    ensures
        within(ps.push(p), w, h),
{
    assert forall|k: int| #![trigger ps.push(p)[k]] 0 <= k < ps.push(p).len() implies ps.push(p)[k].x < w
        && (ps.push(p)[k].row + 1) * 6 <= h by {
        if k < ps.len() {
            assert(ps.push(p)[k] == ps[k]);
        }
    }
}

/// The grid has `h` rows of `w` cells each.
pub open spec fn grid_shape<T>(grid: Seq<Vec<T>>, w: nat, h: nat) -> bool {
    &&& grid.len() == h
    &&& forall|y: int| 0 <= y < h ==> (#[trigger] grid[y])@.len() == w
}

/// The grid has `h` rows of `w` cells and each cell holds the colour that
/// the placements `ps` give it.
pub open spec fn grid_matches<T>(
    grid: Seq<Vec<T>>,
    w: nat,
    h: nat,
    ps: Seq<Placement<T>>,
    background: T,
) -> bool {
    &&& grid_shape(grid, w, h)
    &&& forall|y: int, x: int|
        0 <= y < h && 0 <= x < w ==> (#[trigger] grid[y]@[x]) == color_at(ps, x, y, background)
}

/// Outside the extent of the placements every pixel has the background colour.
pub proof fn lemma_color_outside<C>(ps: Seq<Placement<C>>, w: nat, h: nat, x: int, y: int, bg: C)
    requires
        within(ps, w, h),
        !(0 <= x < w && 0 <= y < h),
    ensures
        color_at(ps, x, y, bg) == bg,
    decreases ps.len(),
{
    if ps.len() > 0 {
        let p = ps[ps.len() - 1];
        assert(p.x < w && (p.row + 1) * 6 <= h);
        assert forall|k: int| 0 <= k < ps.drop_last().len() implies #[trigger] ps.drop_last()[k].x < w
            && (ps.drop_last()[k].row + 1) * 6 <= h by {
            assert(ps.drop_last()[k] == ps[k]);
        }
        lemma_color_outside(ps.drop_last(), w, h, x, y, bg);
    }
}

/// Adding a placement changes exactly the pixels it covers.
pub proof fn lemma_color_push<C>(ps: Seq<Placement<C>>, p: Placement<C>, x: int, y: int, bg: C)
    ensures
        color_at(ps.push(p), x, y, bg) == if covers(p, x, y) {
            p.color
        } else {
            color_at(ps, x, y, bg)
        },
{
    assert(ps.push(p).drop_last() =~= ps);
}

/// `ensure_grid_size` grows the grid to at least `need_w` columns and
/// `need_h` rows; new cells take `fill`.
pub fn ensure_grid_size<T: Copy>(
    grid: &mut Vec<Vec<T>>,
    grid_width: &mut usize,
    grid_height: &mut usize,
    need_w: usize,
    need_h: usize,
    fill: T,
)
    requires
        grid_shape(old(grid)@, *old(grid_width) as nat, *old(grid_height) as nat),
    ensures
        *final(grid_width) == if need_w > *old(grid_width) {
            need_w
        } else {
            *old(grid_width)
        },
        *final(grid_height) == if need_h > *old(grid_height) {
            need_h
        } else {
            *old(grid_height)
        },
        grid_shape(final(grid)@, *final(grid_width) as nat, *final(grid_height) as nat),
        forall|y: int, x: int|
            0 <= y < *final(grid_height) && 0 <= x < *final(grid_width) ==> (#[trigger] final(grid)@[y]@[x]) == if y < *old(grid_height) && x < *old(grid_width) {
                old(grid)@[y]@[x]
            } else {
                fill
            },
{
    let ghost g0 = grid@;
    let w0 = *grid_width;
    let h0 = *grid_height;
    if need_w > *grid_width {
        let mut y: usize = 0;
        while y < grid.len()
            invariant
                grid@.len() == h0,
                g0.len() == h0,
                need_w > w0,
                0 <= y <= h0,
                forall|yy: int| 0 <= yy < h0 ==> (#[trigger] g0[yy])@.len() == w0,
                forall|yy: int| 0 <= yy < y ==> (#[trigger] grid@[yy])@.len() == need_w,
                forall|yy: int| y <= yy < h0 ==> #[trigger] grid@[yy] == g0[yy],
                forall|yy: int, x: int|
                    0 <= yy < y && 0 <= x < need_w ==> (#[trigger] grid@[yy]@[x]) == if x < w0 {
                        g0[yy]@[x]
                    } else {
                        fill
                    },
            decreases h0 - y,
        {
            let mut row: Vec<T> = Vec::new();
            std::mem::swap(&mut row, &mut grid[y]);
            assert(row@ == g0[y as int]@);
            let mut k: usize = row.len();
            while k < need_w
                invariant
                    w0 <= k <= need_w,
                    row@.len() == k,
                    forall|x: int| 0 <= x < w0 ==> #[trigger] row@[x] == g0[y as int]@[x],
                    forall|x: int| w0 <= x < k ==> #[trigger] row@[x] == fill,
                decreases need_w - k,
            {
                row.push(fill);
                k = k + 1;
            }
            std::mem::swap(&mut row, &mut grid[y]);
            y = y + 1;
        }
        *grid_width = need_w;
    }
    let ghost g1 = grid@;
    let w1 = *grid_width;
    if need_h > *grid_height {
        let mut y: usize = *grid_height;
        while y < need_h
            invariant
                h0 <= y <= need_h,
                grid@.len() == y,
                forall|yy: int| 0 <= yy < h0 ==> #[trigger] grid@[yy] == g1[yy],
                forall|yy: int| h0 <= yy < y ==> (#[trigger] grid@[yy])@.len() == w1,
                forall|yy: int, x: int|
                    h0 <= yy < y && 0 <= x < w1 ==> (#[trigger] grid@[yy]@[x]) == fill,
            decreases need_h - y,
        {
            let mut row: Vec<T> = Vec::new();
            let mut k: usize = 0;
            while k < w1
                invariant
                    0 <= k <= w1,
                    row@.len() == k,
                    forall|x: int| 0 <= x < k ==> #[trigger] row@[x] == fill,
                decreases w1 - k,
            {
                row.push(fill);
                k = k + 1;
            }
            grid.push(row);
            y = y + 1;
        }
        *grid_height = need_h;
    }
}

/// Writes one sixel column: the pixels `(x, 6 * sixel_y + b)` for the bits
/// `b < 6` set in `bits` take `color`; the others keep their value.
pub fn write_sixel_column<T: Copy>(
    grid: &mut Vec<Vec<T>>,
    grid_width: usize,
    x: usize,
    sixel_y: usize,
    bits: u32,
    color: T,
)
    requires
        forall|y: int| 0 <= y < old(grid)@.len() ==> (#[trigger] old(grid)@[y])@.len() == grid_width,
        sixel_y * 6 + 6 <= usize::MAX,
    ensures
        final(grid)@.len() == old(grid)@.len(),
        forall|y: int| 0 <= y < final(grid)@.len() ==> (#[trigger] final(grid)@[y])@.len() == grid_width,
        forall|y: int, xx: int|
            0 <= y < final(grid)@.len() && 0 <= xx < grid_width ==> (#[trigger] final(grid)@[y]@[xx])
                == if xx == x && sixel_y * 6 <= y < sixel_y * 6 + 6 && bit_set(
                bits,
                (y - sixel_y * 6) as u32,
            ) {
                color
            } else {
                old(grid)@[y]@[xx]
            },
{
    if x >= grid_width {
        return ;
    }
    let ghost g0 = grid@;
    let mut bit: u32 = 0;
    while bit < 6
        invariant
            0 <= bit <= 6,
            x < grid_width,
            sixel_y * 6 + 6 <= usize::MAX,
            grid@.len() == g0.len(),
            forall|y: int| 0 <= y < g0.len() ==> (#[trigger] g0[y])@.len() == grid_width,
            forall|y: int| 0 <= y < grid@.len() ==> (#[trigger] grid@[y])@.len() == grid_width,
            forall|y: int, xx: int|
                0 <= y < grid@.len() && 0 <= xx < grid_width ==> (#[trigger] grid@[y]@[xx]) == if xx
                    == x && sixel_y * 6 <= y < sixel_y * 6 + bit && bit_set(
                    bits,
                    (y - sixel_y * 6) as u32,
                ) {
                    color
                } else {
                    g0[y]@[xx]
                },
        decreases 6 - bit,
    {
        if (bits >> bit) & 1 == 1 {
            let py = sixel_y * 6 + bit as usize;
            if py < grid.len() {
                let mut row: Vec<T> = Vec::new();
                std::mem::swap(&mut row, &mut grid[py]);
                row.set(x, color);
                std::mem::swap(&mut row, &mut grid[py]);
            }
        }
        bit = bit + 1;
    }
}

/// Whether `b` is an ASCII decimal digit.
pub open spec fn is_digit(b: u8) -> bool {
    0x30 <= b <= 0x39
}

/// `current * 10 + digit`, saturating at `u32::MAX` at each of the two steps.
pub open spec fn sat_digit(current: u32, b: u8) -> u32 {
    let m: int = current * 10;
    let m2: int = if m > u32::MAX {
        u32::MAX as int
    } else {
        m
    };
    let s: int = m2 + (b - 0x30);
    if s > u32::MAX {
        u32::MAX
    } else {
        s as u32
    }
}

/// Parsing `;`-separated decimal parameters from `pos` on, with the
/// parameters `params` already complete and the number `current` under way
/// (`has_digit` says whether it has a digit yet). Returns the parameters
/// and the position of the first byte that is neither a digit nor `;`.
pub open spec fn parse_acc(
    data: Seq<u8>,
    pos: int,
    params: Seq<u32>,
    current: u32,
    has_digit: bool,
) -> (Seq<u32>, int)
    decreases data.len() - pos,
{
    let finish = if has_digit {
        params.push(current)
    } else {
        params
    };
    if pos < 0 || pos >= data.len() {
        (finish, pos)
    } else {
        let b = data[pos];
        if is_digit(b) {
            parse_acc(data, pos + 1, params, sat_digit(current, b), true)
        } else if b == 0x3b {
            parse_acc(
                data,
                pos + 1,
                params.push(
                    if has_digit {
                        current
                    } else {
                        0
                    },
                ),
                0,
                false,
            )
        } else {
            (finish, pos)
        }
    }
}

/// The parameters at `start` and the position just past them.
pub open spec fn parse_params_spec(data: Seq<u8>, start: int) -> (Seq<u32>, int) {
    parse_acc(data, start, Seq::empty(), 0, false)
}

/// The parameter list ends between `pos` and the end of the data.
pub proof fn lemma_parse_acc_bounds(
    data: Seq<u8>,
    pos: int,
    params: Seq<u32>,
    current: u32,
    has_digit: bool,
)
    requires
        0 <= pos <= data.len(),
    ensures
        pos <= parse_acc(data, pos, params, current, has_digit).1 <= data.len(),
    decreases data.len() - pos,
{
    if pos < data.len() {
        let b = data[pos];
        if is_digit(b) {
            lemma_parse_acc_bounds(data, pos + 1, params, sat_digit(current, b), true);
        } else if b == 0x3b {
            lemma_parse_acc_bounds(
                data,
                pos + 1,
                params.push(
                    if has_digit {
                        current
                    } else {
                        0
                    },
                ),
                0,
                false,
            );
        }
    }
}

/// Parses the `;`-separated decimal parameters that start at `start`.
/// Each number saturates at `u32::MAX`; an empty field counts as 0.
/// Returns the parameters and the position of the first byte past them.
pub fn parse_params(data: &[u8], start: usize) -> (res: (Vec<u32>, usize))
    requires
        start <= data@.len(),
    ensures
        (res.0@, res.1 as int) == parse_params_spec(data@, start as int),
        start <= res.1 <= data@.len(),
{
    proof {
        lemma_parse_acc_bounds(data@, start as int, Seq::empty(), 0, false);
    }
    let mut params: Vec<u32> = Vec::new();
    let mut current: u32 = 0;
    let mut has_digit = false;
    let mut pos = start;
    while pos < data.len()
        invariant
            start <= pos <= data@.len(),
            parse_acc(data@, pos as int, params@, current, has_digit) == parse_params_spec(
                data@,
                start as int,
            ),
        ensures
            start <= pos <= data@.len(),
            parse_acc(data@, pos as int, params@, current, has_digit) == parse_params_spec(
                data@,
                start as int,
            ),
            pos >= data@.len() || !(is_digit(data@[pos as int]) || data@[pos as int] == 0x3b),
        decreases data@.len() - pos,
    {
        let b = data[pos];
        if 0x30 <= b && b <= 0x39 {
            let m: u32 = match current.checked_mul(10) {
                Some(v) => v,
                None => u32::MAX,
            };
            current = m.saturating_add((b - 0x30) as u32);
            has_digit = true;
        } else if b == 0x3b {
            params.push(
                if has_digit {
                    current
                } else {
                    0
                },
            );
            current = 0;
            has_digit = false;
        } else {
            break ;
        }
        pos = pos + 1;
    }
    if has_digit {
        params.push(current);
    }
    (params, pos)
}

} // verus!
