//! The boot framebuffer console's own Sixel decoder, which produces
//! XRGB8888 pixels over a 256-entry palette, and where it agrees with the
//! VT-330 decoder of `sixel`.

use vstd::prelude::*;

use crate::pixel::{black, Pixel};
use crate::sixel::{
    lemma_sixel_step_advances, scale_channel, scale_overflows, sixel_color_cmd,
    sixel_decodable, sixel_image_height, sixel_image_width, sixel_initial, sixel_run, sixel_run_from,
    sixel_step, SixelState,
};
use crate::sixel_grid::{
    color_at, ensure_grid_size, grid_matches, lemma_color_outside, lemma_color_push, lemma_within_push,
    lemma_parse_acc_bounds, parse_params, parse_params_spec, place_run, within, write_sixel_column,
    Placement,
};

verus! {

/// Opaque black in XRGB8888, the background of a decoded image.
pub const OPAQUE_BLACK: u32 = 0xFF00_0000;

/// Whether `c` is a sixel data character.
pub open spec fn is_data(c: u8) -> bool {
    0x3f <= c <= 0x7e
}

/// Whether `v * 255` does not fit in a `u32`.
pub open spec fn channel_overflows(v: u32) -> bool {
    v * 255 > u32::MAX
}

/// A colour percentage scaled to 0..=255 (the quotient, not yet truncated).
pub open spec fn channel(v: u32) -> u32 {
    ((v * 255) / 100) as u32
}

/// The XRGB8888 colour for the percentages `r`, `g`, `b`.
pub open spec fn xrgb(r: u32, g: u32, b: u32) -> u32 {
    0xFF00_0000u32 | (channel(r) << 16u32) | (channel(g) << 8u32) | channel(b)
}

/// The VT-330 default palette as XRGB8888, padded to 256 entries with
/// opaque black.
pub open spec fn console_palette_spec() -> Seq<u32> {
    seq![
        0xFF000000u32, 0xFF3333CCu32, 0xFFCC3333u32, 0xFF33CC33u32, 0xFFCC33CCu32, 0xFF33CCCCu32,
        0xFFCCCC33u32, 0xFFCCCCCCu32, 0xFF333333u32, 0xFF3333FFu32, 0xFFFF3333u32, 0xFF33FF33u32,
        0xFFFF33FFu32, 0xFF33FFFFu32, 0xFFFFFF33u32, 0xFFFFFFFFu32,
    ] + Seq::new(240, |k: int| 0xFF00_0000u32)
}

/// The decoder state between two commands.
#[verifier::ext_equal]
pub struct ConsoleSixelState {
    pub palette: Seq<u32>,
    pub current_color: nat,
    pub cur_x: nat,
    pub cur_row: nat,
    pub placements: Seq<Placement<u32>>,
    pub width: nat,
    pub height: nat,
    /// A colour definition had a component too large to scale.
    pub overflow: bool,
    /// A data character was drawn with a colour register past the palette.
    pub bad_index: bool,
}

pub open spec fn console_sixel_initial() -> ConsoleSixelState {
    ConsoleSixelState {
        palette: console_palette_spec(),
        current_color: 0,
        cur_x: 0,
        cur_row: 0,
        placements: Seq::empty(),
        width: 0,
        height: 0,
        overflow: false,
        bad_index: false,
    }
}

/// Placing `count` columns with pattern `bits` in colour `color`.
pub open spec fn console_place(
    st: ConsoleSixelState,
    count: nat,
    bits: u32,
    color: u32,
) -> ConsoleSixelState {
    ConsoleSixelState {
        placements: place_run(st.placements, st.cur_x, st.cur_row, count, bits, color),
        cur_x: st.cur_x + count,
        width: if count > 0 && st.cur_x + count > st.width {
            st.cur_x + count
        } else {
            st.width
        },
        height: if count > 0 && (st.cur_row + 1) * 6 > st.height {
            (st.cur_row + 1) * 6
        } else {
            st.height
        },
        ..st
    }
}

/// A repeat of `a + b` columns is a repeat of `a` columns followed by a
/// repeat of `b` columns of the same pattern and colour.
pub proof fn lemma_console_repeat_split(st: ConsoleSixelState, a: nat, b: nat, bits: u32, color: u32)
    ensures
        console_place(console_place(st, a, bits, color), b, bits, color) == console_place(st, a + b, bits, color),
{
    let s1 = console_place(st, a, bits, color);
    assert(place_run(s1.placements, s1.cur_x, s1.cur_row, b, bits, color) =~= place_run(
        st.placements,
        st.cur_x,
        st.cur_row,
        a + b,
        bits,
        color,
    ));
    assert(console_place(console_place(st, a, bits, color), b, bits, color) =~= console_place(st, a + b, bits, color));
}

/// The effect of a colour command with parameters `params`.
pub open spec fn console_color_cmd(st: ConsoleSixelState, params: Seq<u32>) -> ConsoleSixelState {
    if params.len() >= 5 {
        let ovf = st.overflow || channel_overflows(params[2]) || channel_overflows(params[3])
            || channel_overflows(params[4]);
        let color = xrgb(params[2], params[3], params[4]);
        ConsoleSixelState {
            palette: if params[0] < 256 {
                st.palette.update(params[0] as int, color)
            } else {
                st.palette
            },
            current_color: params[0] as nat,
            overflow: ovf,
            ..st
        }
    } else if params.len() > 0 {
        ConsoleSixelState { current_color: params[0] as nat, ..st }
    } else {
        ConsoleSixelState { current_color: 0, ..st }
    }
}

/// One command at position `i`: the new state and where the next one starts.
pub open spec fn console_step(data: Seq<u8>, i: int, st: ConsoleSixelState) -> (
    ConsoleSixelState,
    int,
) {
    let c = data[i];
    if c == 0x23 {
        let (params, end) = parse_params_spec(data, i + 1);
        (console_color_cmd(st, params), end)
    } else if c == 0x21 {
        let (params, end) = parse_params_spec(data, i + 1);
        let count: nat = if params.len() == 0 {
            1
        } else {
            params[0] as nat
        };
        let reg: int = if st.current_color < 255 {
            st.current_color as int
        } else {
            255
        };
        if end < data.len() && is_data(data[end]) {
            (console_place(st, count, (data[end] - 0x3f) as u32, st.palette[reg]), end + 1)
        } else if end < data.len() {
            (st, end + 1)
        } else {
            (st, end)
        }
    } else if c == 0x24 {
        (ConsoleSixelState { cur_x: 0, ..st }, i + 1)
    } else if c == 0x2d {
        (ConsoleSixelState { cur_x: 0, cur_row: st.cur_row + 1, ..st }, i + 1)
    } else if is_data(c) {
        if st.current_color < 256 {
            (
                console_place(st, 1, (c - 0x3f) as u32, st.palette[st.current_color as int]),
                i + 1,
            )
        } else {
            (ConsoleSixelState { bad_index: true, ..st }, i + 1)
        }
    } else {
        (st, i + 1)
    }
}

/// Running the commands from position `i` on, starting in state `st`.
pub open spec fn console_run_from(data: Seq<u8>, i: int, st: ConsoleSixelState) -> ConsoleSixelState
    decreases data.len() + 1 - i,
{
    if i < 0 || i >= data.len() {
        st
    } else {
        let (st2, j) = console_step(data, i, st);
        if j <= i || j > data.len() + 1 {
            st
        } else {
            console_run_from(data, j, st2)
        }
    }
}

/// The decoder state after the whole payload.
pub open spec fn console_run(data: Seq<u8>) -> ConsoleSixelState {
    console_run_from(data, 0, console_sixel_initial())
}

/// The payload decodes without overflow or an out-of-range colour
/// register, and the grid extent is addressable.
pub open spec fn console_decodable(data: Seq<u8>) -> bool {
    let fin = console_run(data);
    &&& !fin.overflow
    &&& !fin.bad_index
    &&& fin.width <= usize::MAX
    &&& fin.height <= usize::MAX
}

pub proof fn lemma_console_step_advances(data: Seq<u8>, i: int, st: ConsoleSixelState)
    requires
        0 <= i < data.len(),
    ensures
        i < console_step(data, i, st).1 <= data.len() + 1,
{
    lemma_parse_acc_bounds(data, i + 1, Seq::empty(), 0, false);
}

/// The extent never shrinks and failures are never forgotten.
pub proof fn lemma_console_monotone(data: Seq<u8>, i: int, st: ConsoleSixelState)
    ensures
        console_run_from(data, i, st).width >= st.width,
        console_run_from(data, i, st).height >= st.height,
        st.overflow ==> console_run_from(data, i, st).overflow,
        st.bad_index ==> console_run_from(data, i, st).bad_index,
    decreases data.len() + 1 - i,
{
    if 0 <= i < data.len() {
        lemma_console_step_advances(data, i, st);
        let (st2, j) = console_step(data, i, st);
        lemma_console_monotone(data, j, st2);
    }
}

/// Decodes a Sixel payload into `(width, height, pixels)`, the pixels
/// row-major XRGB8888. The size is the extent the data columns reached;
/// `None` when it is empty. Undrawn pixels are opaque black.
pub fn decode_sixel(data: &[u8]) -> (res: Option<(usize, usize, Vec<u32>)>)
    requires
        console_decodable(data@),
    ensures
        ({
            let fin = console_run(data@);
            match res {
                None => fin.width == 0 || fin.height == 0,
                Some((w, h, pixels)) => {
                    &&& w == fin.width
                    &&& h == fin.height
                    &&& w > 0 && h > 0
                    &&& pixels@.len() == w * h
                    &&& forall|y: int, x: int|
                        0 <= y < h && 0 <= x < w ==> #[trigger] pixels@[y * w + x] == color_at(
                            fin.placements,
                            x,
                            y,
                            OPAQUE_BLACK,
                        )
                }
            }
        }),
{
    let mut palette: Vec<u32> = vec![
        0xFF000000, 0xFF3333CC, 0xFFCC3333, 0xFF33CC33, 0xFFCC33CC, 0xFF33CCCC, 0xFFCCCC33,
        0xFFCCCCCC, 0xFF333333, 0xFF3333FF, 0xFFFF3333, 0xFF33FF33, 0xFFFF33FF, 0xFF33FFFF,
        0xFFFFFF33, 0xFFFFFFFF,
    ];
    while palette.len() < 256
        invariant
            16 <= palette@.len() <= 256,
            forall|k: int| 0 <= k < 16 ==> #[trigger] palette@[k] == console_palette_spec()[k],
            forall|k: int| 16 <= k < palette@.len() ==> #[trigger] palette@[k] == 0xFF00_0000u32,
        decreases 256 - palette@.len(),
    {
        palette.push(0xFF000000);
    }
    assert(palette@ =~= console_palette_spec());

    let mut current_color: usize = 0;
    let mut grid: Vec<Vec<u32>> = Vec::new();
    let mut grid_w: usize = 0;
    let mut grid_h: usize = 0;
    let mut cur_x: usize = 0;
    let mut cur_sixel_y: usize = 0;
    let ghost mut placements: Seq<Placement<u32>> = Seq::empty();
    let ghost fin = console_run(data@);

    let mut i: usize = 0;
    while i < data.len()
        invariant
            0 <= i <= data@.len() + 1,
            cur_sixel_y <= i,
            cur_x <= grid_w,
            palette@.len() == 256,
            fin == console_run(data@),
            console_decodable(data@),
            grid_matches(grid@, grid_w as nat, grid_h as nat, placements, OPAQUE_BLACK),
            within(placements, grid_w as nat, grid_h as nat),
            console_run_from(
                data@,
                i as int,
                ConsoleSixelState {
                    palette: palette@,
                    current_color: current_color as nat,
                    cur_x: cur_x as nat,
                    cur_row: cur_sixel_y as nat,
                    placements,
                    width: grid_w as nat,
                    height: grid_h as nat,
                    overflow: false,
                    bad_index: false,
                },
            ) == fin,
        decreases data@.len() + 1 - i,
    {
        let ghost st = ConsoleSixelState {
            palette: palette@,
            current_color: current_color as nat,
            cur_x: cur_x as nat,
            cur_row: cur_sixel_y as nat,
            placements,
            width: grid_w as nat,
            height: grid_h as nat,
            overflow: false,
            bad_index: false,
        };
        proof {
            lemma_console_step_advances(data@, i as int, st);
        }
        let ghost (st2, j) = console_step(data@, i as int, st);
        proof {
            lemma_console_monotone(data@, j, st2);
        }
        let c = data[i];
        let mut count: usize = 0;
        let mut bits: u32 = 0;
        let mut color: u32 = 0;
        if c == 0x23 {
            let (params, end) = parse_params(data, i + 1);
            if params.len() >= 5 {
                let reg = params[0] as usize;
                let r = params[2];
                let g = params[3];
                let b = params[4];
                let col = 0xFF000000u32 | ((r * 255 / 100) as u32) << 16 | ((g * 255 / 100) as u32)
                    << 8 | (b * 255 / 100) as u32;
                if reg < palette.len() {
                    palette.set(reg, col);
                }
                current_color = reg;
            } else if params.len() > 0 {
                current_color = params[0] as usize;
            } else {
                current_color = 0;
            }
            i = end;
        } else if c == 0x21 {
            let (params, end) = parse_params(data, i + 1);
            let n: usize = if params.len() == 0 {
                1
            } else {
                params[0] as usize
            };
            i = end;
            if i < data.len() && 0x3f <= data[i] && data[i] <= 0x7e {
                count = n;
                bits = (data[i] - 0x3f) as u32;
                color = palette[if current_color < 255 {
                    current_color
                } else {
                    255
                }];
            }
            if i < data.len() {
                i = i + 1;
            }
        } else if c == 0x24 {
            cur_x = 0;
            i = i + 1;
        } else if c == 0x2d {
            cur_x = 0;
            cur_sixel_y = cur_sixel_y + 1;
            i = i + 1;
        } else if 0x3f <= c && c <= 0x7e {
            count = 1;
            bits = (c - 0x3f) as u32;
            color = palette[current_color];
            i = i + 1;
        } else {
            i = i + 1;
        }
        // Draw the `count` columns that the command placed.
        let ghost ps0 = placements;
        let ghost x0 = cur_x as nat;
        let ghost w0 = grid_w as nat;
        let ghost h0 = grid_h as nat;
        let mut k: usize = 0;
        while k < count
            invariant
                0 <= k <= count,
                cur_x == x0 + k,
                count == 0 || st2 == console_place(st, count as nat, bits, color),
                count == 0 || x0 == st.cur_x,
                count == 0 || cur_sixel_y == st.cur_row,
                x0 + count <= fin.width || count == 0,
                (cur_sixel_y + 1) * 6 <= fin.height || count == 0,
                fin.width <= usize::MAX,
                fin.height <= usize::MAX,
                placements == place_run(ps0, x0, cur_sixel_y as nat, k as nat, bits, color),
                grid_w == if k > 0 && x0 + k > w0 {
                    (x0 + k) as nat
                } else {
                    w0
                },
                grid_h == if k > 0 && (cur_sixel_y + 1) * 6 > h0 {
                    ((cur_sixel_y + 1) * 6) as nat
                } else {
                    h0
                },
                grid_matches(grid@, grid_w as nat, grid_h as nat, placements, OPAQUE_BLACK),
                within(placements, grid_w as nat, grid_h as nat),
            decreases count - k,
        {
            let ghost w_before = grid_w as nat;
            let ghost h_before = grid_h as nat;
            ensure_grid_size(
                &mut grid,
                &mut grid_w,
                &mut grid_h,
                cur_x + 1,
                (cur_sixel_y + 1) * 6,
                0xFF000000u32,
            );
            write_sixel_column(&mut grid, grid_w, cur_x, cur_sixel_y, bits, color);
            let ghost p = Placement { x: cur_x as nat, row: cur_sixel_y as nat, bits, color };
            proof {
                let old_ps = placements;
                assert forall|y: int, x: int|
                    0 <= y < grid_h && 0 <= x < grid_w implies (#[trigger] grid@[y]@[x])
                    == color_at(old_ps.push(p), x, y, OPAQUE_BLACK) by {
                    lemma_color_push(old_ps, p, x, y, OPAQUE_BLACK);
                    if !(y < h_before && x < w_before) {
                        lemma_color_outside(old_ps, w_before, h_before, x, y, OPAQUE_BLACK);
                    }
                }
                placements = old_ps.push(p);
                assert(placements =~= place_run(
                    ps0,
                    x0,
                    cur_sixel_y as nat,
                    (k + 1) as nat,
                    bits,
                    color,
                ));
                lemma_within_push(old_ps, p, w_before, h_before, grid_w as nat, grid_h as nat);
            }
            cur_x = cur_x + 1;
            k = k + 1;
        }
        proof {
            let st_new = ConsoleSixelState {
                palette: palette@,
                current_color: current_color as nat,
                cur_x: cur_x as nat,
                cur_row: cur_sixel_y as nat,
                placements,
                width: grid_w as nat,
                height: grid_h as nat,
                overflow: false,
                bad_index: false,
            };
            assert(st_new =~= st2);
        }
    }
    let ghost st_fin = ConsoleSixelState {
        palette: palette@,
        current_color: current_color as nat,
        cur_x: cur_x as nat,
        cur_row: cur_sixel_y as nat,
        placements,
        width: grid_w as nat,
        height: grid_h as nat,
        overflow: false,
        bad_index: false,
    };
    assert(st_fin == fin);
    let height = grid.len();
    if grid_w == 0 || height == 0 {
        return None;
    }
    let mut pixels: Vec<u32> = Vec::new();
    let mut y: usize = 0;
    while y < height
        invariant
            0 <= y <= height,
            height == grid_h,
            grid_w > 0,
            pixels@.len() == y * grid_w,
            grid_matches(grid@, grid_w as nat, grid_h as nat, placements, OPAQUE_BLACK),
            forall|yy: int, xx: int|
                0 <= yy < y && 0 <= xx < grid_w ==> #[trigger] pixels@[yy * grid_w + xx]
                    == color_at(placements, xx, yy, OPAQUE_BLACK),
        decreases height - y,
    {
        let mut x: usize = 0;
        while x < grid_w
            invariant
                0 <= x <= grid_w,
                0 <= y < height,
                height == grid_h,
                pixels@.len() == y * grid_w + x,
                grid_matches(grid@, grid_w as nat, grid_h as nat, placements, OPAQUE_BLACK),
                forall|yy: int, xx: int|
                    0 <= yy < y && 0 <= xx < grid_w ==> #[trigger] pixels@[yy * grid_w + xx]
                        == color_at(placements, xx, yy, OPAQUE_BLACK),
                forall|xx: int|
                    0 <= xx < x ==> #[trigger] pixels@[y * grid_w + xx] == color_at(
                        placements,
                        xx,
                        y as int,
                        OPAQUE_BLACK,
                    ),
            decreases grid_w - x,
        {
            let ghost before = pixels@;
            let px = grid[y][x];
            assert(px == grid@[y as int]@[x as int]);
            pixels.push(px);
            proof {
                assert forall|yy: int, xx: int|
                    0 <= yy < y && 0 <= xx < grid_w implies #[trigger] pixels@[yy * grid_w + xx]
                        == color_at(placements, xx, yy, OPAQUE_BLACK) by {
                    crate::sixel::lemma_row_index_bound(yy, xx, y as int, grid_w as int);
                    assert(pixels@[yy * grid_w + xx] == before[yy * grid_w + xx]);
                }
                assert forall|xx: int| 0 <= xx < x + 1 implies #[trigger] pixels@[y * grid_w + xx]
                    == color_at(placements, xx, y as int, OPAQUE_BLACK) by {
                    if xx < x {
                        assert(pixels@[y * grid_w + xx] == before[y * grid_w + xx]);
                    }
                }
            }
            x = x + 1;
        }
        proof {
            assert(pixels@.len() == (y + 1) * grid_w) by (nonlinear_arith)
                requires
                    pixels@.len() == y * grid_w + grid_w,
            ;
        }
        y = y + 1;
    }
    proof {
        assert(height * grid_w == grid_w * height) by (nonlinear_arith);
    }
    Some((grid_w, height, pixels))
}

/// The extent `(width, height)` of the image in a Sixel payload, when the
/// payload is one [`decode_sixel`] accepts; `None` when decoding it would
/// overflow or use a colour register past the palette. Nothing is drawn.
pub fn console_sixel_extent(data: &[u8]) -> (r: Option<(usize, usize)>)
    ensures
        r is Some <==> console_decodable(data@),
        r is Some ==> r->Some_0.0 == console_run(data@).width && r->Some_0.1 == console_run(data@).height,
{
    let ghost fin = console_run(data@);
    let ghost mut st = console_sixel_initial();
    let mut current_color: u32 = 0;
    let mut cur_x: usize = 0;
    let mut cur_row: usize = 0;
    let mut width: usize = 0;
    let mut height: usize = 0;
    let mut i: usize = 0;
    while i < data.len()
        invariant
            0 <= i <= data@.len() + 1,
            cur_row <= i,
            cur_x <= width,
            fin == console_run(data@),
            console_run_from(data@, i as int, st) == fin,
            st.current_color == current_color as nat,
            st.cur_x == cur_x as nat,
            st.cur_row == cur_row as nat,
            st.width == width as nat,
            st.height == height as nat,
            !st.overflow,
            !st.bad_index,
        decreases data@.len() + 1 - i,
    {
        proof {
            lemma_console_step_advances(data@, i as int, st);
        }
        let ghost step = console_step(data@, i as int, st);
        let c = data[i];
        if c == 0x23 {
            let (params, end) = parse_params(data, i + 1);
            if params.len() >= 5 {
                if params[2] > 16843009 || params[3] > 16843009 || params[4] > 16843009 {
                    proof {
                        lemma_console_monotone(data@, step.1, step.0);
                    }
                    return None;
                }
                current_color = params[0];
            } else if params.len() > 0 {
                current_color = params[0];
            } else {
                current_color = 0;
            }
            i = end;
        } else if c == 0x21 {
            let (params, end) = parse_params(data, i + 1);
            let count: usize = if params.len() == 0 {
                1
            } else {
                params[0] as usize
            };
            if end < data.len() && 0x3f <= data[end] && data[end] <= 0x7e {
                if count > 0 {
                    let nx = match cur_x.checked_add(count) {
                        Some(nx) => nx,
                        None => {
                            proof {
                                lemma_console_monotone(data@, step.1, step.0);
                            }
                            return None;
                        },
                    };
                    let nh = match (cur_row + 1).checked_mul(6) {
                        Some(nh) => nh,
                        None => {
                            proof {
                                lemma_console_monotone(data@, step.1, step.0);
                            }
                            return None;
                        },
                    };
                    if nx > width {
                        width = nx;
                    }
                    if nh > height {
                        height = nh;
                    }
                    cur_x = nx;
                }
                i = end + 1;
            } else if end < data.len() {
                i = end + 1;
            } else {
                i = end;
            }
        } else if c == 0x24 {
            cur_x = 0;
            i = i + 1;
        } else if c == 0x2d {
            cur_x = 0;
            cur_row = cur_row + 1;
            i = i + 1;
        } else if 0x3f <= c && c <= 0x7e {
            if current_color >= 256 {
                proof {
                    lemma_console_monotone(data@, step.1, step.0);
                }
                return None;
            }
            let nx = match cur_x.checked_add(1) {
                Some(nx) => nx,
                None => {
                    proof {
                        lemma_console_monotone(data@, step.1, step.0);
                    }
                    return None;
                },
            };
            let nh = match (cur_row + 1).checked_mul(6) {
                Some(nh) => nh,
                None => {
                    proof {
                        lemma_console_monotone(data@, step.1, step.0);
                    }
                    return None;
                },
            };
            if nx > width {
                width = nx;
            }
            if nh > height {
                height = nh;
            }
            cur_x = nx;
            i = i + 1;
        } else {
            i = i + 1;
        }
        proof {
            st = step.0;
        }
        assert(i as int == step.1);
    }
    Some((width, height))
}

/// The XRGB8888 word of the channels `r`, `g`, `b`.
pub open spec fn rgb_word(r: u8, g: u8, b: u8) -> u32 {
    0xFF00_0000u32 | ((r as u32) << 16u32) | ((g as u32) << 8u32) | (b as u32)
}

/// The XRGB8888 word of a pixel.
pub open spec fn pixel_word(p: Pixel) -> u32 {
    rgb_word(p.red, p.green, p.blue)
}

/// Placements with each colour turned into its XRGB8888 word.
pub open spec fn placements_as_words(ps: Seq<Placement<Pixel>>) -> Seq<Placement<u32>> {
    Seq::new(
        ps.len(),
        |k: int| Placement { x: ps[k].x, row: ps[k].row, bits: ps[k].bits, color: pixel_word(ps[k].color) },
    )
}

/// Where the command at position `i` ends; both decoders read the commands
/// of a payload alike.
pub open spec fn command_end(d: Seq<u8>, i: int) -> int {
    let c = d[i];
    if c == 0x22 || c == 0x23 {
        parse_params_spec(d, i + 1).1
    } else if c == 0x21 {
        let end = parse_params_spec(d, i + 1).1;
        if end < d.len() {
            end + 1
        } else {
            end
        }
    } else {
        i + 1
    }
}

/// A colour command both decoders treat alike: it selects one of the
/// sixteen registers the VT-330 palette has, and a colour it defines has
/// channels of at most 100 percent.
pub open spec fn color_params_in_common(params: Seq<u32>) -> bool {
    &&& params.len() > 0 ==> params[0] < 16
    &&& params.len() >= 5 ==> params[2] <= 100 && params[3] <= 100 && params[4] <= 100
}

/// The commands from position `i` on hold no raster attributes and only
/// colour commands both decoders treat alike.
pub open spec fn commands_in_common(d: Seq<u8>, i: int) -> bool
    decreases d.len() - i,
{
    if i < 0 || i >= d.len() {
        true
    } else {
        &&& d[i] != 0x22
        &&& d[i] == 0x23 ==> color_params_in_common(parse_params_spec(d, i + 1).0)
        &&& if i < command_end(d, i) <= d.len() {
            commands_in_common(d, command_end(d, i))
        } else {
            true
        }
    }
}

/// The two decoder states describe the same image.
pub open spec fn states_correspond(ss: SixelState, cs: ConsoleSixelState) -> bool {
    &&& ss.raster is None
    &&& ss.current_color < 16
    &&& cs.current_color == ss.current_color
    &&& cs.cur_x == ss.cur_x
    &&& cs.cur_row == ss.cur_row
    &&& cs.width == ss.width
    &&& cs.height == ss.height
    &&& cs.overflow == ss.overflow
    &&& !cs.bad_index
    &&& ss.palette.len() == 16
    &&& cs.palette.len() == 256
    &&& forall|k: int| 0 <= k < 16 ==> #[trigger] cs.palette[k] == pixel_word(ss.palette[k])
    &&& cs.placements == placements_as_words(ss.placements)
}

proof fn lemma_default_palette_words()
    by (bit_vector)
    ensures
        rgb_word(0, 0, 0) == 0xFF000000u32,
        rgb_word(51, 51, 204) == 0xFF3333CCu32,
        rgb_word(204, 51, 51) == 0xFFCC3333u32,
        rgb_word(51, 204, 51) == 0xFF33CC33u32,
        rgb_word(204, 51, 204) == 0xFFCC33CCu32,
        rgb_word(51, 204, 204) == 0xFF33CCCCu32,
        rgb_word(204, 204, 51) == 0xFFCCCC33u32,
        rgb_word(204, 204, 204) == 0xFFCCCCCCu32,
        rgb_word(51, 51, 51) == 0xFF333333u32,
        rgb_word(51, 51, 255) == 0xFF3333FFu32,
        rgb_word(255, 51, 51) == 0xFFFF3333u32,
        rgb_word(51, 255, 51) == 0xFF33FF33u32,
        rgb_word(255, 51, 255) == 0xFFFF33FFu32,
        rgb_word(51, 255, 255) == 0xFF33FFFFu32,
        rgb_word(255, 255, 51) == 0xFFFFFF33u32,
        rgb_word(255, 255, 255) == 0xFFFFFFFFu32,
{
}

proof fn lemma_initial_states_correspond()
    ensures
        states_correspond(sixel_initial(), console_sixel_initial()),
{
    lemma_default_palette_words();
    let ss = sixel_initial();
    let cs = console_sixel_initial();
    assert(placements_as_words(ss.placements) =~= cs.placements);
    assert forall|k: int| 0 <= k < 16 implies #[trigger] cs.palette[k] == pixel_word(ss.palette[k]) by {
        assert(cs.palette[k] == console_palette_spec()[k]);
    }
}

/// A channel of at most 100 percent scales alike in both decoders.
proof fn lemma_channel_in_common(v: u32)
    requires
        v <= 100,
    ensures
        channel(v) == scale_channel(v) as u32,
        channel_overflows(v) == scale_overflows(v),
{
    assert(v * 255 / 100 <= 255) by (nonlinear_arith)
        requires
            v <= 100,
    ;
}

/// Placing a run keeps the placements corresponding.
proof fn lemma_place_run_words(ps: Seq<Placement<Pixel>>, x: nat, row: nat, count: nat, bits: u32, color: Pixel)
    ensures
        place_run(placements_as_words(ps), x, row, count, bits, pixel_word(color)) == placements_as_words(
            place_run(ps, x, row, count, bits, color),
        ),
{
    assert(place_run(placements_as_words(ps), x, row, count, bits, pixel_word(color)) =~= placements_as_words(
        place_run(ps, x, row, count, bits, color),
    ));
}

/// One command keeps the states corresponding.
proof fn lemma_step_corresponds(d: Seq<u8>, i: int, ss: SixelState, cs: ConsoleSixelState)
    requires
        0 <= i < d.len(),
        states_correspond(ss, cs),
        d[i] != 0x22,
        d[i] == 0x23 ==> color_params_in_common(parse_params_spec(d, i + 1).0),
    ensures
        sixel_step(d, i, ss).1 == command_end(d, i),
        console_step(d, i, cs).1 == command_end(d, i),
        states_correspond(sixel_step(d, i, ss).0, console_step(d, i, cs).0),
{
    let c = d[i];
    let (params, end) = parse_params_spec(d, i + 1);
    if c == 0x23 {
        let s2 = sixel_color_cmd(ss, params);
        let c2 = console_color_cmd(cs, params);
        if params.len() >= 5 {
            lemma_channel_in_common(params[2]);
            lemma_channel_in_common(params[3]);
            lemma_channel_in_common(params[4]);
            let p0 = params[0] as int;
            assert(p0 % 16 == p0);
            assert forall|k: int| 0 <= k < 16 implies #[trigger] c2.palette[k] == pixel_word(s2.palette[k]) by {
                if k != p0 {
                    assert(c2.palette[k] == cs.palette[k]);
                    assert(s2.palette[k] == ss.palette[k]);
                }
            }
        }
    } else if c == 0x21 {
        let count: nat = if params.len() == 0 {
            1
        } else {
            params[0] as nat
        };
        if end < d.len() && is_data(d[end]) {
            let color = ss.palette[(ss.current_color % 16) as int];
            assert((ss.current_color % 16) as int == ss.current_color as int);
            lemma_place_run_words(ss.placements, ss.cur_x, ss.cur_row, count, (d[end] - 0x3f) as u32, color);
        }
    } else if is_data(c) && c != 0x24 && c != 0x2d {
        let color = ss.palette[(ss.current_color % 16) as int];
        assert((ss.current_color % 16) as int == ss.current_color as int);
        lemma_place_run_words(ss.placements, ss.cur_x, ss.cur_row, 1, (c - 0x3f) as u32, color);
    }
}

/// Running the rest of the commands keeps the states corresponding.
proof fn lemma_run_corresponds(d: Seq<u8>, i: int, ss: SixelState, cs: ConsoleSixelState)
    requires
        0 <= i,
        states_correspond(ss, cs),
        commands_in_common(d, i),
    ensures
        states_correspond(sixel_run_from(d, i, ss), console_run_from(d, i, cs)),
    decreases d.len() - i,
{
    if i < d.len() {
        lemma_sixel_step_advances(d, i, ss);
        lemma_console_step_advances(d, i, cs);
        lemma_step_corresponds(d, i, ss, cs);
        let j = command_end(d, i);
        lemma_run_corresponds(d, j, sixel_step(d, i, ss).0, console_step(d, i, cs).0);
    }
}

/// The colour of a pixel in corresponding placements.
proof fn lemma_color_at_words(ps: Seq<Placement<Pixel>>, x: int, y: int)
    ensures
        color_at(placements_as_words(ps), x, y, OPAQUE_BLACK) == pixel_word(color_at(ps, x, y, black())),
    decreases ps.len(),
{
    lemma_default_palette_words();
    if ps.len() > 0 {
        assert(placements_as_words(ps).drop_last() =~= placements_as_words(ps.drop_last()));
        lemma_color_at_words(ps.drop_last(), x, y);
    }
}

/// On Sixel data without raster attributes, whose colour commands select
/// registers 0 to 15 and define channels of at most 100 percent, the
/// console's decoder agrees with the VT-330 decoder: both accept the data
/// or neither does, the image has the same size, and each pixel of the
/// console's image is the XRGB8888 word of the VT-330 decoder's pixel.
pub proof fn lemma_decoders_agree(d: Seq<u8>)
    requires
        commands_in_common(d, 0),
    ensures
        console_decodable(d) == sixel_decodable(d),
        console_run(d).width == sixel_image_width(sixel_run(d)),
        console_run(d).height == sixel_image_height(sixel_run(d)),
        forall|x: int, y: int|
            color_at(console_run(d).placements, x, y, OPAQUE_BLACK) == pixel_word(
                #[trigger] color_at(sixel_run(d).placements, x, y, black()),
            ),
{
    lemma_initial_states_correspond();
    lemma_run_corresponds(d, 0, sixel_initial(), console_sixel_initial());
    assert forall|x: int, y: int|
        color_at(console_run(d).placements, x, y, OPAQUE_BLACK) == pixel_word(
            #[trigger] color_at(sixel_run(d).placements, x, y, black()),
        ) by {
        lemma_color_at_words(sixel_run(d).placements, x, y);
    }
}

} // verus!
