//! A Sixel (VT-330) image decoder producing RGB pixels.
//!
//! The payload between `DCS q` and `ST` is a stream of commands:
//! - `"P1;P2;P3;P4` sets the raster size (P3 = width, P4 = height);
//! - `#N` selects colour register N, `#N;Co;R;G;B` defines it (percentages);
//! - `!N<c>` repeats the sixel data character `c` N times;
//! - `$` returns to the start of the sixel row, `-` moves to the next one;
//! - `0x3f..=0x7e` place six vertical pixels (bit 0 is the topmost).

use vstd::prelude::*;

use crate::pixel::{black, Pixel};
use crate::sixel_grid::{
    color_at, ensure_grid_size, grid_matches, lemma_color_outside, lemma_color_push, lemma_within_push,
    lemma_parse_acc_bounds, parse_params, parse_params_spec, place_run, within, write_sixel_column,
    Placement,
};

verus! {

/// Maximum number of colour registers.
pub const MAX_REGISTERS: usize = 256;

/// A decoded Sixel image: `pixels[y * width + x]` is the pixel at `(x, y)`.
pub struct SixelImage {
    pub width: usize,
    pub height: usize,
    pub pixels: Vec<Pixel>,
}

/// The 16-colour VT-330 default palette.
pub open spec fn default_palette_spec() -> Seq<Pixel> {
    seq![
        Pixel { red: 0, green: 0, blue: 0 },
        Pixel { red: 51, green: 51, blue: 204 },
        Pixel { red: 204, green: 51, blue: 51 },
        Pixel { red: 51, green: 204, blue: 51 },
        Pixel { red: 204, green: 51, blue: 204 },
        Pixel { red: 51, green: 204, blue: 204 },
        Pixel { red: 204, green: 204, blue: 51 },
        Pixel { red: 204, green: 204, blue: 204 },
        Pixel { red: 51, green: 51, blue: 51 },
        Pixel { red: 51, green: 51, blue: 255 },
        Pixel { red: 255, green: 51, blue: 51 },
        Pixel { red: 51, green: 255, blue: 51 },
        Pixel { red: 255, green: 51, blue: 255 },
        Pixel { red: 51, green: 255, blue: 255 },
        Pixel { red: 255, green: 255, blue: 51 },
        Pixel { red: 255, green: 255, blue: 255 },
    ]
}

/// Returns the VT-330 default palette.
pub fn default_palette() -> (p: [Pixel; 16])
    ensures
        p@ == default_palette_spec(),
{
    let p = [
        Pixel { red: 0, green: 0, blue: 0 },
        Pixel { red: 51, green: 51, blue: 204 },
        Pixel { red: 204, green: 51, blue: 51 },
        Pixel { red: 51, green: 204, blue: 51 },
        Pixel { red: 204, green: 51, blue: 204 },
        Pixel { red: 51, green: 204, blue: 204 },
        Pixel { red: 204, green: 204, blue: 51 },
        Pixel { red: 204, green: 204, blue: 204 },
        Pixel { red: 51, green: 51, blue: 51 },
        Pixel { red: 51, green: 51, blue: 255 },
        Pixel { red: 255, green: 51, blue: 51 },
        Pixel { red: 51, green: 255, blue: 51 },
        Pixel { red: 255, green: 51, blue: 255 },
        Pixel { red: 51, green: 255, blue: 255 },
        Pixel { red: 255, green: 255, blue: 51 },
        Pixel { red: 255, green: 255, blue: 255 },
    ];
    assert(p@ =~= default_palette_spec());
    p
}

/// Whether `c` is a sixel data character.
pub open spec fn is_sixel_data(c: u8) -> bool {
    0x3f <= c <= 0x7e
}

/// Whether `v * 255` does not fit in a `u32`.
pub open spec fn scale_overflows(v: u32) -> bool {
    v * 255 > u32::MAX
}

/// A colour percentage scaled to 0..=255 (truncated to 8 bits).
pub open spec fn scale_channel(v: u32) -> u8 {
    ((v * 255) / 100) as u8
}

/// The decoder state between two commands.
#[verifier::ext_equal]
pub struct SixelState {
    pub palette: Seq<Pixel>,
    pub current_color: u32,
    pub raster: Option<(u32, u32)>,
    pub cur_x: nat,
    pub cur_row: nat,
    pub placements: Seq<Placement<Pixel>>,
    /// Columns the grid has grown to.
    pub width: nat,
    /// Pixel rows the grid has grown to.
    pub height: nat,
    /// Whether a colour definition had a component too large to scale.
    pub overflow: bool,
}

pub open spec fn sixel_initial() -> SixelState {
    SixelState {
        palette: default_palette_spec(),
        current_color: 0,
        raster: None,
        cur_x: 0,
        cur_row: 0,
        placements: Seq::empty(),
        width: 0,
        height: 0,
        overflow: false,
    }
}

/// Placing `count` columns with pattern `bits` in the current colour.
pub open spec fn sixel_place(st: SixelState, count: nat, bits: u32) -> SixelState {
    SixelState {
        placements: place_run(
            st.placements,
            st.cur_x,
            st.cur_row,
            count,
            bits,
            st.palette[(st.current_color % 16) as int],
        ),
        cur_x: st.cur_x + count,
        width: if count > 0 && st.cur_x + count > st.width {
            st.cur_x + count
        } else {
            st.width
        },
        height: if count > 0 && (st.cur_row + 1) * 6 > st.height {
            (st.cur_row + 1) * 6
        } else {
            st.height
        },
        ..st
    }
}

/// The effect of a colour command with parameters `params`.
pub open spec fn sixel_color_cmd(st: SixelState, params: Seq<u32>) -> SixelState {
    if params.len() == 0 {
        SixelState { current_color: 0, ..st }
    } else if params.len() >= 5 {
        let ovf = st.overflow || scale_overflows(params[2]) || scale_overflows(params[3])
            || scale_overflows(params[4]);
        let pixel = Pixel {
            red: scale_channel(params[2]),
            green: scale_channel(params[3]),
            blue: scale_channel(params[4]),
        };
        if params[0] < MAX_REGISTERS {
            SixelState {
                palette: st.palette.update((params[0] % 16) as int, pixel),
                current_color: params[0],
                overflow: ovf,
                ..st
            }
        } else {
            SixelState { overflow: ovf, ..st }
        }
    } else {
        SixelState { current_color: params[0], ..st }
    }
}

/// One command at position `i`: the new state and where the next command starts.
pub open spec fn sixel_step(data: Seq<u8>, i: int, st: SixelState) -> (SixelState, int) {
    let c = data[i];
    if c == 0x22 {
        let (params, end) = parse_params_spec(data, i + 1);
        (
            if params.len() >= 4 {
                SixelState { raster: Some((params[2], params[3])), ..st }
            } else {
                st
            },
            end,
        )
    } else if c == 0x23 {
        let (params, end) = parse_params_spec(data, i + 1);
        (sixel_color_cmd(st, params), end)
    } else if c == 0x21 {
        let (params, end) = parse_params_spec(data, i + 1);
        let count: nat = if params.len() == 0 {
            1
        } else {
            params[0] as nat
        };
        if end < data.len() {
            if is_sixel_data(data[end]) {
                (sixel_place(st, count, (data[end] - 0x3f) as u32), end + 1)
            } else {
                (st, end + 1)
            }
        } else {
            (st, end)
        }
    } else if c == 0x24 {
        (SixelState { cur_x: 0, ..st }, i + 1)
    } else if c == 0x2d {
        (SixelState { cur_x: 0, cur_row: st.cur_row + 1, ..st }, i + 1)
    } else if is_sixel_data(c) {
        (sixel_place(st, 1, (c - 0x3f) as u32), i + 1)
    } else {
        (st, i + 1)
    }
}

/// Running the commands from position `i` on, starting in state `st`.
pub open spec fn sixel_run_from(data: Seq<u8>, i: int, st: SixelState) -> SixelState
    decreases data.len() - i,
{
    if i < 0 || i >= data.len() {
        st
    } else {
        let (st2, j) = sixel_step(data, i, st);
        if j <= i || j > data.len() {
            st
        } else {
            sixel_run_from(data, j, st2)
        }
    }
}

/// The decoder state after the whole payload.
pub open spec fn sixel_run(data: Seq<u8>) -> SixelState {
    sixel_run_from(data, 0, sixel_initial())
}

/// The image width: the raster width if given, else the grid width.
pub open spec fn sixel_image_width(st: SixelState) -> nat {
    match st.raster {
        Some(r) => r.0 as nat,
        None => st.width,
    }
}

/// The image height: the raster height if given, else the grid height.
pub open spec fn sixel_image_height(st: SixelState) -> nat {
    match st.raster {
        Some(r) => r.1 as nat,
        None => st.height,
    }
}

/// The payload can be decoded without an arithmetic overflow: no colour
/// component exceeds `u32::MAX / 255` and the grid extent is addressable.
pub open spec fn sixel_decodable(data: Seq<u8>) -> bool {
    let fin = sixel_run(data);
    &&& !fin.overflow
    &&& fin.width <= usize::MAX
    &&& fin.height <= usize::MAX
}

/// A step moves forward and stays within the data.
pub proof fn lemma_sixel_step_advances(data: Seq<u8>, i: int, st: SixelState)
    requires
        0 <= i < data.len(),
    ensures
        i < sixel_step(data, i, st).1 <= data.len(),
{
    lemma_parse_acc_bounds(data, i + 1, Seq::empty(), 0, false);
}

/// The grid extent never shrinks and an overflow is never forgotten.
pub proof fn lemma_sixel_monotone(data: Seq<u8>, i: int, st: SixelState)
    ensures
        sixel_run_from(data, i, st).width >= st.width,
        sixel_run_from(data, i, st).height >= st.height,
        st.overflow ==> sixel_run_from(data, i, st).overflow,
    decreases data.len() - i,
{
    if 0 <= i < data.len() {
        lemma_sixel_step_advances(data, i, st);
        let (st2, j) = sixel_step(data, i, st);
        lemma_sixel_monotone(data, j, st2);
    }
}

/// A repeat of `a + b` columns is a repeat of `a` columns followed by a
/// repeat of `b` columns of the same pattern: `!N<c>` draws what `N`
/// copies of `c` draw.
pub proof fn lemma_sixel_repeat_split(st: SixelState, a: nat, b: nat, bits: u32)
    ensures
        sixel_place(sixel_place(st, a, bits), b, bits) == sixel_place(st, a + b, bits),
{
    let s1 = sixel_place(st, a, bits);
    let color = st.palette[(st.current_color % 16) as int];
    assert(place_run(s1.placements, s1.cur_x, s1.cur_row, b, bits, color) =~= place_run(
        st.placements,
        st.cur_x,
        st.cur_row,
        a + b,
        bits,
        color,
    ));
    assert(sixel_place(sixel_place(st, a, bits), b, bits) =~= sixel_place(st, a + b, bits));
}

/// The state invariant: the palette has 16 entries and every placement
/// lies inside the grid extent.
pub open spec fn sixel_state_wf(st: SixelState) -> bool {
    &&& st.palette.len() == 16
    &&& within(st.placements, st.width, st.height)
}

/// Whether [`decode`] accepts `dcs_data`: no colour component too large to
/// scale and an addressable grid extent. Nothing is drawn.
pub fn decodable(dcs_data: &[u8]) -> (b: bool)
    ensures
        b == sixel_decodable(dcs_data@),
{
    let ghost fin = sixel_run(dcs_data@);
    let ghost mut st = sixel_initial();
    let mut cur_x: usize = 0;
    let mut cur_row: usize = 0;
    let mut width: usize = 0;
    let mut height: usize = 0;
    let mut i: usize = 0;
    while i < dcs_data.len()
        invariant
            0 <= i <= dcs_data@.len(),
            cur_row <= i,
            cur_x <= width,
            fin == sixel_run(dcs_data@),
            sixel_run_from(dcs_data@, i as int, st) == fin,
            st.cur_x == cur_x as nat,
            st.cur_row == cur_row as nat,
            st.width == width as nat,
            st.height == height as nat,
            !st.overflow,
        decreases dcs_data@.len() - i,
    {
        proof {
            lemma_sixel_step_advances(dcs_data@, i as int, st);
        }
        let ghost step = sixel_step(dcs_data@, i as int, st);
        let c = dcs_data[i];
        let mut count: usize = 0;
        if c == 0x22 {
            let (_params, end) = parse_params(dcs_data, i + 1);
            i = end;
        } else if c == 0x23 {
            let (params, end) = parse_params(dcs_data, i + 1);
            if params.len() >= 5 && (params[2] > 16843009 || params[3] > 16843009 || params[4]
                > 16843009) {
                proof {
                    lemma_sixel_monotone(dcs_data@, step.1, step.0);
                }
                return false;
            }
            i = end;
        } else if c == 0x21 {
            let (params, end) = parse_params(dcs_data, i + 1);
            if end < dcs_data.len() {
                if 0x3f <= dcs_data[end] && dcs_data[end] <= 0x7e {
                    count = if params.len() == 0 {
                        1
                    } else {
                        params[0] as usize
                    };
                }
                i = end + 1;
            } else {
                i = end;
            }
        } else if c == 0x24 {
            cur_x = 0;
            i = i + 1;
        } else if c == 0x2d {
            cur_x = 0;
            cur_row = cur_row + 1;
            i = i + 1;
        } else if 0x3f <= c && c <= 0x7e {
            count = 1;
            i = i + 1;
        } else {
            i = i + 1;
        }
        if count > 0 {
            let nx = match cur_x.checked_add(count) {
                Some(nx) => nx,
                None => {
                    proof {
                        lemma_sixel_monotone(dcs_data@, step.1, step.0);
                    }
                    return false;
                },
            };
            let nh = match (cur_row + 1).checked_mul(6) {
                Some(nh) => nh,
                None => {
                    proof {
                        lemma_sixel_monotone(dcs_data@, step.1, step.0);
                    }
                    return false;
                },
            };
            if nx > width {
                width = nx;
            }
            if nh > height {
                height = nh;
            }
            cur_x = nx;
        }
        proof {
            st = step.0;
        }
        assert(i as int == step.1);
    }
    true
}

/// Decodes a Sixel payload (the bytes between `DCS q` and `ST`).
///
/// Returns `None` when the image would be empty. The pixel at `(x, y)` has
/// the colour of the last sixel column that set it, or black.
pub fn decode(dcs_data: &[u8]) -> (res: Option<SixelImage>)
    requires
        sixel_decodable(dcs_data@),
    ensures
        ({
            let fin = sixel_run(dcs_data@);
            let w = sixel_image_width(fin);
            let h = sixel_image_height(fin);
            match res {
                None => w == 0 || h == 0,
                Some(img) => {
                    &&& img.width == w
                    &&& img.height == h
                    &&& w > 0 && h > 0
                    &&& img.pixels@.len() == w * h
                    &&& forall|y: int, x: int|
                        0 <= y < h && 0 <= x < w ==> #[trigger] img.pixels@[y * w + x]
                            == color_at(fin.placements, x, y, black())
                }
            }
        }),
{
    let mut palette = default_palette();
    let mut current_color: u32 = 0;
    let mut raster: Option<(usize, usize)> = None;
    let mut grid_pixels: Vec<Vec<Pixel>> = Vec::new();
    let mut grid_width: usize = 0;
    let mut grid_height: usize = 0;
    let mut cur_x: usize = 0;
    let mut cur_sixel_y: usize = 0;
    let ghost mut placements: Seq<Placement<Pixel>> = Seq::empty();
    let ghost mut raster_spec: Option<(u32, u32)> = None;
    let ghost fin = sixel_run(dcs_data@);
    let blk = Pixel { red: 0, green: 0, blue: 0 };

    let mut i: usize = 0;
    while i < dcs_data.len()
        invariant
            0 <= i <= dcs_data@.len(),
            cur_sixel_y <= i,
            cur_x <= grid_width,
            fin == sixel_run(dcs_data@),
            sixel_decodable(dcs_data@),
            blk == black(),
            raster == match raster_spec {
                Some(r) => Some((r.0 as usize, r.1 as usize)),
                None => None::<(usize, usize)>,
            },
            grid_matches(grid_pixels@, grid_width as nat, grid_height as nat, placements, black()),
            sixel_state_wf(
                SixelState {
                    palette: palette@,
                    current_color,
                    raster: raster_spec,
                    cur_x: cur_x as nat,
                    cur_row: cur_sixel_y as nat,
                    placements,
                    width: grid_width as nat,
                    height: grid_height as nat,
                    overflow: false,
                },
            ),
            sixel_run_from(
                dcs_data@,
                i as int,
                SixelState {
                    palette: palette@,
                    current_color,
                    raster: raster_spec,
                    cur_x: cur_x as nat,
                    cur_row: cur_sixel_y as nat,
                    placements,
                    width: grid_width as nat,
                    height: grid_height as nat,
                    overflow: false,
                },
            ) == fin,
        decreases dcs_data@.len() - i,
    {
        let ghost st = SixelState {
            palette: palette@,
            current_color,
            raster: raster_spec,
            cur_x: cur_x as nat,
            cur_row: cur_sixel_y as nat,
            placements,
            width: grid_width as nat,
            height: grid_height as nat,
            overflow: false,
        };
        proof {
            lemma_sixel_step_advances(dcs_data@, i as int, st);
        }
        let ghost (st2, j) = sixel_step(dcs_data@, i as int, st);
        proof {
            lemma_sixel_monotone(dcs_data@, j, st2);
        }
        let c = dcs_data[i];
        if c == 0x22 {
            let (params, end) = parse_params(dcs_data, i + 1);
            if params.len() >= 4 {
                raster = Some((params[2] as usize, params[3] as usize));
                proof {
                    raster_spec = Some((params@[2], params@[3]));
                }
            }
            i = end;
        } else if c == 0x23 {
            let (params, end) = parse_params(dcs_data, i + 1);
            if params.len() == 0 {
                current_color = 0;
            } else if params.len() >= 5 {
                let reg = params[0] as usize;
                let r = params[2];
                let g = params[3];
                let b = params[4];
                let pixel = Pixel {
                    red: (r * 255 / 100) as u8,
                    green: (g * 255 / 100) as u8,
                    blue: (b * 255 / 100) as u8,
                };
                if reg < MAX_REGISTERS {
                    palette[reg % 16] = pixel;
                    current_color = reg as u32;
                }
            } else {
                current_color = params[0];
            }
            i = end;
        } else if c == 0x21 {
            let (params, end) = parse_params(dcs_data, i + 1);
            let count: usize = if params.len() == 0 {
                1
            } else {
                params[0] as usize
            };
            i = end;
            if i < dcs_data.len() {
                let sixel_char = dcs_data[i];
                if 0x3f <= sixel_char && sixel_char <= 0x7e {
                    let bits = (sixel_char - 0x3f) as u32;
                    let pixel = palette[(current_color as usize) % 16];
                    let ghost ps0 = placements;
                    let ghost x0 = cur_x as nat;
                    let ghost w0 = grid_width as nat;
                    let ghost h0 = grid_height as nat;
                    let mut k: usize = 0;
                    while k < count
                        invariant
                            0 <= k <= count,
                            cur_x == x0 + k,
                            x0 + count <= fin.width,
                            (cur_sixel_y + 1) * 6 <= fin.height || count == 0,
                            fin.width <= usize::MAX,
                            fin.height <= usize::MAX,
                            blk == black(),
                            pixel == palette@[(current_color % 16) as int],
                            placements == place_run(ps0, x0, cur_sixel_y as nat, k as nat, bits, pixel),
                            grid_width == if k > 0 && x0 + k > w0 {
                                (x0 + k) as nat
                            } else {
                                w0
                            },
                            grid_height == if k > 0 && (cur_sixel_y + 1) * 6 > h0 {
                                ((cur_sixel_y + 1) * 6) as nat
                            } else {
                                h0
                            },
                            grid_matches(
                                grid_pixels@,
                                grid_width as nat,
                                grid_height as nat,
                                placements,
                                black(),
                            ),
                            within(placements, grid_width as nat, grid_height as nat),
                        decreases count - k,
                    {
                        let ghost g_before = grid_pixels@;
                        let ghost w_before = grid_width as nat;
                        let ghost h_before = grid_height as nat;
                        ensure_grid_size(
                            &mut grid_pixels,
                            &mut grid_width,
                            &mut grid_height,
                            cur_x + 1,
                            (cur_sixel_y + 1) * 6,
                            blk,
                        );
                        let ghost g_mid = grid_pixels@;
                        write_sixel_column(
                            &mut grid_pixels,
                            grid_width,
                            cur_x,
                            cur_sixel_y,
                            bits,
                            pixel,
                        );
                        let ghost p = Placement {
                            x: cur_x as nat,
                            row: cur_sixel_y as nat,
                            bits,
                            color: pixel,
                        };
                        proof {
                            let old_ps = placements;
                            assert forall|y: int, x: int|
                                0 <= y < grid_height && 0 <= x < grid_width implies (
                            #[trigger] grid_pixels@[y]@[x]) == color_at(
                                old_ps.push(p),
                                x,
                                y,
                                black(),
                            ) by {
                                lemma_color_push(old_ps, p, x, y, black());
                                if !(y < h_before && x < w_before) {
                                    lemma_color_outside(old_ps, w_before, h_before, x, y, black());
                                }
                            }
                            placements = old_ps.push(p);
                            assert(placements =~= place_run(
                                ps0,
                                x0,
                                cur_sixel_y as nat,
                                (k + 1) as nat,
                                bits,
                                pixel,
                            ));
                            lemma_within_push(old_ps, p, w_before, h_before, grid_width as nat, grid_height as nat);
                        }
                        cur_x = cur_x + 1;
                        k = k + 1;
                    }
                    proof {
                        assert(placements =~= st2.placements);
                    }
                }
                i = i + 1;
            }
        } else if c == 0x24 {
            cur_x = 0;
            i = i + 1;
        } else if c == 0x2d {
            cur_x = 0;
            cur_sixel_y = cur_sixel_y + 1;
            i = i + 1;
        } else if 0x3f <= c && c <= 0x7e {
            let bits = (c - 0x3f) as u32;
            let pixel = palette[(current_color as usize) % 16];
            let ghost g_before = grid_pixels@;
            let ghost w_before = grid_width as nat;
            let ghost h_before = grid_height as nat;
            ensure_grid_size(
                &mut grid_pixels,
                &mut grid_width,
                &mut grid_height,
                cur_x + 1,
                (cur_sixel_y + 1) * 6,
                blk,
            );
            write_sixel_column(&mut grid_pixels, grid_width, cur_x, cur_sixel_y, bits, pixel);
            let ghost p = Placement { x: cur_x as nat, row: cur_sixel_y as nat, bits, color: pixel };
            proof {
                let old_ps = placements;
                assert(within(old_ps, w_before, h_before));
                assert forall|y: int, x: int|
                    0 <= y < grid_height && 0 <= x < grid_width implies (
                #[trigger] grid_pixels@[y]@[x]) == color_at(old_ps.push(p), x, y, black()) by {
                    lemma_color_push(old_ps, p, x, y, black());
                    if !(y < h_before && x < w_before) {
                        lemma_color_outside(old_ps, w_before, h_before, x, y, black());
                    }
                }
                placements = old_ps.push(p);
                assert(placements =~= st2.placements);
                lemma_within_push(old_ps, p, w_before, h_before, grid_width as nat, grid_height as nat);
            }
            cur_x = cur_x + 1;
            i = i + 1;
        } else {
            i = i + 1;
        }
        proof {
            let st_new = SixelState {
                palette: palette@,
                current_color,
                raster: raster_spec,
                cur_x: cur_x as nat,
                cur_row: cur_sixel_y as nat,
                placements,
                width: grid_width as nat,
                height: grid_height as nat,
                overflow: false,
            };
            assert(st_new =~= st2);
        }
    }

    let width: usize = match raster {
        Some(r) => r.0,
        None => grid_width,
    };
    let height: usize = match raster {
        Some(r) => r.1,
        None => grid_height,
    };
    if width == 0 || height == 0 {
        return None;
    }
    let ghost st_fin = SixelState {
        palette: palette@,
        current_color,
        raster: raster_spec,
        cur_x: cur_x as nat,
        cur_row: cur_sixel_y as nat,
        placements,
        width: grid_width as nat,
        height: grid_height as nat,
        overflow: false,
    };
    assert(st_fin == fin);
    let mut flat_pixels: Vec<Pixel> = Vec::new();
    let mut y: usize = 0;
    while y < height
        invariant
            0 <= y <= height,
            width > 0,
            blk == black(),
            flat_pixels@.len() == y * width,
            grid_matches(grid_pixels@, grid_width as nat, grid_height as nat, placements, black()),
            within(placements, grid_width as nat, grid_height as nat),
            forall|yy: int, xx: int|
                0 <= yy < y && 0 <= xx < width ==> #[trigger] flat_pixels@[yy * width + xx]
                    == color_at(placements, xx, yy, black()),
        decreases height - y,
    {
        let mut x: usize = 0;
        while x < width
            invariant
                0 <= x <= width,
                0 <= y < height,
                blk == black(),
                flat_pixels@.len() == y * width + x,
                grid_matches(grid_pixels@, grid_width as nat, grid_height as nat, placements, black()),
                within(placements, grid_width as nat, grid_height as nat),
                forall|yy: int, xx: int|
                    0 <= yy < y && 0 <= xx < width ==> #[trigger] flat_pixels@[yy * width + xx]
                        == color_at(placements, xx, yy, black()),
                forall|xx: int|
                    0 <= xx < x ==> #[trigger] flat_pixels@[y * width + xx] == color_at(
                        placements,
                        xx,
                        y as int,
                        black(),
                    ),
            decreases width - x,
        {
            let ghost before = flat_pixels@;
            let ghost v = color_at(placements, x as int, y as int, black());
            if y < grid_height && x < grid_width {
                let px = grid_pixels[y][x];
                assert(px == grid_pixels@[y as int]@[x as int]);
                assert(px == v);
                flat_pixels.push(px);
            } else {
                proof {
                    lemma_color_outside(
                        placements,
                        grid_width as nat,
                        grid_height as nat,
                        x as int,
                        y as int,
                        black(),
                    );
                }
                flat_pixels.push(blk);
            }
            proof {
                assert(flat_pixels@ == before.push(v));
                assert(flat_pixels@[y * width + x] == v);
                assert forall|yy: int, xx: int|
                    0 <= yy < y && 0 <= xx < width implies #[trigger] flat_pixels@[yy * width + xx]
                        == color_at(placements, xx, yy, black()) by {
                    lemma_row_index_bound(yy, xx, y as int, width as int);
                    assert(flat_pixels@[yy * width + xx] == before[yy * width + xx]);
                }
                assert forall|xx: int| 0 <= xx < x + 1 implies #[trigger] flat_pixels@[y * width
                    + xx] == color_at(placements, xx, y as int, black()) by {
                    if xx < x {
                        assert(flat_pixels@[y * width + xx] == before[y * width + xx]);
                    }
                }
            }
            x = x + 1;
        }
        proof {
            assert(flat_pixels@.len() == (y + 1) * width) by (nonlinear_arith)
                requires
                    flat_pixels@.len() == y * width + width,
            ;
        }
        y = y + 1;
    }
    proof {
        assert(height * width == width * height) by (nonlinear_arith);
        assert(sixel_image_width(fin) == width);
        assert(sixel_image_height(fin) == height);
    }
    Some(SixelImage { width, height, pixels: flat_pixels })
}

/// Row-major indexing: an index in an earlier row is below the row start.
pub proof fn lemma_row_index_bound(yy: int, xx: int, y: int, w: int)
    requires
        0 <= yy < y,
        0 <= xx < w,
    ensures
        yy * w + xx < y * w,
        0 <= yy * w + xx,
{
    assert(yy * w + xx < y * w) by (nonlinear_arith)
        requires
            0 <= yy < y,
            0 <= xx < w,
    ;
    assert(0 <= yy * w + xx) by (nonlinear_arith)
        requires
            0 <= yy,
            0 <= xx,
            0 <= w,
    ;
}

} // verus!
