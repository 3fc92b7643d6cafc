//! The boot framebuffer console: 8x8 text cells on an XRGB8888 surface,
//! ANSI SGR foreground colours, and inline Sixel images in DCS sequences.
//!
//! The surface is held as rows of pixels; whoever owns the real scanout
//! buffer copies it out and performs the flushes this console requests.

use vstd::prelude::*;
use vstd::string::StringSliceAdditionalSpecFns;

use crate::fb_console_sixel::{
    console_decodable, console_run, console_sixel_extent, decode_sixel, OPAQUE_BLACK,
};
use crate::sixel_grid::{color_at, is_digit, sat_digit, Placement};

verus! {

/// Width of a character cell in pixels.
pub const CHAR_W: usize = 8;

/// Height of a character cell in pixels.
pub const CHAR_H: usize = 8;

/// Text columns.
pub const COLS: usize = 80;

/// Text rows.
pub const ROWS: usize = 60;

/// Background colour.
pub const BG_COLOR: u32 = 0xFF28_2C34;

/// Default foreground colour.
pub const FG_COLOR: u32 = 0xFFDC_DFE4;

/// Accent colour used by banners.
pub const ACCENT_COLOR: u32 = 0xFF61_AFEF;

/// Capacity of the DCS payload buffer.
pub const DCS_CAPACITY: usize = 4096;

/// The foreground colour an SGR code selects, if it selects one.
pub open spec fn sgr_color(code: u32) -> Option<u32> {
    if code == 0 || code == 39 {
        Some(FG_COLOR)
    } else if code == 30 {
        Some(0xFF28_2C34u32)
    } else if code == 31 {
        Some(0xFFE0_6C75u32)
    } else if code == 32 {
        Some(0xFF98_C379u32)
    } else if code == 33 {
        Some(0xFFE5_C07Bu32)
    } else if code == 34 {
        Some(0xFF61_AFEFu32)
    } else if code == 35 {
        Some(0xFFC6_78DDu32)
    } else if code == 36 {
        Some(0xFF56_B6C2u32)
    } else if code == 37 {
        Some(0xFFDC_DFE4u32)
    } else if code == 90 {
        Some(0xFF5A_6374u32)
    } else if code == 91 {
        Some(0xFFE0_6C75u32)
    } else if code == 92 {
        Some(0xFF98_C379u32)
    } else if code == 93 {
        Some(0xFFE5_C07Bu32)
    } else if code == 94 {
        Some(0xFF61_AFEFu32)
    } else if code == 95 {
        Some(0xFFC6_78DDu32)
    } else if code == 96 {
        Some(0xFF56_B6C2u32)
    } else if code == 97 {
        Some(0xFFDC_DFE4u32)
    } else {
        None
    }
}

/// The foreground after applying SGR code `code` to foreground `fg`.
pub open spec fn apply_sgr_spec(fg: u32, code: u32) -> u32 {
    match sgr_color(code) {
        Some(c) => c,
        None => fg,
    }
}

/// Applies one SGR code: the standard and bright colours 30-37 and 90-97,
/// and the resets 0 and 39. Other codes leave the foreground unchanged.
pub fn apply_sgr(fg: u32, code: u32) -> (r: u32)
    ensures
        r == apply_sgr_spec(fg, code),
{
    let color: Option<u32> = match code {
        0 => Some(FG_COLOR),
        30 => Some(0xFF282C34),
        31 => Some(0xFFE06C75),
        32 => Some(0xFF98C379),
        33 => Some(0xFFE5C07B),
        34 => Some(0xFF61AFEF),
        35 => Some(0xFFC678DD),
        36 => Some(0xFF56B6C2),
        37 => Some(0xFFDCDFE4),
        39 => Some(FG_COLOR),
        90 => Some(0xFF5A6374),
        91 => Some(0xFFE06C75),
        92 => Some(0xFF98C379),
        93 => Some(0xFFE5C07B),
        94 => Some(0xFF61AFEF),
        95 => Some(0xFFC678DD),
        96 => Some(0xFF56B6C2),
        97 => Some(0xFFDCDFE4),
        _ => None,
    };
    match color {
        Some(c) => c,
        None => fg,
    }
}

/// Whether bit `gx` (0 = leftmost) of a glyph row is set.
pub open spec fn glyph_on(bits: u8, gx: int) -> bool {
    (bits >> (gx as u8)) & 1u8 == 1u8
}

/// The glyph of `c` in a font of the 96 printable ASCII characters; blank
/// outside 0x20..0x80.
pub open spec fn font_glyph_spec(font: Seq<[u8; 8]>, c: u8) -> Seq<u8> {
    if 0x20 <= c < 0x80 {
        font[c - 0x20]@
    } else {
        Seq::new(8, |k: int| 0u8)
    }
}

/// The surface after drawing `glyph` in cell `(col, row)` with foreground
/// `fg`: set bits take `fg`, clear bits the background.
pub open spec fn draw_char_rows(
    rows: Seq<Seq<u32>>,
    glyph: Seq<u8>,
    col: nat,
    row: nat,
    fg: u32,
) -> Seq<Seq<u32>> {
    Seq::new(
        rows.len(),
        |y: int|
            if row * 8 <= y < row * 8 + 8 {
                Seq::new(
                    rows[y].len(),
                    |x: int|
                        if col * 8 <= x < col * 8 + 8 {
                            if glyph_on(glyph[y - row * 8], x - col * 8) {
                                fg
                            } else {
                                BG_COLOR
                            }
                        } else {
                            rows[y][x]
                        },
                )
            } else {
                rows[y]
            },
    )
}

/// The surface scrolled up by one text row, the freed rows in background.
pub open spec fn scroll_rows(rows: Seq<Seq<u32>>, w: nat) -> Seq<Seq<u32>> {
    Seq::new(
        rows.len(),
        |y: int|
            if y + 8 < rows.len() {
                rows[y + 8]
            } else {
                Seq::new(w, |x: int| BG_COLOR)
            },
    )
}

/// The surface with a decoded image drawn with its top-left corner at
/// `(x0, y0)`, clipped to the surface.
pub open spec fn blit_image(
    rows: Seq<Seq<u32>>,
    ps: Seq<Placement<u32>>,
    iw: nat,
    ih: nat,
    x0: nat,
    y0: nat,
) -> Seq<Seq<u32>> {
    Seq::new(
        rows.len(),
        |y: int|
            if y0 <= y < y0 + ih {
                Seq::new(
                    rows[y].len(),
                    |x: int|
                        if x0 <= x < x0 + iw {
                            color_at(ps, x - x0, y - y0, OPAQUE_BLACK)
                        } else {
                            rows[y][x]
                        },
                )
            } else {
                rows[y]
            },
    )
}

/// What the console is: its cursor, colour, DCS payload, surface and font.
#[verifier::ext_equal]
pub struct ConsoleView {
    pub col: nat,
    pub row: nat,
    pub fg: u32,
    pub dcs: Seq<u8>,
    pub surface: Option<Seq<Seq<u32>>>,
    pub width: nat,
    pub font: Seq<[u8; 8]>,
    /// A flush of the surface to the display is due.
    pub flush: bool,
    /// A step would overflow or index out of range.
    pub fault: bool,
}

/// Scrolling: the surface moves up one text row and the cursor goes to the
/// last row.
pub open spec fn scroll_view(v: ConsoleView) -> ConsoleView {
    ConsoleView {
        surface: match v.surface {
            Some(rows) => Some(scroll_rows(rows, v.width)),
            None => None,
        },
        row: (ROWS - 1) as nat,
        ..v
    }
}

/// Drawing `glyph` at cell `(col, row)`, if there is a surface.
pub open spec fn draw_view(v: ConsoleView, glyph: Seq<u8>, col: nat, row: nat, fg: u32) -> ConsoleView {
    ConsoleView {
        surface: match v.surface {
            Some(rows) => Some(draw_char_rows(rows, glyph, col, row, fg)),
            None => None,
        },
        ..v
    }
}

/// A printable byte at the cursor: drawn when the cursor is on screen, and
/// the cursor moves right (it does not wrap).
pub open spec fn put_printable(v: ConsoleView, byte: u8, color: u32) -> ConsoleView {
    let drawn = if v.col < COLS && v.row < ROWS {
        draw_view(v, font_glyph_spec(v.font, byte), v.col, v.row, color)
    } else {
        v
    };
    ConsoleView { col: v.col + 1, fault: v.fault || v.col + 1 > usize::MAX, ..drawn }
}

/// One byte of text in colour `color`: newline, carriage return, a
/// printable character, or a dot for anything else.
pub open spec fn write_byte_spec(v: ConsoleView, byte: u8, color: u32) -> ConsoleView {
    if byte == 0x0a {
        let v2 = ConsoleView { col: 0, row: v.row + 1, ..v };
        if v.row + 1 >= ROWS {
            scroll_view(v2)
        } else {
            v2
        }
    } else if byte == 0x0d {
        ConsoleView { col: 0, ..v }
    } else if 0x20 <= byte <= 0x7e {
        put_printable(v, byte, color)
    } else {
        put_printable(v, 0x2e, color)
    }
}

/// Rendering a Sixel payload at the cursor, then moving the cursor below
/// the image and to column 0.
pub open spec fn render_sixel_spec(v: ConsoleView, data: Seq<u8>) -> ConsoleView {
    let fin = console_run(data);
    if !console_decodable(data) {
        ConsoleView { fault: true, ..v }
    } else if fin.width == 0 || fin.height == 0 {
        v
    } else {
        let x0 = v.col * 8;
        let y0 = v.row * 8;
        let img_rows: nat = ((fin.height + 7) / 8) as nat;
        let faulty = v.fault || (v.surface is Some && x0 > usize::MAX) || fin.height + 8
            > usize::MAX;
        let v2 = ConsoleView {
            surface: match v.surface {
                Some(rows) => Some(blit_image(rows, fin.placements, fin.width, fin.height, x0, y0)),
                None => None,
            },
            row: v.row + img_rows,
            flush: true,
            fault: faulty,
            ..v
        };
        let v3 = if v.row + img_rows >= ROWS {
            scroll_view(v2)
        } else {
            v2
        };
        ConsoleView { col: 0, ..v3 }
    }
}

/// The states of the escape-sequence parser.
#[derive(PartialEq, Eq, Clone, Copy, Structural)]
pub enum AnsiState {
    Normal,
    /// After ESC.
    Escape,
    /// After ESC `[`.
    Csi,
    /// In the parameters of a CSI sequence.
    CsiParam,
    /// After ESC `P`, before the `q` command byte.
    DcsParam,
    /// Accumulating the DCS payload.
    DcsData,
    /// After ESC inside a DCS payload.
    DcsEsc,
}

/// The parser: its state, the first CSI parameter, whether it has digits,
/// and whether a `;` has closed it (the later parameters are read and not
/// kept: only the first selects the colour).
pub struct ParserState {
    pub state: AnsiState,
    pub param: u32,
    pub has_param: bool,
    pub closed: bool,
}

pub open spec fn parser_start() -> ParserState {
    ParserState { state: AnsiState::Normal, param: 0, has_param: false, closed: false }
}

/// One byte through the parser and the console.
pub open spec fn ansi_step(p: ParserState, v: ConsoleView, b: u8) -> (ParserState, ConsoleView) {
    match p.state {
        AnsiState::Normal => {
            if b == 0x1b {
                (ParserState { state: AnsiState::Escape, ..p }, v)
            } else {
                (p, write_byte_spec(v, b, v.fg))
            }
        },
        AnsiState::Escape => {
            if b == 0x5b {
                (ParserState { state: AnsiState::Csi, param: 0, has_param: false, closed: false }, v)
            } else if b == 0x50 {
                (ParserState { state: AnsiState::DcsParam, ..p }, ConsoleView { dcs: Seq::empty(), ..v })
            } else if b == 0x1b {
                (p, v)
            } else {
                (ParserState { state: AnsiState::Normal, ..p }, write_byte_spec(v, b, v.fg))
            }
        },
        AnsiState::DcsParam => {
            if b == 0x71 {
                (ParserState { state: AnsiState::DcsData, ..p }, v)
            } else if b == 0x1b {
                (ParserState { state: AnsiState::DcsEsc, ..p }, v)
            } else {
                (p, v)
            }
        },
        AnsiState::DcsData => {
            if b == 0x1b {
                (ParserState { state: AnsiState::DcsEsc, ..p }, v)
            } else if v.dcs.len() < DCS_CAPACITY {
                (p, ConsoleView { dcs: v.dcs.push(b), ..v })
            } else {
                (p, v)
            }
        },
        AnsiState::DcsEsc => {
            if b == 0x5c {
                (ParserState { state: AnsiState::Normal, ..p }, render_sixel_spec(v, v.dcs))
            } else if b == 0x1b {
                (p, v)
            } else if v.dcs.len() + 1 < DCS_CAPACITY {
                (
                    ParserState { state: AnsiState::DcsData, ..p },
                    ConsoleView { dcs: v.dcs.push(0x1b).push(b), ..v },
                )
            } else {
                (ParserState { state: AnsiState::DcsData, ..p }, v)
            }
        },
        AnsiState::Csi => {
            if is_digit(b) {
                (
                    ParserState {
                        state: AnsiState::CsiParam,
                        param: sat_digit(p.param, b),
                        has_param: true,
                        ..p
                    },
                    v,
                )
            } else if b == 0x6d {
                (
                    ParserState { state: AnsiState::Normal, ..p },
                    if !p.has_param {
                        ConsoleView { fg: FG_COLOR, ..v }
                    } else {
                        v
                    },
                )
            } else if b == 0x3b {
                (ParserState { state: AnsiState::CsiParam, closed: true, ..p }, v)
            } else {
                (ParserState { state: AnsiState::Normal, ..p }, v)
            }
        },
        AnsiState::CsiParam => {
            if is_digit(b) {
                if p.closed {
                    (p, v)
                } else {
                    (
                        ParserState {
                            state: AnsiState::CsiParam,
                            param: sat_digit(p.param, b),
                            has_param: true,
                            ..p
                        },
                        v,
                    )
                }
            } else if b == 0x3b {
                (ParserState { closed: true, ..p }, v)
            } else if b == 0x6d {
                (
                    ParserState { state: AnsiState::Normal, param: 0, has_param: false, closed: false },
                    ConsoleView { fg: apply_sgr_spec(v.fg, p.param), ..v },
                )
            } else {
                (ParserState { state: AnsiState::Normal, ..p }, v)
            }
        },
    }
}

/// The console after the bytes of `s` from position `i` on.
pub open spec fn print_from(s: Seq<u8>, i: int, p: ParserState, v: ConsoleView) -> ConsoleView
    decreases s.len() - i,
{
    if i < 0 || i >= s.len() {
        v
    } else {
        let (p2, v2) = ansi_step(p, v, s[i]);
        print_from(s, i + 1, p2, v2)
    }
}

/// The console after printing `s` with escape-sequence interpretation; the
/// parser starts afresh for every string.
pub open spec fn print_spec(v: ConsoleView, s: Seq<u8>) -> ConsoleView {
    print_from(s, 0, parser_start(), v)
}

/// The console after printing `s` byte by byte in colour `color`.
pub open spec fn print_color_from(v: ConsoleView, s: Seq<u8>, i: int, color: u32) -> ConsoleView
    decreases s.len() - i,
{
    if i < 0 || i >= s.len() {
        v
    } else {
        print_color_from(write_byte_spec(v, s[i], color), s, i + 1, color)
    }
}

/// Every state of a fault stays faulty.
pub proof fn lemma_print_from_fault(s: Seq<u8>, i: int, p: ParserState, v: ConsoleView)
    requires
        v.fault,
    ensures
        print_from(s, i, p, v).fault,
    decreases s.len() - i,
{
    if 0 <= i < s.len() {
        let (p2, v2) = ansi_step(p, v, s[i]);
        lemma_ansi_step_fault(p, v, s[i]);
        lemma_print_from_fault(s, i + 1, p2, v2);
    }
}

pub proof fn lemma_ansi_step_fault(p: ParserState, v: ConsoleView, b: u8)
    ensures
        v.fault ==> ansi_step(p, v, b).1.fault,
{
}

pub proof fn lemma_print_color_fault(v: ConsoleView, s: Seq<u8>, i: int, color: u32)
    requires
        v.fault,
    ensures
        print_color_from(v, s, i, color).fault,
    decreases s.len() - i,
{
    if 0 <= i < s.len() {
        lemma_print_color_fault(write_byte_spec(v, s[i], color), s, i + 1, color);
    }
}

/// The value of the decimal digits `n` as the parser accumulates it:
/// `current * 10 + digit` for each digit in turn, saturating at `u32::MAX`.
pub open spec fn decimal_value(n: Seq<u8>) -> u32
    decreases n.len(),
{
    if n.len() == 0 {
        0
    } else {
        sat_digit(decimal_value(n.drop_last()), n.last())
    }
}

/// Reading `s` on from position `i` reads the suffix of `s` that starts at
/// any `k <= i`, from position `i - k`.
pub proof fn lemma_print_from_suffix(s: Seq<u8>, k: int, i: int, p: ParserState, v: ConsoleView)
    requires
        0 <= k <= i,
        k <= s.len(),
    ensures
        print_from(s, i, p, v) == print_from(s.subrange(k, s.len() as int), i - k, p, v),
    decreases s.len() - i,
{
    if i < s.len() {
        let (p2, v2) = ansi_step(p, v, s[i]);
        assert(s.subrange(k, s.len() as int)[i - k] == s[i]);
        lemma_print_from_suffix(s, k, i + 1, p2, v2);
    }
}

/// The parser after the first parameter `n` of a CSI sequence: the digits
/// accumulate into its value, and the console is untouched.
proof fn lemma_csi_first_digits(s: Seq<u8>, start: int, n: Seq<u8>, j: int, v: ConsoleView)
    requires
        1 <= j <= n.len(),
        0 <= start,
        start + n.len() <= s.len(),
        s.subrange(start, start + n.len()) == n,
        forall|q: int| 0 <= q < n.len() ==> is_digit(#[trigger] n[q]),
    ensures
        print_from(
            s,
            start,
            ParserState { state: AnsiState::Csi, param: 0, has_param: false, closed: false },
            v,
        ) == print_from(
            s,
            start + j,
            ParserState {
                state: AnsiState::CsiParam,
                param: decimal_value(n.take(j)),
                has_param: true,
                closed: false,
            },
            v,
        ),
    decreases j,
{
    assert(s.subrange(start, start + n.len())[j - 1] == s[start + j - 1]);
    assert(is_digit(n[j - 1]));
    assert(n.take(j).drop_last() =~= n.take(j - 1));
    assert(n.take(j).last() == n[j - 1]);
    assert(decimal_value(n.take(j)) == sat_digit(decimal_value(n.take(j - 1)), n[j - 1]));
    let next = ParserState {
        state: AnsiState::CsiParam,
        param: decimal_value(n.take(j)),
        has_param: true,
        closed: false,
    };
    if j == 1 {
        assert(n.take(0) =~= Seq::<u8>::empty());
        assert(decimal_value(n.take(0)) == 0);
    } else {
        lemma_csi_first_digits(s, start, n, j - 1, v);
        let prev = ParserState {
            state: AnsiState::CsiParam,
            param: decimal_value(n.take(j - 1)),
            has_param: true,
            closed: false,
        };
        assert(ansi_step(prev, v, s[start + j - 1]) == (next, v));
    }
}

/// Once a `;` has closed the first parameter, the digits and `;` of the
/// later parameters change neither the parser nor the console.
proof fn lemma_csi_later_params(s: Seq<u8>, start: int, rest: Seq<u8>, j: int, d: u32, v: ConsoleView)
    requires
        0 <= j <= rest.len(),
        0 <= start,
        start + rest.len() <= s.len(),
        s.subrange(start, start + rest.len()) == rest,
        forall|q: int| 0 <= q < rest.len() ==> is_digit(#[trigger] rest[q]) || rest[q] == 0x3b,
    ensures
        print_from(
            s,
            start,
            ParserState { state: AnsiState::CsiParam, param: d, has_param: true, closed: true },
            v,
        ) == print_from(
            s,
            start + j,
            ParserState { state: AnsiState::CsiParam, param: d, has_param: true, closed: true },
            v,
        ),
    decreases j,
{
    if j > 0 {
        lemma_csi_later_params(s, start, rest, j - 1, d, v);
        assert(s.subrange(start, start + rest.len())[j - 1] == s[start + j - 1]);
        assert(is_digit(rest[j - 1]) || rest[j - 1] == 0x3b);
    }
}

/// `ESC [ N ; ... m` sets the foreground to the colour of its first
/// parameter `N`; the parameters after the first `;` leave it alone, and the
/// bytes after `m` are printed by a parser that is back at its start.
pub proof fn lemma_sgr_first_param(v: ConsoleView, n: Seq<u8>, rest: Seq<u8>, t: Seq<u8>)
    requires
        n.len() > 0,
        forall|q: int| 0 <= q < n.len() ==> is_digit(#[trigger] n[q]),
        forall|q: int| 0 <= q < rest.len() ==> is_digit(#[trigger] rest[q]) || rest[q] == 0x3b,
    ensures
        print_spec(v, seq![0x1bu8, 0x5bu8] + n + seq![0x3bu8] + rest + seq![0x6du8] + t)
            == print_spec(ConsoleView { fg: apply_sgr_spec(v.fg, decimal_value(n)), ..v }, t),
{
    let s = seq![0x1bu8, 0x5bu8] + n + seq![0x3bu8] + rest + seq![0x6du8] + t;
    let nl = n.len() as int;
    let rl = rest.len() as int;
    let d = decimal_value(n);
    let v2 = ConsoleView { fg: apply_sgr_spec(v.fg, d), ..v };
    let csi = ParserState { state: AnsiState::Csi, param: 0, has_param: false, closed: false };
    let closed = ParserState { state: AnsiState::CsiParam, param: d, has_param: true, closed: true };
    assert(s[0] == 0x1b);
    assert(s[1] == 0x5b);
    assert(s.subrange(2, 2 + nl) =~= n);
    assert(s[2 + nl] == 0x3b);
    assert(s.subrange(3 + nl, 3 + nl + rl) =~= rest);
    assert(s[3 + nl + rl] == 0x6d);
    assert(s.subrange(4 + nl + rl, s.len() as int) =~= t);
    assert(print_from(s, 1, ParserState { state: AnsiState::Escape, ..parser_start() }, v)
        == print_from(s, 2, csi, v));
    lemma_csi_first_digits(s, 2, n, nl, v);
    assert(n.take(nl) =~= n);
    assert(print_from(
        s,
        2 + nl,
        ParserState { state: AnsiState::CsiParam, param: d, has_param: true, closed: false },
        v,
    ) == print_from(s, 3 + nl, closed, v));
    lemma_csi_later_params(s, 3 + nl, rest, rl, d, v);
    assert(print_from(s, 3 + nl + rl, closed, v) == print_from(s, 4 + nl + rl, parser_start(), v2));
    lemma_print_from_suffix(s, 4 + nl + rl, 4 + nl + rl, parser_start(), v2);
}

/// The pixel surface: rows of `width` XRGB8888 pixels.
pub struct Surface {
    pub rows: Vec<Vec<u32>>,
    pub width: usize,
}

/// The rows of a surface as sequences.
pub open spec fn rows_view(rows: Seq<Vec<u32>>) -> Seq<Seq<u32>> {
    Seq::new(rows.len(), |y: int| rows[y]@)
}

/// The boot framebuffer console.
pub struct FbConsole {
    pub col: usize,
    pub row: usize,
    pub fg: u32,
    pub dcs: Vec<u8>,
    pub surface: Option<Surface>,
    /// The glyphs of the printable ASCII characters 0x20..0x80.
    pub font: Vec<[u8; 8]>,
    pub flush: bool,
}

impl View for FbConsole {
    type V = ConsoleView;

    open spec fn view(&self) -> ConsoleView {
        ConsoleView {
            col: self.col as nat,
            row: self.row as nat,
            fg: self.fg,
            dcs: self.dcs@,
            surface: match self.surface {
                Some(s) => Some(rows_view(s.rows@)),
                None => None,
            },
            width: match self.surface {
                Some(s) => s.width as nat,
                None => 0,
            },
            font: self.font@,
            flush: self.flush,
            fault: false,
        }
    }
}

/// The surface has at least the 60 text rows of 8 pixels, all rows `width` long.
pub open spec fn surface_wf(s: Surface) -> bool {
    &&& s.rows@.len() >= ROWS * CHAR_H
    &&& forall|y: int| 0 <= y < s.rows@.len() ==> (#[trigger] s.rows@[y])@.len() == s.width
}

impl FbConsole {
    /// The console invariant.
    pub open spec fn wf(&self) -> bool {
        &&& self.row < ROWS
        &&& self.dcs@.len() <= DCS_CAPACITY
        &&& self.font@.len() == 96
        &&& match self.surface {
            Some(s) => surface_wf(s),
            None => true,
        }
    }

    /// A console over `surface` (if any) with the cursor at the top left.
    pub fn new(surface: Option<Surface>, font: Vec<[u8; 8]>) -> (c: FbConsole)
        requires
            font@.len() == 96,
            match surface {
                Some(s) => surface_wf(s),
                None => true,
            },
        ensures
            c.wf(),
            c.col == 0,
            c.row == 0,
            c.fg == FG_COLOR,
            c.dcs@.len() == 0,
            c.surface == surface,
            c.font == font,
            !c.flush,
    {
        FbConsole { col: 0, row: 0, fg: FG_COLOR, dcs: Vec::new(), surface, font, flush: false }
    }
}

/// The glyph of `c`: the font entry for 0x20..0x80, blank otherwise.
pub fn font8x8_glyph(font: &Vec<[u8; 8]>, c: u8) -> (g: [u8; 8])
    requires
        font@.len() == 96,
    ensures
        g@ == font_glyph_spec(font@, c),
{
    if c >= 0x20 && c < 0x80 {
        font[(c - 0x20) as usize]
    } else {
        let g = [0u8; 8];
        assert(g@ =~= Seq::new(8, |k: int| 0u8));
        g
    }
}

/// Draws `glyph` into the surface rows at text cell `(col, row)`.
pub fn draw_glyph_rows(rows: &mut Vec<Vec<u32>>, width: usize, glyph: [u8; 8], col: usize, row: usize, fg: u32)
    requires
        old(rows)@.len() >= ROWS * CHAR_H,
        forall|y: int| 0 <= y < old(rows)@.len() ==> (#[trigger] old(rows)@[y])@.len() == width,
        col < COLS,
        row < ROWS,
    ensures
        rows_view(final(rows)@) == draw_char_rows(rows_view(old(rows)@), glyph@, col as nat, row as nat, fg),
        final(rows)@.len() == old(rows)@.len(),
        forall|y: int| 0 <= y < final(rows)@.len() ==> (#[trigger] final(rows)@[y])@.len() == width,
{
    let ghost r0 = rows_view(rows@);
    let ghost target = draw_char_rows(r0, glyph@, col as nat, row as nat, fg);
    let x0 = col * CHAR_W;
    let y0 = row * CHAR_H;
    let mut gy: usize = 0;
    while gy < CHAR_H
        invariant
            0 <= gy <= CHAR_H,
            x0 == col * 8,
            y0 == row * 8,
            row < ROWS,
            col < COLS,
            rows@.len() == r0.len(),
            r0.len() >= ROWS * CHAR_H,
            target == draw_char_rows(r0, glyph@, col as nat, row as nat, fg),
            target.len() == r0.len(),
            forall|y: int| 0 <= y < rows@.len() ==> (#[trigger] rows@[y])@.len() == width,
            forall|y: int| 0 <= y < r0.len() ==> (#[trigger] r0[y]).len() == width,
            forall|y: int|
                0 <= y < rows@.len() ==> (#[trigger] rows@[y])@ == if y0 <= y < y0 + gy {
                    target[y]
                } else {
                    r0[y]
                },
        decreases CHAR_H - gy,
    {
        let bits = glyph[gy];
        let py = y0 + gy;
        let mut line: Vec<u32> = Vec::new();
        std::mem::swap(&mut line, &mut rows[py]);
        let ghost line0 = line@;
        let mut gx: usize = 0;
        while gx < CHAR_W
            invariant
                0 <= gx <= CHAR_W,
                x0 == col * 8,
                col < COLS,
                bits == glyph@[gy as int],
                line@.len() == width,
                line0.len() == width,
                forall|x: int|
                    0 <= x < width ==> #[trigger] line@[x] == if x0 <= x < x0 + gx {
                        if glyph_on(bits, x - x0) {
                            fg
                        } else {
                            BG_COLOR
                        }
                    } else {
                        line0[x]
                    },
            decreases CHAR_W - gx,
        {
            let on = (bits >> (gx as u8)) & 1 == 1;
            let color = if on {
                fg
            } else {
                BG_COLOR
            };
            let px = x0 + gx;
            if px < width {
                line.set(px, color);
            }
            gx = gx + 1;
        }
        proof {
            assert(line0 == r0[py as int]);
            assert forall|x: int| 0 <= x < width implies #[trigger] line@[x] == target[py as int][x] by {
                if x0 <= x < x0 + 8 {
                    assert(glyph@[py - row * 8] == bits);
                }
            }
            assert(line@ =~= target[py as int]);
        }
        std::mem::swap(&mut line, &mut rows[py]);
        gy = gy + 1;
    }
    proof {
        assert forall|y: int| 0 <= y < r0.len() implies #[trigger] rows_view(rows@)[y] == target[y] by {
            if !(y0 <= y < y0 + 8) {
                assert(target[y] == r0[y]);
            }
        }
        assert(rows_view(rows@) =~= target);
    }
}

/// Scrolls the surface rows up by one text row; the last text row becomes
/// background.
pub fn scroll_surface_rows(rows: &mut Vec<Vec<u32>>, width: usize)
    requires
        old(rows)@.len() >= CHAR_H,
        forall|y: int| 0 <= y < old(rows)@.len() ==> (#[trigger] old(rows)@[y])@.len() == width,
    ensures
        rows_view(final(rows)@) == scroll_rows(rows_view(old(rows)@), width as nat),
        final(rows)@.len() == old(rows)@.len(),
        forall|y: int| 0 <= y < final(rows)@.len() ==> (#[trigger] final(rows)@[y])@.len() == width,
{
    let ghost r0 = rows_view(rows@);
    let h = rows.len();
    let mut y: usize = 0;
    while y < h - CHAR_H
        invariant
            h == r0.len(),
            h >= CHAR_H,
            0 <= y <= h - CHAR_H,
            rows@.len() == h,
            forall|yy: int| 0 <= yy < h ==> (#[trigger] rows@[yy])@.len() == width,
            forall|yy: int| 0 <= yy < y ==> (#[trigger] rows@[yy])@ == r0[yy + 8],
            forall|yy: int| y <= yy < h ==> (#[trigger] rows@[yy])@ == r0[yy],
        decreases h - CHAR_H - y,
    {
        let mut src: Vec<u32> = Vec::new();
        let mut k: usize = 0;
        while k < width
            invariant
                0 <= k <= width,
                y + CHAR_H < h,
                rows@.len() == h,
                forall|yy: int| 0 <= yy < h ==> (#[trigger] rows@[yy])@.len() == width,
                src@.len() == k,
                forall|x: int| 0 <= x < k ==> #[trigger] src@[x] == rows@[y + CHAR_H]@[x],
            decreases width - k,
        {
            src.push(rows[y + CHAR_H][k]);
            k = k + 1;
        }
        assert(src@ =~= rows@[y + CHAR_H]@);
        std::mem::swap(&mut src, &mut rows[y]);
        y = y + 1;
    }
    let mut y2: usize = h - CHAR_H;
    while y2 < h
        invariant
            h == r0.len(),
            h >= CHAR_H,
            h - CHAR_H <= y2 <= h,
            rows@.len() == h,
            forall|yy: int| 0 <= yy < h ==> (#[trigger] rows@[yy])@.len() == width,
            forall|yy: int| 0 <= yy < h - 8 ==> (#[trigger] rows@[yy])@ == r0[yy + 8],
            forall|yy: int|
                h - 8 <= yy < y2 ==> (#[trigger] rows@[yy])@ == Seq::new(width as nat, |x: int| BG_COLOR),
        decreases h - y2,
    {
        let mut blank: Vec<u32> = Vec::new();
        let mut k: usize = 0;
        while k < width
            invariant
                0 <= k <= width,
                blank@.len() == k,
                forall|x: int| 0 <= x < k ==> #[trigger] blank@[x] == BG_COLOR,
            decreases width - k,
        {
            blank.push(BG_COLOR);
            k = k + 1;
        }
        assert(blank@ =~= Seq::new(width as nat, |x: int| BG_COLOR));
        std::mem::swap(&mut blank, &mut rows[y2]);
        y2 = y2 + 1;
    }
    proof {
        assert(rows_view(rows@) =~= scroll_rows(r0, width as nat));
    }
}

/// Draws a decoded image, `pixels[py * iw + px]` at `(x0 + px, y0 + py)`,
/// clipped to the surface.
pub fn blit_rows(
    rows: &mut Vec<Vec<u32>>,
    width: usize,
    pixels: &Vec<u32>,
    iw: usize,
    ih: usize,
    x0: usize,
    y0: usize,
    Ghost(ps): Ghost<Seq<Placement<u32>>>,
)
    requires
        forall|y: int| 0 <= y < old(rows)@.len() ==> (#[trigger] old(rows)@[y])@.len() == width,
        pixels@.len() == iw * ih,
        forall|y: int, x: int|
            0 <= y < ih && 0 <= x < iw ==> #[trigger] pixels@[y * iw + x] == color_at(ps, x, y, OPAQUE_BLACK),
    ensures
        rows_view(final(rows)@) == blit_image(rows_view(old(rows)@), ps, iw as nat, ih as nat, x0 as nat, y0 as nat),
        final(rows)@.len() == old(rows)@.len(),
        forall|y: int| 0 <= y < final(rows)@.len() ==> (#[trigger] final(rows)@[y])@.len() == width,
{
    let ghost r0 = rows_view(rows@);
    let ghost target = blit_image(r0, ps, iw as nat, ih as nat, x0 as nat, y0 as nat);
    let plen = pixels.len();
    let h = rows.len();
    let yl: usize = if y0 >= h {
        0
    } else if ih < h - y0 {
        ih
    } else {
        h - y0
    };
    let xl: usize = if x0 >= width {
        0
    } else if iw < width - x0 {
        iw
    } else {
        width - x0
    };
    let mut py: usize = 0;
    while py < yl
        invariant
            0 <= py <= yl,
            yl <= ih,
            yl == 0 || y0 + yl <= h,
            xl <= iw,
            xl == 0 || x0 + xl <= width,
            y0 + yl >= h || yl == ih,
            x0 + xl >= width || xl == iw,
            h == r0.len(),
            rows@.len() == h,
            target == blit_image(r0, ps, iw as nat, ih as nat, x0 as nat, y0 as nat),
            target.len() == h,
            pixels@.len() == iw * ih,
            plen == pixels@.len(),
            forall|y: int, x: int|
                0 <= y < ih && 0 <= x < iw ==> #[trigger] pixels@[y * iw + x] == color_at(ps, x, y, OPAQUE_BLACK),
            forall|y: int| 0 <= y < h ==> (#[trigger] rows@[y])@.len() == width,
            forall|y: int| 0 <= y < h ==> (#[trigger] r0[y]).len() == width,
            forall|y: int|
                0 <= y < h ==> (#[trigger] rows@[y])@ == if y0 <= y < y0 + py {
                    target[y]
                } else {
                    r0[y]
                },
        decreases yl - py,
    {
        let dst_y = y0 + py;
        let mut line: Vec<u32> = Vec::new();
        std::mem::swap(&mut line, &mut rows[dst_y]);
        let ghost line0 = line@;
        let mut px: usize = 0;
        while px < xl
            invariant
                0 <= px <= xl,
                xl <= iw,
                xl == 0 || x0 + xl <= width,
                x0 + xl >= width || xl == iw,
                0 <= py < ih,
                line@.len() == width,
                line0.len() == width,
                pixels@.len() == iw * ih,
                plen == pixels@.len(),
                forall|y: int, x: int|
                    0 <= y < ih && 0 <= x < iw ==> #[trigger] pixels@[y * iw + x] == color_at(ps, x, y, OPAQUE_BLACK),
                forall|x: int|
                    0 <= x < width ==> #[trigger] line@[x] == if x0 <= x < x0 + px {
                        color_at(ps, x - x0, py as int, OPAQUE_BLACK)
                    } else {
                        line0[x]
                    },
            decreases xl - px,
        {
            proof {
                lemma_index_in_image(py as int, px as int, ih as int, iw as int);
            }
            let v = pixels[py * iw + px];
            line.set(x0 + px, v);
            px = px + 1;
        }
        proof {
            assert(line0 == r0[dst_y as int]);
            assert forall|x: int| 0 <= x < width implies #[trigger] line@[x] == target[dst_y as int][x] by {
                if x0 <= x < x0 + iw {
                    assert(x < x0 + xl);
                }
            }
            assert(line@ =~= target[dst_y as int]);
        }
        std::mem::swap(&mut line, &mut rows[dst_y]);
        py = py + 1;
    }
    proof {
        assert forall|y: int| 0 <= y < h implies #[trigger] rows_view(rows@)[y] == target[y] by {
            if !(y0 <= y < y0 + ih) {
                assert(target[y] == r0[y]);
            }
        }
        assert(rows_view(rows@) =~= target);
    }
}

/// `y * w + x` indexes a `w * h` image for `y < h`, `x < w`.
pub proof fn lemma_index_in_image(y: int, x: int, h: int, w: int)
    requires
        0 <= y < h,
        0 <= x < w,
    ensures
        0 <= y * w + x < w * h,
{
    assert(0 <= y * w + x < w * h) by (nonlinear_arith)
        requires
            0 <= y < h,
            0 <= x < w,
    ;
}


/// The surface cleared to the background; the cursor at the top left.
pub open spec fn clear_view(v: ConsoleView) -> ConsoleView {
    ConsoleView {
        surface: match v.surface {
            Some(rows) => Some(
                Seq::new(rows.len(), |y: int| Seq::new(v.width, |x: int| BG_COLOR)),
            ),
            None => None,
        },
        flush: v.flush || v.surface is Some,
        col: 0,
        row: 0,
        ..v
    }
}

/// A string with no `P` byte never starts a DCS payload, so printing it
/// cannot fault while the cursor column stays addressable.
pub proof fn lemma_print_plain(s: Seq<u8>, i: int, p: ParserState, v: ConsoleView)
    requires
        0 <= i <= s.len(),
        forall|k: int| 0 <= k < s.len() ==> s[k] != 0x50,
        p.state != AnsiState::DcsParam && p.state != AnsiState::DcsData && p.state
            != AnsiState::DcsEsc,
        !v.fault,
        v.row < ROWS,
        v.col + (s.len() - i) < usize::MAX,
    ensures
        !print_from(s, i, p, v).fault,
        print_from(s, i, p, v).col <= v.col + (s.len() - i),
        print_from(s, i, p, v).row < ROWS,
    decreases s.len() - i,
{
    if i < s.len() {
        let (p2, v2) = ansi_step(p, v, s[i]);
        assert(v2.col <= v.col + 1);
        assert(v2.row < ROWS);
        lemma_print_plain(s, i + 1, p2, v2);
    }
}

impl FbConsole {
    /// Scrolls the surface up by one text row and puts the cursor on the
    /// last row.
    pub fn scroll(&mut self)
        requires
            match old(self).surface {
                Some(s) => surface_wf(s),
                None => true,
            },
        ensures
            final(self)@ == scroll_view(old(self)@),
            final(self).font == old(self).font,
            final(self).dcs == old(self).dcs,
            match final(self).surface {
                Some(s) => surface_wf(s) && s.width == old(self).surface->0.width,
                None => old(self).surface is None,
            },
    {
        let s = self.surface.take();
        if let Some(mut surf) = s {
            scroll_surface_rows(&mut surf.rows, surf.width);
            self.surface = Some(surf);
        }
        self.row = ROWS - 1;
        proof {
            assert(self@ =~~= scroll_view(old(self)@));
        }
    }

    /// Draws character `byte` in text cell `(col, row)` with foreground `fg`.
    pub fn draw_char_color(&mut self, byte: u8, col: usize, row: usize, fg: u32)
        requires
            old(self).wf(),
            col < COLS,
            row < ROWS,
        ensures
            final(self)@ == draw_view(
                old(self)@,
                font_glyph_spec(old(self)@.font, byte),
                col as nat,
                row as nat,
                fg,
            ),
            final(self).wf(),
    {
        let glyph = font8x8_glyph(&self.font, byte);
        let s = self.surface.take();
        if let Some(mut surf) = s {
            draw_glyph_rows(&mut surf.rows, surf.width, glyph, col, row, fg);
            self.surface = Some(surf);
        }
        proof {
            assert(self@ =~~= draw_view(
                old(self)@,
                font_glyph_spec(old(self)@.font, byte),
                col as nat,
                row as nat,
                fg,
            ));
        }
    }

    /// Draws character `byte` in text cell `(col, row)` in the default
    /// foreground colour.
    pub fn draw_char(&mut self, byte: u8, col: usize, row: usize)
        requires
            old(self).wf(),
            col < COLS,
            row < ROWS,
        ensures
            final(self)@ == draw_view(
                old(self)@,
                font_glyph_spec(old(self)@.font, byte),
                col as nat,
                row as nat,
                FG_COLOR,
            ),
            final(self).wf(),
    {
        self.draw_char_color(byte, col, row, FG_COLOR);
    }

    /// Writes one byte in colour `color`: `\n` moves to the next line
    /// (scrolling at the bottom), `\r` to column 0, a printable character
    /// is drawn at the cursor, anything else is drawn as a dot.
    pub fn write_byte_color(&mut self, byte: u8, color: u32)
        requires
            old(self).wf(),
            !write_byte_spec(old(self)@, byte, color).fault,
        ensures
            final(self)@ == write_byte_spec(old(self)@, byte, color),
            final(self).wf(),
        decreases
                (if 0x20 <= byte <= 0x7e {
                    0int
                } else {
                    1int
                }),
    {
        if byte == 0x0a {
            self.col = 0;
            let r = self.row + 1;
            self.row = r;
            if r >= ROWS {
                self.scroll();
            }
            proof {
                let v2 = ConsoleView { col: 0, row: old(self)@.row + 1, ..old(self)@ };
                assert(self@ =~~= (if old(self)@.row + 1 >= ROWS {
                    scroll_view(v2)
                } else {
                    v2
                }));
            }
        } else if byte == 0x0d {
            self.col = 0;
            proof {
                assert(self@ =~~= ConsoleView { col: 0, ..old(self)@ });
            }
        } else if 0x20 <= byte && byte <= 0x7e {
            let col = self.col;
            let row = self.row;
            if col < COLS && row < ROWS {
                self.draw_char_color(byte, col, row, color);
            }
            self.col = col + 1;
            proof {
                assert(self@ =~~= put_printable(old(self)@, byte, color));
            }
        } else {
            self.write_byte_color(0x2e, color);
        }
    }

    /// Writes one byte in the current foreground colour.
    pub fn write_byte(&mut self, byte: u8)
        requires
            old(self).wf(),
            !write_byte_spec(old(self)@, byte, old(self).fg).fault,
        ensures
            final(self)@ == write_byte_spec(old(self)@, byte, old(self).fg),
            final(self).wf(),
    {
        let fg = self.fg;
        self.write_byte_color(byte, fg);
    }

    /// Clears the surface to the background and puts the cursor at the top
    /// left; a flush is due when there is a surface.
    pub fn clear(&mut self)
        requires
            old(self).wf(),
        ensures
            final(self)@ == clear_view(old(self)@),
            final(self).wf(),
    {
        let s = self.surface.take();
        if let Some(mut surf) = s {
            let h = surf.rows.len();
            let w = surf.width;
            let ghost r0 = surf.rows@;
            let mut y: usize = 0;
            while y < h
                invariant
                    0 <= y <= h,
                    h == surf.rows@.len(),
                    h >= ROWS * CHAR_H,
                    w == surf.width,
                    forall|yy: int| 0 <= yy < h ==> (#[trigger] surf.rows@[yy])@.len() == w,
                    forall|yy: int|
                        0 <= yy < y ==> (#[trigger] surf.rows@[yy])@ == Seq::new(w as nat, |x: int| BG_COLOR),
                decreases h - y,
            {
                let mut blank: Vec<u32> = Vec::new();
                let mut k: usize = 0;
                while k < w
                    invariant
                        0 <= k <= w,
                        blank@.len() == k,
                        forall|x: int| 0 <= x < k ==> #[trigger] blank@[x] == BG_COLOR,
                    decreases w - k,
                {
                    blank.push(BG_COLOR);
                    k = k + 1;
                }
                assert(blank@ =~= Seq::new(w as nat, |x: int| BG_COLOR));
                std::mem::swap(&mut blank, &mut surf.rows[y]);
                y = y + 1;
            }
            self.surface = Some(surf);
            self.flush = true;
        }
        self.col = 0;
        self.row = 0;
        proof {
            assert(self@ =~~= clear_view(old(self)@));
        }
    }

    /// Decodes a Sixel payload and draws it at the cursor, then moves the
    /// cursor to column 0 of the first text row below the image (scrolling
    /// at the bottom). An empty image changes nothing.
    pub fn render_sixel_inline(&mut self, dcs_data: &[u8])
        requires
            old(self).wf(),
            !render_sixel_spec(old(self)@, dcs_data@).fault,
        ensures
            final(self)@ == render_sixel_spec(old(self)@, dcs_data@),
            final(self).wf(),
    {
        let ghost fin = console_run(dcs_data@);
        let (width, height, pixels) = match decode_sixel(dcs_data) {
            Some(img) => img,
            None => {
                return ;
            },
        };
        if width == 0 || height == 0 {
            return ;
        }
        let s = self.surface.take();
        if let Some(mut surf) = s {
            let col = self.col * CHAR_W;
            let row = self.row * CHAR_H;
            blit_rows(&mut surf.rows, surf.width, &pixels, width, height, col, row, Ghost(fin.placements));
            self.surface = Some(surf);
            self.flush = true;
        }
        let img_rows = (height + CHAR_H - 1) / CHAR_H;
        let new_row = self.row + img_rows;
        self.row = new_row;
        if new_row >= ROWS {
            self.scroll();
        }
        self.col = 0;
        self.flush = true;
        proof {
            assert(self@ =~~= render_sixel_spec(old(self)@, dcs_data@));
        }
    }
}


/// `current * 10 + (b - '0')`, saturating at `u32::MAX` at each step.
fn push_digit(current: u32, b: u8) -> (r: u32)
    requires
        is_digit(b),
    ensures
        r == sat_digit(current, b),
{
    let m: u32 = match current.checked_mul(10) {
        Some(v) => v,
        None => u32::MAX,
    };
    m.saturating_add((b - 0x30) as u32)
}

impl FbConsole {
    /// Prints `bytes`, interpreting SGR colour sequences (`ESC [ n m`, and
    /// `ESC [ n ; ... m`, where the first parameter selects the colour: see
    /// [`lemma_sgr_first_param`]) and Sixel images in DCS sequences
    /// (`ESC P ... q data ESC \`).
    pub fn print_str_ansi(&mut self, bytes: &[u8])
        requires
            old(self).wf(),
            !print_spec(old(self)@, bytes@).fault,
        ensures
            final(self)@ == print_spec(old(self)@, bytes@),
            final(self).wf(),
    {
        let mut state = AnsiState::Normal;
        let mut param: u32 = 0;
        let mut has_param = false;
        let mut closed = false;
        let mut i: usize = 0;
        while i < bytes.len()
            invariant
                self.wf(),
                0 <= i <= bytes@.len(),
                print_from(bytes@, i as int, ParserState { state, param, has_param, closed }, self@)
                    == print_spec(old(self)@, bytes@),
                !print_spec(old(self)@, bytes@).fault,
            decreases bytes@.len() - i,
        {
            let b = bytes[i];
            let ghost p = ParserState { state, param, has_param, closed };
            let ghost v = self@;
            let ghost next = ansi_step(p, v, b);
            proof {
                if next.1.fault {
                    lemma_print_from_fault(bytes@, i + 1, next.0, next.1);
                }
            }
            match state {
                AnsiState::Normal => {
                    if b == 0x1b {
                        state = AnsiState::Escape;
                    } else {
                        let fg = self.fg;
                        self.write_byte_color(b, fg);
                    }
                },
                AnsiState::Escape => {
                    if b == 0x5b {
                        state = AnsiState::Csi;
                        param = 0;
                        has_param = false;
                        closed = false;
                    } else if b == 0x50 {
                        self.dcs = Vec::new();
                        state = AnsiState::DcsParam;
                    } else if b == 0x1b {
                    } else {
                        state = AnsiState::Normal;
                        let fg = self.fg;
                        self.write_byte_color(b, fg);
                    }
                },
                AnsiState::DcsParam => {
                    if b == 0x71 {
                        state = AnsiState::DcsData;
                    } else if b == 0x1b {
                        state = AnsiState::DcsEsc;
                    }
                },
                AnsiState::DcsData => {
                    if b == 0x1b {
                        state = AnsiState::DcsEsc;
                    } else if self.dcs.len() < DCS_CAPACITY {
                        self.dcs.push(b);
                    }
                },
                AnsiState::DcsEsc => {
                    if b == 0x5c {
                        let mut data: Vec<u8> = Vec::new();
                        std::mem::swap(&mut data, &mut self.dcs);
                        proof {
                            assert(render_sixel_spec(self@, data@) =~~= ConsoleView {
                                dcs: Seq::empty(),
                                ..render_sixel_spec(v, v.dcs)
                            });
                        }
                        self.render_sixel_inline(data.as_slice());
                        std::mem::swap(&mut data, &mut self.dcs);
                        state = AnsiState::Normal;
                    } else if b == 0x1b {
                    } else {
                        if self.dcs.len() + 1 < DCS_CAPACITY {
                            self.dcs.push(0x1b);
                            self.dcs.push(b);
                        }
                        state = AnsiState::DcsData;
                    }
                },
                AnsiState::Csi => {
                    if 0x30 <= b && b <= 0x39 {
                        param = push_digit(param, b);
                        has_param = true;
                        state = AnsiState::CsiParam;
                    } else if b == 0x6d {
                        if !has_param {
                            self.fg = FG_COLOR;
                        }
                        state = AnsiState::Normal;
                    } else if b == 0x3b {
                        state = AnsiState::CsiParam;
                        closed = true;
                    } else {
                        state = AnsiState::Normal;
                    }
                },
                AnsiState::CsiParam => {
                    if 0x30 <= b && b <= 0x39 {
                        if !closed {
                            param = push_digit(param, b);
                            has_param = true;
                        }
                    } else if b == 0x3b {
                        closed = true;
                    } else if b == 0x6d {
                        self.fg = apply_sgr(self.fg, param);
                        param = 0;
                        has_param = false;
                        closed = false;
                        state = AnsiState::Normal;
                    } else {
                        state = AnsiState::Normal;
                    }
                },
            }
            proof {
                assert(ParserState { state, param, has_param, closed } == next.0);
                assert(self@ =~~= next.1);
            }
            i = i + 1;
        }
    }

    /// Prints a string with escape-sequence interpretation.
    pub fn print_str(&mut self, s: &str)
        requires
            old(self).wf(),
            !print_spec(old(self)@, s.spec_bytes()).fault,
        ensures
            final(self)@ == print_spec(old(self)@, s.spec_bytes()),
            final(self).wf(),
    {
        self.print_str_ansi(s.as_bytes());
    }
}


/// Where the cursor ends after one byte of text at `(col, row)`; `None`
/// when the column would leave the `usize` range.
fn text_cursor_after(col: usize, row: usize, byte: u8) -> (r: Option<(usize, usize)>)
    requires
        row < ROWS,
    ensures
        forall|v: ConsoleView, color: u32|
            v.col == col && v.row == row && !v.fault ==> {
                let w = #[trigger] write_byte_spec(v, byte, color);
                &&& w.dcs == v.dcs
                &&& (w.surface is Some) == (v.surface is Some)
                &&& match r {
                    None => w.fault,
                    Some(c) => !w.fault && w.col == c.0 && w.row == c.1 && c.1 < ROWS,
                }
            },
{
    if byte == 0x0a {
        if row + 1 >= ROWS {
            Some((0, ROWS - 1))
        } else {
            Some((0, row + 1))
        }
    } else if byte == 0x0d {
        Some((0, row))
    } else {
        match col.checked_add(1) {
            Some(c) => Some((c, row)),
            None => None,
        }
    }
}

/// Where the cursor ends after a Sixel payload `data` rendered at `(col,
/// row)`; `None` when rendering it would fault.
fn sixel_cursor_after(col: usize, row: usize, has_surface: bool, data: &[u8]) -> (r: Option<(usize, usize)>)
    requires
        row < ROWS,
    ensures
        forall|v: ConsoleView|
            v.col == col && v.row == row && !v.fault && (v.surface is Some) == has_surface ==> {
                let w = #[trigger] render_sixel_spec(v, data@);
                &&& w.dcs == v.dcs
                &&& (w.surface is Some) == has_surface
                &&& match r {
                    None => w.fault,
                    Some(c) => !w.fault && w.col == c.0 && w.row == c.1 && c.1 < ROWS,
                }
            },
{
    let (w, h) = match console_sixel_extent(data) {
        Some(e) => e,
        None => {
            return None;
        },
    };
    if w == 0 || h == 0 {
        return Some((col, row));
    }
    if has_surface && col > usize::MAX / 8 {
        return None;
    }
    if h > usize::MAX - 8 {
        return None;
    }
    let img_rows = (h + 7) / 8;
    if row + img_rows >= ROWS {
        Some((0, ROWS - 1))
    } else {
        Some((0, row + img_rows))
    }
}

impl FbConsole {
    /// Whether printing `bytes` would fault: a cursor column past the
    /// `usize` range, or a Sixel payload the console cannot render. Nothing
    /// is printed.
    pub fn print_faults(&self, bytes: &[u8]) -> (b: bool)
        requires
            self.wf(),
        ensures
            b == print_spec(self@, bytes@).fault,
    {
        let ghost fin = print_spec(self@, bytes@);
        let ghost mut gp = parser_start();
        let ghost mut gv = self@;
        let has_surface = self.surface.is_some();
        let mut state = AnsiState::Normal;
        let mut col = self.col;
        let mut row = self.row;
        let mut dcs: Vec<u8> = Vec::new();
        let mut k: usize = 0;
        while k < self.dcs.len()
            invariant
                k <= self.dcs@.len(),
                dcs@ == self.dcs@.subrange(0, k as int),
            decreases self.dcs@.len() - k,
        {
            dcs.push(self.dcs[k]);
            k = k + 1;
            proof {
                assert(dcs@ =~= self.dcs@.subrange(0, k as int));
            }
        }
        proof {
            assert(dcs@ =~= self.dcs@);
        }
        let mut i: usize = 0;
        while i < bytes.len()
            invariant
                i <= bytes@.len(),
                fin == print_spec(self@, bytes@),
                print_from(bytes@, i as int, gp, gv) == fin,
                state == gp.state,
                gv.col == col as nat,
                gv.row == row as nat,
                row < ROWS,
                gv.dcs == dcs@,
                dcs@.len() <= DCS_CAPACITY,
                (gv.surface is Some) == has_surface,
                !gv.fault,
            decreases bytes@.len() - i,
        {
            let b = bytes[i];
            let ghost step = ansi_step(gp, gv, b);
            let mut text = false;
            let mut render = false;
            match state {
                AnsiState::Normal => {
                    if b == 0x1b {
                        state = AnsiState::Escape;
                    } else {
                        text = true;
                    }
                },
                AnsiState::Escape => {
                    if b == 0x5b {
                        state = AnsiState::Csi;
                    } else if b == 0x50 {
                        state = AnsiState::DcsParam;
                        dcs = Vec::new();
                    } else if b != 0x1b {
                        state = AnsiState::Normal;
                        text = true;
                    }
                },
                AnsiState::DcsParam => {
                    if b == 0x71 {
                        state = AnsiState::DcsData;
                    } else if b == 0x1b {
                        state = AnsiState::DcsEsc;
                    }
                },
                AnsiState::DcsData => {
                    if b == 0x1b {
                        state = AnsiState::DcsEsc;
                    } else if dcs.len() < DCS_CAPACITY {
                        dcs.push(b);
                    }
                },
                AnsiState::DcsEsc => {
                    if b == 0x5c {
                        state = AnsiState::Normal;
                        render = true;
                    } else if b != 0x1b {
                        state = AnsiState::DcsData;
                        if dcs.len() + 1 < DCS_CAPACITY {
                            dcs.push(0x1b);
                            dcs.push(b);
                        }
                    }
                },
                AnsiState::Csi => {
                    if 0x30 <= b && b <= 0x39 || b == 0x3b {
                        state = AnsiState::CsiParam;
                    } else {
                        state = AnsiState::Normal;
                    }
                },
                AnsiState::CsiParam => {
                    if !(0x30 <= b && b <= 0x39 || b == 0x3b) {
                        state = AnsiState::Normal;
                    }
                },
            }
            if text || render {
                let next = if text {
                    text_cursor_after(col, row, b)
                } else {
                    sixel_cursor_after(col, row, has_surface, dcs.as_slice())
                };
                match next {
                    Some(c) => {
                        col = c.0;
                        row = c.1;
                    },
                    None => {
                        proof {
                            lemma_print_from_fault(bytes@, i + 1, step.0, step.1);
                        }
                        return true;
                    },
                }
            }
            proof {
                gp = step.0;
                gv = step.1;
            }
            i = i + 1;
        }
        false
    }

    /// Prints `s` as [`FbConsole::print_str`] does when that cannot fault,
    /// and reports whether it printed; otherwise the console is left as it
    /// was.
    pub fn try_print_str(&mut self, s: &str) -> (printed: bool)
        requires
            old(self).wf(),
        ensures
            printed == !print_spec(old(self)@, s.spec_bytes()).fault,
            printed ==> final(self)@ == print_spec(old(self)@, s.spec_bytes()),
            !printed ==> *final(self) == *old(self),
            final(self).wf(),
    {
        if self.print_faults(s.as_bytes()) {
            false
        } else {
            self.print_str(s);
            true
        }
    }
}


/// The bytes of the first banner line: a blue title, then the colour reset.
pub open spec fn banner_title() -> Seq<u8> {
    seq![0x1bu8, 0x5b, 0x33, 0x34, 0x6d] + seq![
        0x20u8, 0x6b, 0x65, 0x69, 0x20, 0x6b, 0x65, 0x72, 0x6e, 0x65, 0x6c, 0x20, 0x28, 0x61,
        0x61, 0x72, 0x63, 0x68, 0x36, 0x34, 0x29, 0x20,
    ] + seq![0x1bu8, 0x5b, 0x30, 0x6d, 0x0a]
}

/// The bytes of the second banner line: a cyan subtitle, the colour reset
/// and an empty line.
pub open spec fn banner_subtitle() -> Seq<u8> {
    seq![0x1bu8, 0x5b, 0x33, 0x36, 0x6d] + seq![
        0x20u8, 0x66, 0x72, 0x61, 0x6d, 0x65, 0x62, 0x75, 0x66, 0x66, 0x65, 0x72, 0x20, 0x63,
        0x6f, 0x6e, 0x73, 0x6f, 0x6c, 0x65, 0x20,
    ] + seq![0x1bu8, 0x5b, 0x30, 0x6d, 0x0a, 0x0a]
}

impl FbConsole {
    /// Prints a string byte by byte in colour `color`, without
    /// escape-sequence interpretation, and requests a flush.
    pub fn print_str_color(&mut self, s: &str, color: u32)
        requires
            old(self).wf(),
            !print_color_from(old(self)@, s.spec_bytes(), 0, color).fault,
        ensures
            final(self)@ == (ConsoleView {
                flush: true,
                ..print_color_from(old(self)@, s.spec_bytes(), 0, color)
            }),
            final(self).wf(),
    {
        let bytes = s.as_bytes();
        let mut i: usize = 0;
        while i < bytes.len()
            invariant
                self.wf(),
                0 <= i <= bytes@.len(),
                bytes@ == s.spec_bytes(),
                print_color_from(self@, bytes@, i as int, color) == print_color_from(
                    old(self)@,
                    bytes@,
                    0,
                    color,
                ),
                !print_color_from(old(self)@, bytes@, 0, color).fault,
            decreases bytes@.len() - i,
        {
            let b = bytes[i];
            proof {
                let v2 = write_byte_spec(self@, b, color);
                if v2.fault {
                    lemma_print_color_fault(v2, bytes@, i + 1, color);
                }
            }
            self.write_byte_color(b, color);
            i = i + 1;
        }
        self.flush = true;
        proof {
            assert(self@ =~~= ConsoleView {
                flush: true,
                ..print_color_from(old(self)@, s.spec_bytes(), 0, color)
            });
        }
    }

    /// Prints a string, then a newline.
    pub fn println(&mut self, s: &str)
        requires
            old(self).wf(),
            !print_spec(print_spec(old(self)@, s.spec_bytes()), seq![0x0au8]).fault,
        ensures
            final(self)@ == print_spec(print_spec(old(self)@, s.spec_bytes()), seq![0x0au8]),
            final(self).wf(),
    {
        proof {
            let mid = print_spec(old(self)@, s.spec_bytes());
            if mid.fault {
                lemma_print_from_fault(seq![0x0au8], 0, parser_start(), mid);
            }
        }
        self.print_str(s);
        let nl = "\n";
        proof {
            reveal_strlit("\n");
            vstd::string::is_ascii_spec_bytes(nl);
            assert(nl.spec_bytes() =~= seq![0x0au8]);
        }
        self.print_str(nl);
    }

    /// Prints the two-line title banner.
    pub fn draw_banner(&mut self)
        requires
            old(self).wf(),
            old(self).col + 64 < usize::MAX,
        ensures
            final(self)@ == print_spec(print_spec(old(self)@, banner_title()), banner_subtitle()),
            final(self).wf(),
    {
        let title = "\x1b[34m kei kernel (aarch64) \x1b[0m\n";
        let subtitle = "\x1b[36m framebuffer console \x1b[0m\n\n";
        proof {
            reveal_strlit("\x1b[34m kei kernel (aarch64) \x1b[0m\n");
            reveal_strlit("\x1b[36m framebuffer console \x1b[0m\n\n");
            vstd::string::is_ascii_spec_bytes(title);
            vstd::string::is_ascii_spec_bytes(subtitle);
            assert(title.spec_bytes() =~= banner_title());
            assert(subtitle.spec_bytes() =~= banner_subtitle());
            lemma_print_plain(banner_title(), 0, parser_start(), old(self)@);
        }
        self.print_str(title);
        proof {
            lemma_print_plain(banner_subtitle(), 0, parser_start(), self@);
        }
        self.print_str(subtitle);
    }

    /// Clears the surface and draws the banner.
    pub fn init(&mut self)
        requires
            old(self).wf(),
        ensures
            final(self)@ == print_spec(
                print_spec(clear_view(old(self)@), banner_title()),
                banner_subtitle(),
            ),
            final(self).wf(),
    {
        self.clear();
        self.draw_banner();
    }
}

} // verus!
