//! The Bochs VGA (VBE DISPI) graphics mode: the register writes that set
//! a mode, finding the linear framebuffer among the PCI devices, and
//! filling rectangles in it. Port and memory access are the caller's.

use vstd::prelude::*;

verus! {

pub const VBE_DISPI_IOPORT_INDEX: u16 = 0x1CE;
pub const VBE_DISPI_IOPORT_DATA: u16 = 0x1CF;

pub const VBE_DISPI_INDEX_ID: u16 = 0;
pub const VBE_DISPI_INDEX_XRES: u16 = 1;
pub const VBE_DISPI_INDEX_YRES: u16 = 2;
pub const VBE_DISPI_INDEX_BPP: u16 = 3;
pub const VBE_DISPI_INDEX_ENABLE: u16 = 4;
pub const VBE_DISPI_INDEX_VIRT_WIDTH: u16 = 6;
pub const VBE_DISPI_INDEX_VIRT_HEIGHT: u16 = 7;
pub const VBE_DISPI_INDEX_X_OFFSET: u16 = 8;
pub const VBE_DISPI_INDEX_Y_OFFSET: u16 = 9;

pub const VBE_DISPI_DISABLED: u16 = 0x00;
pub const VBE_DISPI_ENABLED: u16 = 0x01;
pub const VBE_DISPI_LFB_ENABLED: u16 = 0x40;

/// The lowest interface id that supports mode setting.
pub const VBE_DISPI_MIN_ID: u16 = 0xB0C0;

/// The PCI configuration address of a register: enable bit, bus, device,
/// function and register offset.
pub open spec fn pci_address_spec(bus: u8, dev: u8, func: u8, offset: u8) -> u32 {
    0x8000_0000u32 | ((bus as u32) << 16) | ((dev as u32) << 11) | ((func as u32) << 8) | (offset as u32)
}

pub fn pci_config_address(bus: u8, dev: u8, func: u8, offset: u8) -> (a: u32)
    ensures
        a == pci_address_spec(bus, dev, func, offset),
{
    0x8000_0000u32 | ((bus as u32) << 16) | ((dev as u32) << 11) | ((func as u32) << 8) | (offset as u32)
}

/// The register writes (index, value) that set a `width` x `height` mode
/// of `bpp` bits per pixel: disable, resolution, depth, the same virtual
/// resolution, zero offsets, then enable with the linear framebuffer.
pub open spec fn mode_writes_spec(width: u16, height: u16, bpp: u16) -> Seq<(u16, u16)> {
    seq![
        (VBE_DISPI_INDEX_ENABLE, VBE_DISPI_DISABLED),
        (VBE_DISPI_INDEX_XRES, width),
        (VBE_DISPI_INDEX_YRES, height),
        (VBE_DISPI_INDEX_BPP, bpp),
        (VBE_DISPI_INDEX_VIRT_WIDTH, width),
        (VBE_DISPI_INDEX_VIRT_HEIGHT, height),
        (VBE_DISPI_INDEX_X_OFFSET, 0u16),
        (VBE_DISPI_INDEX_Y_OFFSET, 0u16),
        (VBE_DISPI_INDEX_ENABLE, 0x41u16),
    ]
}

pub fn mode_writes(width: u16, height: u16, bpp: u16) -> (w: Vec<(u16, u16)>)
    ensures
        w@ == mode_writes_spec(width, height, bpp),
{
    let mut w: Vec<(u16, u16)> = Vec::new();
    w.push((VBE_DISPI_INDEX_ENABLE, VBE_DISPI_DISABLED));
    w.push((VBE_DISPI_INDEX_XRES, width));
    w.push((VBE_DISPI_INDEX_YRES, height));
    w.push((VBE_DISPI_INDEX_BPP, bpp));
    w.push((VBE_DISPI_INDEX_VIRT_WIDTH, width));
    w.push((VBE_DISPI_INDEX_VIRT_HEIGHT, height));
    w.push((VBE_DISPI_INDEX_X_OFFSET, 0));
    w.push((VBE_DISPI_INDEX_Y_OFFSET, 0));
    w.push((VBE_DISPI_INDEX_ENABLE, VBE_DISPI_ENABLED | VBE_DISPI_LFB_ENABLED));
    assert(1u16 | 0x40u16 == 0x41u16) by (bit_vector);
    assert(w@ =~= mode_writes_spec(width, height, bpp));
    w
}

/// The interface id read back supports mode setting.
pub fn dispi_supported(id: u16) -> (ok: bool)
    ensures
        ok == (id >= VBE_DISPI_MIN_ID),
{
    id >= VBE_DISPI_MIN_ID
}

/// The first VGA-class device's linear framebuffer among the devices of
/// bus 0, each given as its (vendor/device word, class word, BAR0): absent
/// devices read all ones.
pub open spec fn find_vga_spec(devs: Seq<(u32, u32, u32)>, i: int) -> Option<u64>
    decreases devs.len() - i,
{
    if i < 0 || i >= devs.len() {
        None
    } else if devs[i].0 != 0xFFFF_FFFF && (devs[i].1 >> 24) & 0xFF == 0x03 {
        Some((devs[i].2 & 0xFFFF_FFF0) as u64)
    } else {
        find_vga_spec(devs, i + 1)
    }
}

pub fn find_vga_framebuffer(devs: &[(u32, u32, u32)]) -> (lfb: Option<u64>)
    ensures
        lfb == find_vga_spec(devs@, 0),
{
    let mut i: usize = 0;
    while i < devs.len()
        invariant
            0 <= i <= devs@.len(),
            find_vga_spec(devs@, 0) == find_vga_spec(devs@, i as int),
        decreases devs@.len() - i,
    {
        let (vendor_device, class_code, bar0) = devs[i];
        if vendor_device != 0xFFFF_FFFF && (class_code >> 24) & 0xFF == 0x03 {
            return Some((bar0 & 0xFFFF_FFF0) as u64);
        }
        i = i + 1;
    }
    None
}

/// The mode set: nothing when the interface is too old or no framebuffer
/// was found; else the framebuffer address, width, height and depth.
pub fn set_graphics_mode(id: u16, width: u16, height: u16, bpp: u16, lfb: Option<u64>) -> (r: Option<(u64, usize, usize, usize)>)
    ensures
        (id < VBE_DISPI_MIN_ID || lfb is None) ==> r is None,
        id >= VBE_DISPI_MIN_ID && lfb is Some ==> r == Some(
            (lfb->0, width as usize, height as usize, bpp as usize),
        ),
{
    if !dispi_supported(id) {
        return None;
    }
    match lfb {
        Some(a) => Some((a, width as usize, height as usize, bpp as usize)),
        None => None,
    }
}

/// Byte `j` of the framebuffer after filling a rectangle: within rows
/// `y..min(y + h, fb_height)` and columns `x..min(x + w, fb_width)`, a
/// 32-bit framebuffer gets opaque BGRA pixels; others are left alone.
pub open spec fn rect_byte(
    mem: Seq<u8>,
    fb_width: int,
    fb_height: int,
    bpp: int,
    x: int,
    y: int,
    w: int,
    h: int,
    r: u8,
    g: u8,
    b: u8,
    j: int,
) -> u8 {
    let pitch = fb_width * 4;
    let row = j / pitch;
    let col = (j % pitch) / 4;
    let k = j % 4;
    if bpp == 32 && y <= row < y + h && row < fb_height && x <= col < x + w && col < fb_width {
        if k == 0 {
            b
        } else if k == 1 {
            g
        } else if k == 2 {
            r
        } else {
            0xFF
        }
    } else {
        mem[j]
    }
}

proof fn lemma_pixel_index(j: int, row: int, col: int, k: int, fb_width: int)
    requires
        fb_width > 0,
        0 <= col < fb_width,
        0 <= k < 4,
        row >= 0,
        j == row * (fb_width * 4) + col * 4 + k,
    ensures
        j / (fb_width * 4) == row,
        (j % (fb_width * 4)) / 4 == col,
        j % 4 == k,
{
    let pitch = fb_width * 4;
    assert(0 <= col * 4 + k < pitch) by (nonlinear_arith)
        requires
            0 <= col < fb_width,
            0 <= k < 4,
            pitch == fb_width * 4,
    ;
    vstd::arithmetic::div_mod::lemma_fundamental_div_mod_converse(j, pitch, row, col * 4 + k);
    vstd::arithmetic::div_mod::lemma_fundamental_div_mod_converse(col * 4 + k, 4, col, k);
    assert(j == (row * fb_width + col) * 4 + k) by (nonlinear_arith)
        requires
            j == row * (fb_width * 4) + col * 4 + k,
    ;
    vstd::arithmetic::div_mod::lemma_fundamental_div_mod_converse(j, 4, row * fb_width + col, k);
}

proof fn lemma_in_pixel(j: int, pitch: int, row: int, col: int)
    requires
        pitch > 0,
        pitch % 4 == 0,
        j >= 0,
        j / pitch == row,
        (j % pitch) / 4 == col,
    ensures
        row * pitch + col * 4 <= j < row * pitch + col * 4 + 4,
{
    let m = j % pitch;
    vstd::arithmetic::div_mod::lemma_fundamental_div_mod(j, pitch);
    vstd::arithmetic::div_mod::lemma_fundamental_div_mod(m, 4);
    assert(0 <= m % 4 < 4);
    assert(pitch * (j / pitch) == row * pitch) by (nonlinear_arith)
        requires
            j / pitch == row,
    ;
    assert(4 * (m / 4) == col * 4);
}

/// Fills rectangle `(x, y, w, h)` of a framebuffer's memory `mem` (from its
/// first byte) with colour `(r, g, b)`, clipped to the framebuffer. Only
/// 32-bit framebuffers are drawn.
pub fn draw_rect(
    mem: &mut Vec<u8>,
    fb_width: usize,
    fb_height: usize,
    bpp: usize,
    x: usize,
    y: usize,
    w: usize,
    h: usize,
    r: u8,
    g: u8,
    b: u8,
)
    requires
        bpp == 32 ==> fb_width * fb_height * 4 <= old(mem)@.len(),
        fb_width * (bpp / 8) <= usize::MAX,
        fb_width * fb_height * (bpp / 8) <= usize::MAX,
        x + w <= usize::MAX,
        y + h <= usize::MAX,
    ensures
        final(mem)@ == Seq::new(
            old(mem)@.len(),
            |j: int|
                rect_byte(
                    old(mem)@,
                    fb_width as int,
                    fb_height as int,
                    bpp as int,
                    x as int,
                    y as int,
                    w as int,
                    h as int,
                    r,
                    g,
                    b,
                    j,
                ),
        ),
{
    let ghost m0 = mem@;
    let _len = mem.len();
    let bytes_per_pixel = bpp / 8;
    let pitch = fb_width * bytes_per_pixel;
    let row_end = if y + h < fb_height {
        y + h
    } else {
        fb_height
    };
    let col_end = if x + w < fb_width {
        x + w
    } else {
        fb_width
    };
    if bpp == 32 && fb_width > 0 {
        let mut row = y;
        while row < row_end
            invariant
                fb_width > 0,
                bytes_per_pixel == 4,
                pitch == fb_width * 4,
                row_end <= fb_height,
                col_end <= fb_width,
                row_end == if y + h < fb_height { y + h } else { fb_height as int },
                col_end == if x + w < fb_width { x + w } else { fb_width as int },
                fb_width * fb_height * 4 <= m0.len(),
                m0.len() <= usize::MAX,
                y <= row || row >= row_end,
                row >= y,
                mem@.len() == m0.len(),
                bpp == 32,
                forall|j: int|
                    0 <= j < m0.len() ==> #[trigger] mem@[j] == if j / (pitch as int) < row {
                        rect_byte(m0, fb_width as int, fb_height as int, 32, x as int, y as int, w as int, h as int, r, g, b, j)
                    } else {
                        m0[j]
                    },
            decreases row_end - row,
        {
            let mut col = x;
            while col < col_end
                invariant
                    fb_width > 0,
                    bytes_per_pixel == 4,
                    pitch == fb_width * 4,
                    y <= row < row_end,
                    row_end <= fb_height,
                    col_end <= fb_width,
                    row_end == if y + h < fb_height { y + h } else { fb_height as int },
                    col_end == if x + w < fb_width { x + w } else { fb_width as int },
                    fb_width * fb_height * 4 <= m0.len(),
                    m0.len() <= usize::MAX,
                    col >= x,
                    mem@.len() == m0.len(),
                    forall|j: int|
                        0 <= j < m0.len() ==> #[trigger] mem@[j] == if j / (pitch as int) < row || (j
                            / (pitch as int) == row && (j % (pitch as int)) / 4 < col) {
                            rect_byte(m0, fb_width as int, fb_height as int, 32, x as int, y as int, w as int, h as int, r, g, b, j)
                        } else {
                            m0[j]
                        },
                decreases col_end - col,
            {
                assert(row * pitch + col * 4 + 4 <= m0.len()) by (nonlinear_arith)
                    requires
                        row < fb_height,
                        col < fb_width,
                        pitch == fb_width * 4,
                        fb_width * fb_height * 4 <= m0.len(),
                ;
                let offset = row * pitch + col * bytes_per_pixel;
                let ghost before = mem@;
                mem.set(offset, b);
                mem.set(offset + 1, g);
                mem.set(offset + 2, r);
                mem.set(offset + 3, 0xFF);
                proof {
                    assert forall|j: int| 0 <= j < m0.len() implies #[trigger] mem@[j] == if j / (pitch as int) < row || (j
                        / (pitch as int) == row && (j % (pitch as int)) / 4 < col + 1) {
                        rect_byte(m0, fb_width as int, fb_height as int, 32, x as int, y as int, w as int, h as int, r, g, b, j)
                    } else {
                        m0[j]
                    } by {
                        if offset <= j < offset + 4 {
                            lemma_pixel_index(j, row as int, col as int, j - offset, fb_width as int);
                        } else {
                            assert(before[j] == mem@[j]);
                            if j / (pitch as int) == row && (j % (pitch as int)) / 4 == col {
                                assert((pitch as int) % 4 == 0) by (nonlinear_arith)
                                    requires
                                        pitch == fb_width * 4,
                                ;
                                lemma_in_pixel(j, pitch as int, row as int, col as int);
                            }
                        }
                    }
                }
                col = col + 1;
            }
            proof {
                assert forall|j: int| 0 <= j < m0.len() implies #[trigger] mem@[j] == if j / (pitch as int) < row + 1 {
                    rect_byte(m0, fb_width as int, fb_height as int, 32, x as int, y as int, w as int, h as int, r, g, b, j)
                } else {
                    m0[j]
                } by {
                    if j / (pitch as int) == row && (j % (pitch as int)) / 4 >= col {
                        assert((j % (pitch as int)) / 4 >= col_end);
                    }
                }
            }
            row = row + 1;
        }
        proof {
            assert forall|j: int| 0 <= j < m0.len() implies #[trigger] mem@[j] == rect_byte(m0, fb_width as int, fb_height as int, 32, x as int, y as int, w as int, h as int, r, g, b, j) by {
                if j / (pitch as int) >= row {
                    assert(j / (pitch as int) >= row_end || j / (pitch as int) < y);
                }
            }
            assert(mem@ =~= Seq::new(
                m0.len(),
                |j: int| rect_byte(m0, fb_width as int, fb_height as int, bpp as int, x as int, y as int, w as int, h as int, r, g, b, j),
            ));
        }
    } else {
        proof {
            assert(mem@ =~= Seq::new(
                m0.len(),
                |j: int| rect_byte(m0, fb_width as int, fb_height as int, bpp as int, x as int, y as int, w as int, h as int, r, g, b, j),
            ));
        }
    }
}

} // verus!
