//! The 80x25 VGA text console used for early output: a cursor over the
//! character/attribute cells, newlines, and scrolling at the bottom.
//!
//! The cells are held here; copying them to the text-mode memory at
//! `0xB8000` is the caller's.

use vstd::prelude::*;

use vstd::string::StringSliceAdditionalSpecFns;

verus! {

/// Physical address of the text-mode memory.
pub const VGA_PA: usize = 0xB8000;

pub const VGA_WIDTH: usize = 80;
pub const VGA_HEIGHT: usize = 25;

/// Light green on black.
pub const VGA_ATTR: u8 = 0x0A;

/// Bytes of the cell memory: a character and an attribute per cell.
pub const VGA_BYTES: usize = 4000;

/// The console: its cells and its cursor (a cell index; one past the last
/// row means the next character scrolls).
#[verifier::ext_equal]
pub struct VgaView {
    pub cells: Seq<u8>,
    pub cursor: nat,
}

/// The screen moved up one row, the last row blank, the cursor at the
/// start of the last row.
pub open spec fn scroll_spec(v: VgaView) -> VgaView {
    VgaView {
        cells: Seq::new(
            VGA_BYTES as nat,
            |i: int|
                if i < (VGA_HEIGHT - 1) * VGA_WIDTH * 2 {
                    v.cells[i + VGA_WIDTH * 2]
                } else if i % 2 == 0 {
                    0x20u8
                } else {
                    VGA_ATTR
                },
        ),
        cursor: ((VGA_HEIGHT - 1) * VGA_WIDTH) as nat,
    }
}

/// A newline: the cursor to the start of the next row, scrolling past the
/// last row.
pub open spec fn newline_spec(v: VgaView) -> VgaView {
    let next: int = v.cursor + (VGA_WIDTH - (v.cursor as int) % (VGA_WIDTH as int));
    let v2 = VgaView { cursor: next as nat, ..v };
    if next / (VGA_WIDTH as int) >= VGA_HEIGHT {
        scroll_spec(v2)
    } else {
        v2
    }
}

/// One byte: a newline, or a character at the cursor. A character that
/// falls below the last row is dropped and the screen scrolls instead.
pub open spec fn write_byte_spec(v: VgaView, b: u8) -> VgaView {
    if b == 0x0a {
        newline_spec(v)
    } else {
        let pos = v.cursor as int;
        let advanced = VgaView { cursor: (pos + 1) as nat, ..v };
        if pos / (VGA_WIDTH as int) >= VGA_HEIGHT {
            scroll_spec(advanced)
        } else {
            VgaView {
                cells: v.cells.update(pos * 2, b).update(pos * 2 + 1, VGA_ATTR),
                cursor: (pos + 1) as nat,
            }
        }
    }
}

/// The console after the bytes of `s` from position `i` on.
pub open spec fn print_from(v: VgaView, s: Seq<u8>, i: int) -> VgaView
    decreases s.len() - i,
{
    if i < 0 || i >= s.len() {
        v
    } else {
        print_from(write_byte_spec(v, s[i]), s, i + 1)
    }
}

pub open spec fn print_spec(v: VgaView, s: Seq<u8>) -> VgaView {
    print_from(v, s, 0)
}

pub open spec fn println_spec(v: VgaView, s: Seq<u8>) -> VgaView {
    newline_spec(print_spec(v, s))
}

/// A blank screen with the cursor at the top left.
pub open spec fn clear_spec() -> VgaView {
    VgaView {
        cells: Seq::new(VGA_BYTES as nat, |i: int| if i % 2 == 0 { 0x20u8 } else { VGA_ATTR }),
        cursor: 0,
    }
}

/// The text console.
pub struct VgaText {
    pub cells: Vec<u8>,
    pub cursor: usize,
}

impl View for VgaText {
    type V = VgaView;

    open spec fn view(&self) -> VgaView {
        VgaView { cells: self.cells@, cursor: self.cursor as nat }
    }
}

/// The cursor never goes past one row below the screen.
pub open spec fn vga_wf(v: VgaView) -> bool {
    v.cells.len() == VGA_BYTES && v.cursor <= VGA_WIDTH * VGA_HEIGHT
}

/// Every operation keeps the console well formed.
pub proof fn lemma_write_byte_wf(v: VgaView, b: u8)
    requires
        vga_wf(v),
    ensures
        vga_wf(write_byte_spec(v, b)),
{
}

/// Printing any bytes keeps the console well formed: the cursor never
/// leaves the screen.
pub proof fn lemma_print_wf(v: VgaView, s: Seq<u8>, i: int)
    requires
        vga_wf(v),
    ensures
        vga_wf(print_from(v, s, i)),
    decreases s.len() - i,
{
    if 0 <= i < s.len() {
        lemma_write_byte_wf(v, s[i]);
        lemma_print_wf(write_byte_spec(v, s[i]), s, i + 1);
    }
}

impl VgaText {
    pub open spec fn wf(&self) -> bool {
        vga_wf(self@)
    }

    /// A console with zeroed cells and the cursor at the top left.
    pub fn new() -> (t: VgaText)
        ensures
            t.wf(),
            t@.cursor == 0,
    {
        let mut cells: Vec<u8> = Vec::new();
        let mut i: usize = 0;
        while i < VGA_BYTES
            invariant
                0 <= i <= VGA_BYTES,
                cells@.len() == i,
            decreases VGA_BYTES - i,
        {
            cells.push(0);
            i = i + 1;
        }
        VgaText { cells, cursor: 0 }
    }

    /// Moves the screen up one row.
    pub fn vga_scroll(&mut self)
        requires
            old(self).cells@.len() == VGA_BYTES,
        ensures
            final(self)@ == scroll_spec(old(self)@),
            final(self).wf(),
    {
        let ghost c0 = self.cells@;
        let mut i: usize = 0;
        let last = (VGA_HEIGHT - 1) * VGA_WIDTH * 2;
        while i < last
            invariant
                last == 3840,
                0 <= i <= last,
                self.cells@.len() == VGA_BYTES,
                c0.len() == VGA_BYTES,
                forall|k: int|
                    0 <= k < VGA_BYTES ==> #[trigger] self.cells@[k] == if k < i {
                        c0[k + 160]
                    } else {
                        c0[k]
                    },
            decreases last - i,
        {
            let c = self.cells[i + VGA_WIDTH * 2];
            self.cells.set(i, c);
            i = i + 1;
        }
        while i < VGA_BYTES
            invariant
                3840 <= i <= VGA_BYTES,
                self.cells@.len() == VGA_BYTES,
                c0.len() == VGA_BYTES,
                forall|k: int|
                    0 <= k < VGA_BYTES ==> #[trigger] self.cells@[k] == if k < 3840 {
                        c0[k + 160]
                    } else if k < i {
                        if k % 2 == 0 {
                            0x20u8
                        } else {
                            VGA_ATTR
                        }
                    } else {
                        c0[k]
                    },
            decreases VGA_BYTES - i,
        {
            let v = if i % 2 == 0 {
                0x20u8
            } else {
                VGA_ATTR
            };
            self.cells.set(i, v);
            i = i + 1;
        }
        self.cursor = (VGA_HEIGHT - 1) * VGA_WIDTH;
        proof {
            assert(self@ =~~= scroll_spec(old(self)@));
        }
    }

    /// Moves the cursor to the start of the next row.
    pub fn vga_newline(&mut self)
        requires
            old(self).wf(),
        ensures
            final(self)@ == newline_spec(old(self)@),
            final(self).wf(),
    {
        let col = self.cursor % VGA_WIDTH;
        self.cursor = self.cursor + (VGA_WIDTH - col);
        if self.cursor / VGA_WIDTH >= VGA_HEIGHT {
            self.vga_scroll();
        }
        proof {
            assert(self@ =~~= newline_spec(old(self)@));
        }
    }

    /// Writes one byte.
    pub fn vga_write_byte(&mut self, byte: u8)
        requires
            old(self).wf(),
        ensures
            final(self)@ == write_byte_spec(old(self)@, byte),
            final(self).wf(),
    {
        if byte == 0x0a {
            self.vga_newline();
            return;
        }
        let pos = self.cursor;
        self.cursor = pos + 1;
        let row = pos / VGA_WIDTH;
        if row >= VGA_HEIGHT {
            self.vga_scroll();
            return;
        }
        let col = pos % VGA_WIDTH;
        let idx = row * VGA_WIDTH + col;
        self.cells.set(idx * 2, byte);
        self.cells.set(idx * 2 + 1, VGA_ATTR);
        proof {
            assert(self@ =~~= write_byte_spec(old(self)@, byte));
        }
    }

    /// Writes the bytes of `s`.
    pub fn vga_print_bytes(&mut self, s: &[u8])
        requires
            old(self).wf(),
        ensures
            final(self)@ == print_spec(old(self)@, s@),
            final(self).wf(),
    {
        let mut i: usize = 0;
        while i < s.len()
            invariant
                self.wf(),
                0 <= i <= s@.len(),
                print_from(self@, s@, i as int) == print_spec(old(self)@, s@),
            decreases s@.len() - i,
        {
            self.vga_write_byte(s[i]);
            i = i + 1;
        }
    }

    /// Writes a string.
    pub fn vga_print(&mut self, s: &str)
        requires
            old(self).wf(),
        ensures
            final(self)@ == print_spec(old(self)@, s.spec_bytes()),
            final(self).wf(),
    {
        self.vga_print_bytes(s.as_bytes());
    }

    /// Writes a string and a newline.
    pub fn vga_println(&mut self, s: &str)
        requires
            old(self).wf(),
        ensures
            final(self)@ == println_spec(old(self)@, s.spec_bytes()),
            final(self).wf(),
    {
        self.vga_print(s);
        self.vga_newline();
    }

    /// Blanks the screen and puts the cursor at the top left.
    pub fn vga_clear(&mut self)
        requires
            old(self).wf(),
        ensures
            final(self)@ == clear_spec(),
            final(self).wf(),
    {
        let mut i: usize = 0;
        while i < VGA_BYTES
            invariant
                0 <= i <= VGA_BYTES,
                self.cells@.len() == VGA_BYTES,
                forall|k: int|
                    0 <= k < i ==> #[trigger] self.cells@[k] == if k % 2 == 0 {
                        0x20u8
                    } else {
                        VGA_ATTR
                    },
            decreases VGA_BYTES - i,
        {
            let v = if i % 2 == 0 {
                0x20u8
            } else {
                VGA_ATTR
            };
            self.cells.set(i, v);
            i = i + 1;
        }
        self.cursor = 0;
        proof {
            assert(self@ =~~= clear_spec());
        }
    }

    /// Clears the screen and prints the boot banner.
    pub fn print_banner(&mut self)
        requires
            old(self).wf(),
        ensures
            final(self).wf(),
            final(self)@ == println_spec(
                println_spec(
                    println_spec(
                        println_spec(
                            println_spec(
                                println_spec(
                                    println_spec(
                                        println_spec(
                                            println_spec(
                                                println_spec(
                                                    println_spec(
                                                        println_spec(
                                                            println_spec(
                                                                clear_spec(),
                                                                "".spec_bytes(),
                                                            ),
                                                            "    ___   _______  _  _______  __   _______  __".spec_bytes(),
                                                        ),
                                                        "   / _ | / __/ _ \\/ \\/ / ___/ / /  / __/ _ \\/ /".spec_bytes(),
                                                    ),
                                                    "  / __ |/ _// , _/\\  / /__/ -_) /__/ _// , _/ /__".spec_bytes(),
                                                ),
                                                " /_/ |_/___/_/|_| /_/\\___/\\__/____/___/_/|_|/____/".spec_bytes(),
                                            ),
                                            "".spec_bytes(),
                                        ),
                                        "         kei \u{2014} Asterinas ARM64 Fork".spec_bytes(),
                                    ),
                                    "".spec_bytes(),
                                ),
                                "  Kernel booted on x86_64 QEMU.".spec_bytes(),
                            ),
                            "  ostd framework: 100% initialized".spec_bytes(),
                        ),
                        "  Display: VGA text mode (80x25)".spec_bytes(),
                    ),
                    "".spec_bytes(),
                ),
                "  Component init: in progress...".spec_bytes(),
            ),
    {
        self.vga_clear();
        self.vga_println("");
        self.vga_println("    ___   _______  _  _______  __   _______  __");
        self.vga_println("   / _ | / __/ _ \\/ \\/ / ___/ / /  / __/ _ \\/ /");
        self.vga_println("  / __ |/ _// , _/\\  / /__/ -_) /__/ _// , _/ /__");
        self.vga_println(" /_/ |_/___/_/|_| /_/\\___/\\__/____/___/_/|_|/____/");
        self.vga_println("");
        self.vga_println("         kei \u{2014} Asterinas ARM64 Fork");
        self.vga_println("");
        self.vga_println("  Kernel booted on x86_64 QEMU.");
        self.vga_println("  ostd framework: 100% initialized");
        self.vga_println("  Display: VGA text mode (80x25)");
        self.vga_println("");
        self.vga_println("  Component init: in progress...");
    }
}

} // verus!
