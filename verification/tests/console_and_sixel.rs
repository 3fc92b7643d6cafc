use kei::fb_console::{
    apply_sgr, font8x8_glyph, FbConsole, Surface, BG_COLOR, CHAR_H, COLS, FG_COLOR, ROWS,
};
use kei::fb_console_sixel::{console_sixel_extent, decode_sixel};
use kei::pixel::Pixel;
use kei::sixel::{decodable, decode, default_palette};
use kei::sixel_grid::{ensure_grid_size, parse_params, write_sixel_column};
use kei::vga_text::{VgaText, VGA_ATTR, VGA_BYTES, VGA_HEIGHT, VGA_WIDTH};

/// A font where every glyph is blank but `A`, whose glyph lights the
/// leftmost column.
fn test_font() -> Vec<[u8; 8]> {
    let mut font = vec![[0u8; 8]; 96];
    font[(b'A' - 0x20) as usize] = [0x01; 8];
    font[(b'.' - 0x20) as usize] = [0x80; 8];
    font
}

fn surface() -> Surface {
    let width = COLS * 8;
    Surface { rows: vec![vec![0u32; width]; ROWS * CHAR_H], width }
}

fn console() -> FbConsole {
    FbConsole::new(Some(surface()), test_font())
}

fn px(c: &FbConsole, x: usize, y: usize) -> u32 {
    c.surface.as_ref().unwrap().rows[y][x]
}

#[test]
fn sgr_codes_select_colours() {
    assert_eq!(apply_sgr(1, 31), 0xFFE0_6C75);
    assert_eq!(apply_sgr(1, 0), FG_COLOR);
    assert_eq!(apply_sgr(1, 39), FG_COLOR);
    assert_eq!(apply_sgr(1, 96), 0xFF56_B6C2);
    assert_eq!(apply_sgr(7, 1), 7);
}

#[test]
fn glyph_lookup() {
    let font = test_font();
    assert_eq!(font8x8_glyph(&font, b'A'), [0x01; 8]);
    assert_eq!(font8x8_glyph(&font, 0x10), [0; 8]);
    assert_eq!(font8x8_glyph(&font, 0xC0), [0; 8]);
}

#[test]
fn printing_draws_and_advances() {
    let mut c = console();
    c.print_str("A");
    assert_eq!((c.col, c.row), (1, 0));
    assert_eq!(px(&c, 0, 0), FG_COLOR);
    assert_eq!(px(&c, 1, 0), BG_COLOR);
    assert_eq!(px(&c, 0, 7), FG_COLOR);
    assert_eq!(px(&c, 0, 8), 0);
    c.print_str("\x1b[31mA");
    assert_eq!(c.fg, 0xFFE0_6C75);
    assert_eq!(px(&c, 8, 0), 0xFFE0_6C75);
    c.print_str("\x1b[0m\r");
    assert_eq!((c.col, c.fg), (0, FG_COLOR));
    c.print_str("\x01");
    assert_eq!(px(&c, 7, 0), FG_COLOR);
}

#[test]
fn sgr_first_parameter_selects_colour() {
    let mut c = console();
    c.print_str("\x1b[31;1mA");
    assert_eq!(c.fg, 0xFFE0_6C75);
    assert_eq!(px(&c, 0, 0), 0xFFE0_6C75);
    assert_eq!((c.col, c.row), (1, 0));
    c.print_str("\x1b[94;1;4mA");
    assert_eq!(c.fg, 0xFF61_AFEF);
    assert_eq!(px(&c, 8, 0), 0xFF61_AFEF);
    c.print_str("\x1b[;31mA");
    assert_eq!(c.fg, FG_COLOR);
    assert_eq!(px(&c, 16, 0), FG_COLOR);
    c.print_str("\x1b[5;31mA");
    assert_eq!(c.fg, FG_COLOR);
}

#[test]
fn decoder_preconditions_are_checked() {
    assert!(decodable(b"#1;2;100;0;0~~"));
    assert!(decodable(b"\"1;1;4;4!3~-@"));
    assert!(!decodable(b"#1;2;16843010;0;0~"));
    assert!(decodable(b"#1;2;16843009;0;0~"));
    assert_eq!(console_sixel_extent(b"#1~~"), Some((2, 6)));
    assert_eq!(console_sixel_extent(b"~-!3~"), Some((3, 12)));
    assert_eq!(console_sixel_extent(b"$-"), Some((0, 0)));
    assert_eq!(console_sixel_extent(b"#300~"), None);
    assert_eq!(console_sixel_extent(b"#300!2~"), Some((2, 6)));
    assert_eq!(console_sixel_extent(b"#0;2;16843010;0;0"), None);
}

#[test]
fn printing_checks_for_faults_first() {
    let mut c = console();
    assert!(!c.print_faults(b"A\x1bPq#1~\x1b\\"));
    assert!(c.print_faults(b"A\x1bPq#300~\x1b\\"));
    assert!(!c.try_print_str("B\x1bPq#300~\x1b\\"));
    assert_eq!((c.col, c.row, c.fg), (0, 0, FG_COLOR));
    assert_eq!(px(&c, 0, 0), 0);
    assert!(c.try_print_str("\x1b[32mA"));
    assert_eq!((c.col, c.fg), (1, 0xFF98_C379));
    assert_eq!(px(&c, 0, 0), 0xFF98_C379);
}

#[test]
fn decoders_agree_on_common_data() {
    for data in [&b"#1;2;100;0;0~~-#2!3~$#0@"[..], &b"#3!4~-#15;2;10;20;30N"[..], &b"$-"[..]] {
        let img = decode(data);
        let console = decode_sixel(data);
        assert_eq!(img.is_some(), console.is_some());
        if let (Some(img), Some((w, h, pixels))) = (img, console) {
            assert_eq!((w, h), (img.width, img.height));
            for (q, p) in img.pixels.iter().zip(pixels.iter()) {
                let word = 0xFF00_0000u32 | (q.red as u32) << 16 | (q.green as u32) << 8 | q.blue as u32;
                assert_eq!(*p, word);
            }
        }
    }
}

#[test]
fn newline_scrolls_at_bottom() {
    let mut c = console();
    c.print_str("A");
    for _ in 0..(ROWS - 1) {
        c.print_str("\n");
    }
    assert_eq!((c.col, c.row), (0, ROWS - 1));
    assert_eq!(px(&c, 0, 0), FG_COLOR);
    c.println("");
    assert_eq!(c.row, ROWS - 1);
    assert_eq!(px(&c, 0, 0), 0);
    let last = ROWS * CHAR_H - 1;
    assert_eq!(px(&c, 3, last), BG_COLOR);
}

#[test]
fn printing_without_surface_moves_cursor() {
    let mut c = FbConsole::new(None, test_font());
    c.print_str("AA\nA");
    assert_eq!((c.col, c.row), (1, 1));
    c.print_str_color("AB", 0x1234);
    assert_eq!(c.col, 3);
    assert!(c.flush);
}

#[test]
fn colour_print_and_draw_char() {
    let mut c = console();
    c.print_str_color("A", 0xFF00_FF00);
    assert_eq!(px(&c, 0, 0), 0xFF00_FF00);
    assert_eq!(c.fg, FG_COLOR);
    c.draw_char(b'A', 5, 2);
    assert_eq!(px(&c, 40, 16), FG_COLOR);
    c.draw_char_color(b'A', 6, 2, 0xFF11_2233);
    assert_eq!(px(&c, 48, 23), 0xFF11_2233);
}

#[test]
fn init_clears_and_prints_banner() {
    let mut c = console();
    c.print_str("A");
    c.init();
    assert_eq!((c.col, c.row), (0, 3));
    assert_eq!(c.fg, FG_COLOR);
}

#[test]
fn sixel_in_dcs_is_rendered() {
    let mut c = console();
    c.print_str("\x1bPq#1~~\x1b\\");
    assert_eq!(px(&c, 0, 0), 0xFF33_33CC);
    assert_eq!(px(&c, 1, 5), 0xFF33_33CC);
    assert_eq!((c.col, c.row), (0, 1));
    assert!(c.flush);
}

#[test]
fn sixel_decode_palette_colour() {
    let img = decode(b"#2~~").unwrap();
    assert_eq!((img.width, img.height), (2, 6));
    let red = Pixel { red: 204, green: 51, blue: 51 };
    assert!(img.pixels.iter().all(|p| *p == red));
}

#[test]
fn sixel_decode_raster_and_defined_colour() {
    let img = decode(b"\"1;1;3;2#1@").unwrap();
    assert_eq!((img.width, img.height), (3, 2));
    let blue = Pixel { red: 51, green: 51, blue: 204 };
    let black = Pixel { red: 0, green: 0, blue: 0 };
    assert_eq!(img.pixels, vec![blue, black, black, black, black, black]);
    let img = decode(b"#5;2;100;0;50!3B").unwrap();
    assert_eq!((img.width, img.height), (3, 6));
    let defined = Pixel { red: 255, green: 0, blue: 127 };
    assert_eq!(img.pixels[0], defined);
    assert_eq!(img.pixels[2], defined);
    assert_eq!(img.pixels[3 + 1], defined);
    assert_eq!(img.pixels[3 * 2 + 2], black);
    assert!(decode(b"").is_none());
    assert!(decode(b"$-").is_none());
}

#[test]
fn sixel_newline_moves_down() {
    let img = decode(b"@-@").unwrap();
    assert_eq!((img.width, img.height), (1, 12));
    let black = Pixel { red: 0, green: 0, blue: 0 };
    assert_eq!(img.pixels[0], black);
    assert_eq!(img.pixels[6], black);
    assert_eq!(default_palette()[15], Pixel { red: 255, green: 255, blue: 255 });
}

#[test]
fn console_sixel_decode() {
    let (w, h, pixels) = decode_sixel(b"#1~").unwrap();
    assert_eq!((w, h), (1, 6));
    assert!(pixels.iter().all(|p| *p == 0xFF33_33CC));
    let (w, h, pixels) = decode_sixel(b"#3;2;0;100;0!2~").unwrap();
    assert_eq!((w, h), (2, 6));
    assert_eq!(pixels[0], 0xFF00_FF00);
    assert!(decode_sixel(b"").is_none());
}

#[test]
fn sixel_repeat_equals_written_out() {
    let a = decode_sixel(b"#2!4~").unwrap();
    let b = decode_sixel(b"#2~~~~").unwrap();
    assert_eq!(a, b);
    let c = decode(b"#4!2o").unwrap();
    let d = decode(b"#4oo").unwrap();
    assert_eq!((c.width, c.height, c.pixels), (d.width, d.height, d.pixels));
}

#[test]
fn sixel_grid_helpers() {
    assert_eq!(parse_params(b"12;3x", 0), (vec![12, 3], 4));
    assert_eq!(parse_params(b"#12;;5", 1), (vec![12, 0, 5], 6));
    assert_eq!(parse_params(b"q", 0), (vec![], 0));
    let mut grid: Vec<Vec<u8>> = Vec::new();
    let (mut gw, mut gh) = (0usize, 0usize);
    ensure_grid_size(&mut grid, &mut gw, &mut gh, 2, 6, 0u8);
    assert_eq!((gw, gh, grid.len(), grid[5].len()), (2, 6, 6, 2));
    write_sixel_column(&mut grid, gw, 1, 0, 0b000101, 9u8);
    assert_eq!(grid[0], vec![0, 9]);
    assert_eq!(grid[1], vec![0, 0]);
    assert_eq!(grid[2], vec![0, 9]);
    write_sixel_column(&mut grid, gw, 5, 0, 0b1, 7u8);
    assert_eq!(grid[0], vec![0, 9]);
}

#[test]
fn vga_text_writes_and_scrolls() {
    let mut v = VgaText::new();
    assert_eq!(v.cells.len(), VGA_BYTES);
    v.vga_print("hi\n");
    assert_eq!(&v.cells[0..4], &[b'h', VGA_ATTR, b'i', VGA_ATTR]);
    assert_eq!(v.cursor, VGA_WIDTH);
    for _ in 0..VGA_HEIGHT {
        v.vga_println("x");
    }
    assert_eq!(v.cursor, (VGA_HEIGHT - 1) * VGA_WIDTH);
    assert_eq!(v.cells[0], b'x');
    v.vga_clear();
    assert_eq!(v.cursor, 0);
    assert_eq!(&v.cells[0..2], &[b' ', VGA_ATTR]);
}
