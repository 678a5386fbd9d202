use chip8::display::{Framebuffer, Sprite};
use chip8::emulator::Emulator;
use chip8::fault::Fault;
use chip8::keypad::Keypad;

fn lit_pixels(screen: &Framebuffer) -> Vec<(u8, u8)> {
    let mut lit = Vec::new();
    for y in 0..32u8 {
        for x in 0..64u8 {
            if screen.pixel(x, y) {
                lit.push((x, y));
            }
        }
    }
    lit
}

fn loaded(program: &[u8]) -> Emulator {
    let mut emulator = Emulator::default();
    assert_eq!(emulator.load_rom(program), Ok(()));
    emulator
}

fn cycles(emulator: &mut Emulator, count: usize) {
    let keys = Keypad::new();
    for _ in 0..count {
        assert_eq!(emulator.step(&keys), Ok(()));
    }
}

#[test]
fn new_screen_is_dark() {
    let screen = Framebuffer::new();
    assert!(lit_pixels(&screen).is_empty());
    assert_eq!(screen.to_buffer(), vec![0u32; 2048]);
}

#[test]
fn draw_lights_the_sprite_bits() {
    let mut screen = Framebuffer::new();
    let sprite = Sprite { x: 10, y: 5, content: vec![0b1010_0001, 0b0100_0000] };
    assert!(!screen.draw(&sprite));
    assert_eq!(lit_pixels(&screen), vec![(10, 5), (12, 5), (17, 5), (11, 6)]);
}

#[test]
fn draw_twice_restores_the_screen_and_collides() {
    let mut screen = Framebuffer::new();
    let background = Sprite { x: 3, y: 2, content: vec![0xFF, 0x81, 0xFF] };
    assert!(!screen.draw(&background));
    let before = screen.to_buffer();
    let sprite = Sprite { x: 20, y: 10, content: vec![0xF0, 0x90, 0x90, 0x90, 0xF0] };
    assert!(!screen.draw(&sprite));
    assert_ne!(screen.to_buffer(), before);
    assert!(screen.draw(&sprite));
    assert_eq!(screen.to_buffer(), before);
}

#[test]
fn second_draw_of_an_empty_sprite_does_not_collide() {
    let mut screen = Framebuffer::new();
    let sprite = Sprite { x: 20, y: 10, content: vec![0x00, 0x00] };
    assert!(!screen.draw(&sprite));
    assert!(!screen.draw(&sprite));
    assert!(lit_pixels(&screen).is_empty());
}

#[test]
fn second_draw_over_lit_pixels_only_does_not_collide() {
    // the first draw erases what the sprite covers, so the second meets dark pixels
    let mut screen = Framebuffer::new();
    let sprite = Sprite { x: 0, y: 0, content: vec![0xFF] };
    assert!(!screen.draw(&sprite));
    assert!(screen.draw(&sprite));
    assert!(!screen.draw(&sprite));
    assert!(screen.draw(&sprite));
}

#[test]
fn one_shared_pixel_is_a_collision() {
    let mut screen = Framebuffer::new();
    assert!(!screen.draw(&Sprite { x: 8, y: 8, content: vec![0x01] }));
    assert!(screen.draw(&Sprite { x: 15, y: 8, content: vec![0xC0] }));
    assert_eq!(lit_pixels(&screen), vec![(16, 8)]);
}

#[test]
fn neighbours_do_not_collide() {
    let mut screen = Framebuffer::new();
    assert!(!screen.draw(&Sprite { x: 8, y: 8, content: vec![0xFF] }));
    assert!(!screen.draw(&Sprite { x: 16, y: 8, content: vec![0xFF] }));
    assert!(!screen.draw(&Sprite { x: 8, y: 9, content: vec![0xFF] }));
    assert_eq!(lit_pixels(&screen).len(), 24);
}

#[test]
fn sprite_in_the_last_column_wraps_to_column_zero() {
    let mut screen = Framebuffer::new();
    let sprite = Sprite { x: 63, y: 4, content: vec![0b1100_0000] };
    assert!(!screen.draw(&sprite));
    assert_eq!(lit_pixels(&screen), vec![(0, 4), (63, 4)]);
}

#[test]
fn sprite_wraps_all_eight_columns() {
    let mut screen = Framebuffer::new();
    let sprite = Sprite { x: 60, y: 0, content: vec![0xFF] };
    assert!(!screen.draw(&sprite));
    assert_eq!(
        lit_pixels(&screen),
        vec![(0, 0), (1, 0), (2, 0), (3, 0), (60, 0), (61, 0), (62, 0), (63, 0)]
    );
}

#[test]
fn sprite_in_the_last_row_wraps_to_row_zero() {
    let mut screen = Framebuffer::new();
    let sprite = Sprite { x: 8, y: 31, content: vec![0x80, 0x40, 0x20] };
    assert!(!screen.draw(&sprite));
    assert_eq!(lit_pixels(&screen), vec![(9, 0), (10, 1), (8, 31)]);
}

#[test]
fn coordinates_beyond_the_screen_wrap() {
    let mut far = Framebuffer::new();
    assert!(!far.draw(&Sprite { x: 64 * 3 + 5, y: 32 * 7 + 9, content: vec![0xA5, 0x5A] }));
    let mut near = Framebuffer::new();
    assert!(!near.draw(&Sprite { x: 5, y: 9, content: vec![0xA5, 0x5A] }));
    assert_eq!(far.to_buffer(), near.to_buffer());
}

#[test]
fn tallest_sprite_is_drawn_whole() {
    let mut screen = Framebuffer::new();
    let sprite = Sprite { x: 0, y: 20, content: vec![0x80; 15] };
    assert!(!screen.draw(&sprite));
    let lit = lit_pixels(&screen);
    assert_eq!(lit.len(), 15);
    assert!(lit.contains(&(0, 31)));
    assert!(lit.contains(&(0, 0)));
    assert!(lit.contains(&(0, 2)));
    assert!(!lit.contains(&(0, 3)));
}

#[test]
fn pixel_reads_wrapped_coordinates() {
    let mut screen = Framebuffer::new();
    assert!(!screen.draw(&Sprite { x: 1, y: 2, content: vec![0x80] }));
    assert!(screen.pixel(1, 2));
    assert!(screen.pixel(65, 34));
    assert!(screen.pixel(1 + 192, 2 + 224));
    assert!(!screen.pixel(2, 2));
}

#[test]
fn buffer_is_row_major_with_one_value_per_pixel() {
    let mut screen = Framebuffer::new();
    assert!(!screen.draw(&Sprite { x: 0, y: 0, content: vec![0x80] }));
    assert!(!screen.draw(&Sprite { x: 56, y: 1, content: vec![0x01] }));
    assert!(!screen.draw(&Sprite { x: 9, y: 31, content: vec![0x80] }));
    let buffer = screen.to_buffer();
    assert_eq!(buffer.len(), 2048);
    for (i, value) in buffer.iter().enumerate() {
        let expected = if i == 0 || i == 64 + 63 || i == 31 * 64 + 9 { 0xFFFF } else { 0 };
        assert_eq!(*value, expected);
    }
}

#[test]
fn load_sprite_sets_the_flag_register() {
    let mut emulator = Emulator::default();
    emulator.load_sprite(Sprite { x: 0, y: 0, content: vec![0xF0] });
    assert_eq!(emulator.registers()[0xF], 0);
    emulator.load_sprite(Sprite { x: 3, y: 0, content: vec![0x80] });
    assert_eq!(emulator.registers()[0xF], 1);
    emulator.load_sprite(Sprite { x: 30, y: 0, content: vec![0x80] });
    assert_eq!(emulator.registers()[0xF], 0);
    assert_eq!(lit_pixels(emulator.display()), vec![(0, 0), (1, 0), (2, 0), (30, 0)]);
    assert_eq!(emulator.pc(), 0x200);
}

#[test]
fn draw_instruction_draws_a_font_glyph() {
    // V0 := 7; I := glyph 7; V1 := 10; V2 := 3; draw 5 rows at (V1, V2)
    let mut emulator = loaded(&[0x60, 0x07, 0xF0, 0x29, 0x61, 0x0A, 0x62, 0x03, 0xD1, 0x25]);
    cycles(&mut emulator, 5);
    assert_eq!(emulator.pc(), 0x20A);
    assert_eq!(emulator.registers()[0xF], 0);
    assert_eq!(
        lit_pixels(emulator.display()),
        vec![(10, 3), (11, 3), (12, 3), (13, 3), (13, 4), (12, 5), (11, 6), (11, 7)]
    );
    let buffer = emulator.convert_display_to_buffer();
    assert_eq!(buffer.len(), 2048);
    assert_eq!(buffer[3 * 64 + 10], 0xFFFF);
    assert_eq!(buffer[3 * 64 + 14], 0);
    assert_eq!(buffer.iter().filter(|value| **value == 0xFFFF).count(), 8);
}

#[test]
fn draw_instruction_twice_restores_and_reports_the_collision() {
    let program = [0x60, 0x0B, 0xF0, 0x29, 0x61, 0x3E, 0x62, 0x1E, 0xD1, 0x25, 0xD1, 0x25];
    let mut emulator = loaded(&program);
    cycles(&mut emulator, 5);
    assert_eq!(emulator.registers()[0xF], 0);
    assert!(!lit_pixels(emulator.display()).is_empty());
    cycles(&mut emulator, 1);
    assert_eq!(emulator.registers()[0xF], 1);
    assert!(lit_pixels(emulator.display()).is_empty());
}

#[test]
fn draw_instruction_wraps_at_the_right_edge() {
    // I := 0x20A, where one row 0xC0 lies; V1 := 63; V2 := 0; draw 1 row
    let program = [0xA2, 0x0A, 0x61, 0x3F, 0x62, 0x00, 0xD1, 0x21, 0x00, 0x00, 0xC0];
    let mut emulator = loaded(&program);
    cycles(&mut emulator, 4);
    assert_eq!(lit_pixels(emulator.display()), vec![(0, 0), (63, 0)]);
    assert_eq!(emulator.registers()[0xF], 0);
}

#[test]
fn draw_instruction_reads_positions_before_it_writes_the_flag() {
    // VF := 4 is the x position; the draw then clears VF
    let mut emulator = loaded(&[0x6F, 0x04, 0x60, 0x00, 0xF0, 0x29, 0x62, 0x00, 0xDF, 0x21]);
    cycles(&mut emulator, 5);
    assert_eq!(emulator.registers()[0xF], 0);
    assert_eq!(lit_pixels(emulator.display()), vec![(4, 0), (5, 0), (6, 0), (7, 0)]);
}

#[test]
fn draw_of_no_rows_changes_nothing_but_the_flag() {
    let mut emulator = loaded(&[0x6F, 0x09, 0xAF, 0xFF, 0xD0, 0x00]);
    cycles(&mut emulator, 3);
    assert_eq!(emulator.registers()[0xF], 0);
    assert!(lit_pixels(emulator.display()).is_empty());
    assert_eq!(emulator.pc(), 0x206);
}

#[test]
fn sprite_read_past_the_end_of_memory_is_fatal() {
    let mut emulator = loaded(&[0x6F, 0x09, 0xAF, 0xFF, 0xD0, 0x02]);
    cycles(&mut emulator, 2);
    let keys = Keypad::new();
    assert_eq!(emulator.step(&keys), Err(Fault::OutOfRange { address: 0x1000 }));
    assert_eq!(emulator.registers()[0xF], 9);
    assert_eq!(emulator.pc(), 0x204);
    assert!(lit_pixels(emulator.display()).is_empty());
}

#[test]
fn sprite_read_up_to_the_last_byte() {
    let mut program = vec![0u8; 0xE00];
    program[0] = 0xAF;
    program[1] = 0xFF;
    program[2] = 0xD0;
    program[3] = 0x01;
    program[0xDFF] = 0x81;
    let mut emulator = loaded(&program);
    cycles(&mut emulator, 2);
    assert_eq!(lit_pixels(emulator.display()), vec![(0, 0), (7, 0)]);
}
