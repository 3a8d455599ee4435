//! The display surface, the key input state and the square-wave clock, each
//! exercised directly.

use chip8::display::Renderer;
use chip8::keyboard::Keyboard;
use chip8::wave::SquareWave;

#[test]
fn set_pixel_toggles_and_reports_collisions() {
    let mut r = Renderer::new();
    assert_eq!(r.pixel(3, 7), 0);
    assert!(!r.set_pixel(3, 7));
    assert_eq!(r.pixel(3, 7), 1);
    assert!(r.set_pixel(3, 7));
    assert_eq!(r.pixel(3, 7), 0);
}

#[test]
fn set_pixel_wraps_around_the_grid() {
    let mut r = Renderer::new();
    r.set_pixel(64 + 1, 32 + 2);
    assert_eq!(r.pixel(1, 2), 1);
}

#[test]
fn plot_sprite_draws_rows_with_msb_leftmost() {
    let mut r = Renderer::new();
    let coll = r.plot_sprite(2, 3, &[0b1010_0001]);
    assert!(!coll);
    assert_eq!(r.pixel(2, 3), 1);
    assert_eq!(r.pixel(3, 3), 0);
    assert_eq!(r.pixel(4, 3), 1);
    assert_eq!(r.pixel(9, 3), 1);
    assert_eq!(r.pixel(10, 3), 0);
}

#[test]
fn plot_sprite_wraps_and_collides() {
    let mut r = Renderer::new();
    r.plot_sprite(62, 31, &[0b1100_0000]);
    assert_eq!(r.pixel(62, 31), 1);
    assert_eq!(r.pixel(63, 31), 1);
    let coll = r.plot_sprite(63, 31, &[0b1000_0000]);
    assert!(coll);
    assert_eq!(r.pixel(63, 31), 0);
}

#[test]
fn clear_blanks_every_cell() {
    let mut r = Renderer::new();
    r.set_pixel(0, 0);
    r.set_pixel(63, 31);
    r.clear();
    assert_eq!(r.pixel(0, 0), 0);
    assert_eq!(r.pixel(63, 31), 0);
}

#[test]
fn draw_maps_cells_to_rgba_pixels() {
    let mut r = Renderer::new();
    r.set_pixel(0, 0);
    r.set_pixel(2, 1);
    let mut frame = vec![0u8; 64 * 32 * 4];
    r.draw(&mut frame);
    assert_eq!(&frame[0..4], &[0xFF, 0xFF, 0xFF, 0xFF]);
    assert_eq!(&frame[4..8], &[0, 0, 0, 0xFF]);
    let idx = 4 * (64 + 2);
    assert_eq!(&frame[idx..idx + 4], &[0xFF, 0xFF, 0xFF, 0xFF]);
}

#[test]
fn keys_go_down_and_up() {
    let mut k = Keyboard::new();
    assert!(!k.is_pressed(4));
    k.key_down(4);
    k.key_down(0xF);
    assert!(k.is_pressed(4));
    assert!(k.is_pressed(0xF));
    assert!(!k.is_pressed(5));
    k.key_up(4);
    assert!(!k.is_pressed(4));
    assert!(k.is_pressed(0xF));
}

#[test]
fn first_key_after_registration_is_delivered() {
    let mut k = Keyboard::new();
    k.key_down(2);
    assert!(!k.has_delivery());
    k.set_callback();
    assert!(!k.has_delivery());
    k.key_down(7);
    assert!(k.has_delivery());
    assert_eq!(k.take_delivered(), Some(7));
    assert!(!k.has_delivery());
    k.key_down(3);
    assert!(!k.has_delivery());
}

#[test]
fn a_new_registration_supersedes_the_old_one() {
    let mut k = Keyboard::new();
    k.set_callback();
    k.key_down(1);
    k.set_callback();
    assert!(!k.has_delivery());
    k.key_down(2);
    assert_eq!(k.take_delivered(), Some(2));
}

#[test]
fn square_wave_alternates_halves() {
    let mut w = SquareWave::new(24000);
    assert!(w.advance());
    assert!(!w.advance());
    assert!(w.advance());
}

#[test]
fn square_wave_at_the_sample_rate_stays_high() {
    let mut w = SquareWave::new(48000);
    assert!(w.advance());
    assert!(w.advance());
}
