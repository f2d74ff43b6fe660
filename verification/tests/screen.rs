use chippy::screen::{Screen, ScreenUpdate};

fn pixels(screen: &Screen) -> Vec<bool> {
    let mut frame = vec![0x55u8; 64 * 32 * 4];
    screen.draw(&mut frame);
    frame
        .chunks(4)
        .map(|pixel| {
            if pixel == [0x00, 0xCC, 0x00, 0xFF] {
                true
            } else {
                assert_eq!(pixel, [0x00, 0x00, 0x00, 0xFF]);
                false
            }
        })
        .collect()
}

fn set_pixels(screen: &Screen) -> Vec<(usize, usize)> {
    let mut set = vec![];
    for (i, on) in pixels(screen).into_iter().enumerate() {
        if on {
            set.push((i % 64, i / 64));
        }
    }
    set
}

fn sprite(bytes: &[u8], x: usize, y: usize) -> ScreenUpdate {
    ScreenUpdate::Draw { bytes: bytes.to_vec(), coords: (x, y) }
}

#[test]
fn new_screen_is_blank() {
    assert!(set_pixels(&Screen::new()).is_empty());
    assert_eq!(Screen::WIDTH, 64);
    assert_eq!(Screen::HEIGHT, 32);
    assert_eq!(Screen::COLOR, [0x00, 0xCC, 0x00, 0xFF]);
}

#[test]
fn draw_sets_the_pixels_under_the_set_bits() {
    let mut screen = Screen::new();
    assert_eq!(screen.update(&sprite(&[0b1010_0001, 0b1000_0000], 3, 5)), Some(false));
    assert_eq!(set_pixels(&screen), vec![(3, 5), (5, 5), (10, 5), (3, 6)]);
}

#[test]
fn draw_wraps_around_both_edges() {
    let mut screen = Screen::new();
    assert_eq!(screen.update(&sprite(&[0xFF, 0x81], 60, 31)), Some(false));
    let mut expected = vec![(3, 0), (60, 0)];
    expected.extend([(0, 31), (1, 31), (2, 31), (3, 31), (60, 31), (61, 31), (62, 31), (63, 31)]);
    assert_eq!(set_pixels(&screen), expected);
}

#[test]
fn draw_takes_the_origin_modulo_the_screen() {
    let mut screen = Screen::new();
    assert_eq!(screen.update(&sprite(&[0x80], 64 + 7, 32 * 3 + 2)), Some(false));
    assert_eq!(set_pixels(&screen), vec![(7, 2)]);
    let mut far = Screen::new();
    assert_eq!(far.update(&sprite(&[0xC0], usize::MAX, usize::MAX)), Some(false));
    assert_eq!(set_pixels(&far), vec![(0, usize::MAX % 32), (usize::MAX % 64, usize::MAX % 32)]);
}

#[test]
fn drawing_twice_restores_the_screen() {
    let mut screen = Screen::new();
    screen.update(&sprite(&[0x3C, 0x42, 0x81], 10, 10));
    let before = pixels(&screen);
    let update = sprite(&[0xFF, 0x0F, 0xAA, 0x01], 8, 9);
    assert_eq!(screen.update(&update), Some(true));
    assert_ne!(pixels(&screen), before);
    screen.update(&update);
    assert_eq!(pixels(&screen), before);
}

#[test]
fn drawing_a_tall_sprite_twice_restores_the_screen() {
    let mut screen = Screen::new();
    screen.update(&sprite(&[0xF0], 0, 0));
    let before = pixels(&screen);
    let tall = sprite(&[0x80; 40], 0, 0);
    screen.update(&tall);
    screen.update(&tall);
    assert_eq!(pixels(&screen), before);
}

#[test]
fn collision_is_reported_exactly_when_a_set_pixel_is_unset() {
    let mut screen = Screen::new();
    assert_eq!(screen.update(&sprite(&[0xF0], 0, 0)), Some(false));
    // Lies beside the set pixels: no collision.
    assert_eq!(screen.update(&sprite(&[0x0F], 0, 0)), Some(false));
    // Lies over one set pixel: collision.
    assert_eq!(screen.update(&sprite(&[0x01], 0, 0)), Some(true));
    assert_eq!(set_pixels(&screen).len(), 7);
    // A sprite with no bit set never collides.
    assert_eq!(screen.update(&sprite(&[0x00, 0x00], 0, 0)), Some(false));
    // Neither does an empty sprite.
    assert_eq!(screen.update(&sprite(&[], 0, 0)), Some(false));
}

#[test]
fn drawing_into_an_unset_region_never_collides() {
    let mut screen = Screen::new();
    screen.update(&sprite(&[0xFF; 4], 0, 0));
    assert_eq!(screen.update(&sprite(&[0xFF; 15], 8, 0)), Some(false));
    assert_eq!(screen.update(&sprite(&[0xFF; 28], 0, 4)), Some(false));
}

#[test]
fn drawing_a_solid_sprite_into_a_set_region_collides() {
    let mut screen = Screen::new();
    screen.update(&sprite(&[0xFF; 8], 20, 20));
    assert_eq!(screen.update(&sprite(&[0xFF; 3], 20, 22)), Some(true));
}

#[test]
fn a_sprite_taller_than_the_screen_collides_with_itself() {
    let mut screen = Screen::new();
    assert_eq!(screen.update(&sprite(&[0x80; 33], 0, 0)), Some(true));
    assert_eq!(set_pixels(&screen).len(), 31);
}

#[test]
fn clear_unsets_every_pixel_and_reports_nothing() {
    let mut screen = Screen::new();
    screen.update(&sprite(&[0xFF, 0xFF], 1, 1));
    assert_eq!(screen.update(&ScreenUpdate::Clear), None);
    assert!(set_pixels(&screen).is_empty());
}

#[test]
fn render_leaves_the_bytes_behind_the_last_whole_pixel() {
    let mut screen = Screen::new();
    screen.update(&sprite(&[0x40], 0, 0));
    let mut frame = [7u8; 11];
    screen.draw(&mut frame);
    assert_eq!(frame, [0x00, 0x00, 0x00, 0xFF, 0x00, 0xCC, 0x00, 0xFF, 7, 7, 7]);
    let mut empty: [u8; 0] = [];
    screen.draw(&mut empty);
}
