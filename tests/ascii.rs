use ascii_player::{convert_image_to_ascii_line, convert_pixel, Image, CLEAR_SCREEN, RAMP};

fn image(data: Vec<u8>, width: u32, height: u32) -> Image {
    Image { data, width, height, number: 0 }
}

#[test]
fn darkest_and_lightest_intensities_hit_the_ramp_ends() {
    assert_eq!(convert_pixel(0), '@');
    assert_eq!(convert_pixel(255), ' ');
    assert_eq!(RAMP.chars().count(), 11);
}

#[test]
fn each_band_of_twenty_five_gets_its_own_symbol() {
    assert_eq!(convert_pixel(24), '@');
    assert_eq!(convert_pixel(25), '#');
    assert_eq!(convert_pixel(49), '#');
    assert_eq!(convert_pixel(50), 'S');
    assert_eq!(convert_pixel(125), '*');
    assert_eq!(convert_pixel(249), ',');
    assert_eq!(convert_pixel(250), ' ');
}

#[test]
fn symbol_index_never_decreases_with_intensity() {
    let ramp: Vec<char> = RAMP.chars().collect();
    let mut last = 0usize;
    for p in 0..=255u8 {
        let c = convert_pixel(p);
        let idx = ramp.iter().position(|&r| r == c).unwrap();
        assert_eq!(idx, std::cmp::min(p as usize / 25, 10));
        assert!(idx >= last);
        last = idx;
    }
}

#[test]
fn lines_follow_rows_in_order() {
    let img = image(vec![0, 25, 50, 75, 100, 125], 3, 2);
    let lines = convert_image_to_ascii_line(&img);
    assert_eq!(lines, vec!["@#S".to_string(), "%?*".to_string()]);
}

#[test]
fn empty_image_has_no_lines() {
    let img = image(vec![], 0, 0);
    assert!(convert_image_to_ascii_line(&img).is_empty());
    assert_eq!(img.to_ascii(), "");
}

#[test]
fn frame_text_ends_every_row_with_a_line_break() {
    let img = image(vec![255, 0, 130, 180], 2, 2);
    assert_eq!(img.to_ascii(), " @\n*;\n");
}

#[test]
fn screen_clears_before_the_frame() {
    let img = image(vec![200, 230], 1, 2);
    assert_eq!(img.screen(), format!("{}:\n,\n\n", CLEAR_SCREEN));
    assert_eq!(CLEAR_SCREEN, "\x1B[2J\x1B[1;1H");
}
