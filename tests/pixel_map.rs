use rtwk::image::{header, pixel_line, push_decimal, scan_position, MAX_CHANNEL};

fn magic_line() -> Vec<u8> {
    vec![b'P', b'3', b'\n']
}

#[test]
fn header_small_image() {
    let mut expected = magic_line();
    expected.extend_from_slice(b"4 2\n255\n");
    assert_eq!(header(4, 2), expected);
}

#[test]
fn header_wide_image() {
    let mut expected = magic_line();
    expected.extend_from_slice(b"1200 800\n255\n");
    assert_eq!(header(1200, 800), expected);
}

#[test]
fn header_zero_dimensions() {
    let mut expected = magic_line();
    expected.extend_from_slice(b"0 0\n255\n");
    assert_eq!(header(0, 0), expected);
}

#[test]
fn pixel_line_black() {
    assert_eq!(pixel_line(0, 0, 0), b"0 0 0\n".to_vec());
}

#[test]
fn pixel_line_mixed_widths() {
    assert_eq!(pixel_line(255, 7, 128), b"255 7 128\n".to_vec());
    assert_eq!(pixel_line(10, 99, 100), b"10 99 100\n".to_vec());
}

#[test]
fn pixel_line_largest_channel() {
    let line = pixel_line(MAX_CHANNEL, MAX_CHANNEL, MAX_CHANNEL);
    assert_eq!(line, b"255 255 255\n".to_vec());
}

#[test]
fn push_decimal_appends() {
    let mut out = b"x=".to_vec();
    push_decimal(&mut out, 40902);
    assert_eq!(out, b"x=40902".to_vec());
    push_decimal(&mut out, 0);
    assert_eq!(out, b"x=409020".to_vec());
}

#[test]
fn push_decimal_largest() {
    let mut out = Vec::new();
    push_decimal(&mut out, usize::MAX);
    assert_eq!(out, usize::MAX.to_string().into_bytes());
}

#[test]
fn scan_starts_top_left_and_ends_bottom_right() {
    assert_eq!(scan_position(0, 3, 2), (0, 1));
    assert_eq!(scan_position(2, 3, 2), (2, 1));
    assert_eq!(scan_position(3, 3, 2), (0, 0));
    assert_eq!(scan_position(5, 3, 2), (2, 0));
}

#[test]
fn scan_matches_nested_row_loops() {
    let (width, height) = (4usize, 3usize);
    let mut expected = Vec::new();
    for j in (0..height).rev() {
        for i in 0..width {
            expected.push((i, j));
        }
    }
    let got: Vec<(usize, usize)> = (0..width * height)
        .map(|k| scan_position(k, width, height))
        .collect();
    assert_eq!(got, expected);
}

#[test]
fn scan_single_pixel() {
    assert_eq!(scan_position(0, 1, 1), (0, 0));
}

#[test]
fn pixel_line_reads_back_every_channel() {
    for (r, g, b) in [(0u8, 1u8, 2u8), (9, 10, 99), (100, 200, 255)] {
        let line = String::from_utf8(pixel_line(r, g, b)).unwrap();
        assert!(line.ends_with('\n'));
        let values: Vec<u32> = line
            .trim_end()
            .split(' ')
            .map(|t| t.parse().unwrap())
            .collect();
        assert_eq!(values, vec![r as u32, g as u32, b as u32]);
        assert!(values.iter().all(|v| *v <= 255));
    }
}
