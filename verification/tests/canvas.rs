use voronoi::canvas::Canvas;
use voronoi::color::consts::{black, blue, gray, green, red, white};
use voronoi::color::Color;

#[test]
fn a_new_canvas_is_black_all_over() {
    let canvas = Canvas::new(7, 3);
    assert_eq!(canvas.width(), 7);
    assert_eq!(canvas.height(), 3);
    for y in 0..3 {
        for x in 0..7 {
            assert_eq!(canvas.pixel_at(x, y), black());
        }
    }
    let mut count = 0;
    let mut pixels = canvas.pixels();
    while let Some(pixel) = pixels.next() {
        assert_eq!(*pixel, black());
        count += 1;
    }
    assert_eq!(count, 21);
}

#[test]
fn a_canvas_may_have_no_rows() {
    let mut canvas = Canvas::new(5, 0);
    assert_eq!(canvas.width(), 5);
    assert_eq!(canvas.height(), 0);
    assert!(canvas.pixels().next().is_none());
    assert!(canvas.pixels_mut().next().is_none());
    assert!(canvas.enumerate_pixels_mut().next().is_none());
    assert_eq!(canvas.to_ppm(), b"P6\n5 0\n255\n".to_vec());
}

#[test]
fn write_pixel_replaces_one_pixel() {
    let canvas = Canvas::new(4, 3).write_pixel(2, 1, red());
    assert_eq!(canvas.width(), 4);
    assert_eq!(canvas.height(), 3);
    for y in 0..3 {
        for x in 0..4 {
            let expected = if (x, y) == (2, 1) { red() } else { black() };
            assert_eq!(canvas.pixel_at(x, y), expected);
        }
    }
}

#[test]
fn pixels_are_stored_row_by_row() {
    let canvas = Canvas::new(3, 2).write_pixel(0, 0, red()).write_pixel(2, 0, green()).write_pixel(
        0,
        1,
        blue(),
    ).write_pixel(2, 1, white());
    let mut seen: Vec<Color> = Vec::new();
    let mut pixels = canvas.pixels();
    while let Some(pixel) = pixels.next() {
        seen.push(*pixel);
    }
    assert_eq!(seen, vec![red(), black(), green(), blue(), black(), white()]);
    assert!(pixels.next().is_none());
}

#[test]
fn pixels_mut_writes_in_place() {
    let mut canvas = Canvas::new(2, 2);
    let palette = [red(), green(), blue(), white()];
    let mut i = 0;
    let mut pixels = canvas.pixels_mut();
    while let Some(pixel) = pixels.next() {
        assert_eq!(*pixel, black());
        *pixel = palette[i];
        i += 1;
    }
    assert_eq!(i, 4);
    assert_eq!(canvas.width(), 2);
    assert_eq!(canvas.height(), 2);
    assert_eq!(canvas.pixel_at(0, 0), red());
    assert_eq!(canvas.pixel_at(1, 0), green());
    assert_eq!(canvas.pixel_at(0, 1), blue());
    assert_eq!(canvas.pixel_at(1, 1), white());
}

#[test]
fn enumeration_visits_every_pixel_once_in_row_major_order() {
    let width = 5;
    let height = 4;
    let mut canvas = Canvas::new(width, height);
    let mut visited: Vec<(usize, usize)> = Vec::new();
    let mut cells = canvas.enumerate_pixels_mut();
    while let Some((row, col, _)) = cells.next() {
        visited.push((row, col));
    }
    assert!(cells.next().is_none());
    assert!(cells.next().is_none());
    assert_eq!(visited.len(), width * height);
    assert_eq!(visited[0], (0, 0));
    assert_eq!(visited[width * height - 1], (height - 1, width - 1));
    for (k, &(row, col)) in visited.iter().enumerate() {
        assert_eq!(row, k / width);
        assert_eq!(col, k % width);
        if k + width < visited.len() {
            assert_eq!(visited[k + width], (row + 1, col));
        }
    }
}

#[test]
fn enumeration_of_a_single_column_and_of_a_single_row() {
    let mut column = Canvas::new(1, 3);
    let mut cells = column.enumerate_pixels_mut();
    let mut seen: Vec<(usize, usize)> = Vec::new();
    while let Some((row, col, _)) = cells.next() {
        seen.push((row, col));
    }
    assert_eq!(seen, vec![(0, 0), (1, 0), (2, 0)]);

    let mut row = Canvas::new(3, 1);
    let mut cells = row.enumerate_pixels_mut();
    let mut seen: Vec<(usize, usize)> = Vec::new();
    while let Some((row, col, _)) = cells.next() {
        seen.push((row, col));
    }
    assert_eq!(seen, vec![(0, 0), (0, 1), (0, 2)]);

    let mut single = Canvas::new(1, 1);
    let mut cells = single.enumerate_pixels_mut();
    assert!(matches!(cells.next(), Some((0, 0, _))));
    assert!(cells.next().is_none());
}

#[test]
fn enumeration_lends_the_pixel_at_its_row_and_column() {
    let mut canvas = Canvas::new(3, 2);
    let mut cells = canvas.enumerate_pixels_mut();
    while let Some((row, col, pixel)) = cells.next() {
        assert_eq!(*pixel, black());
        *pixel = Color::new(row as u64, col as u64, 7);
    }
    assert_eq!(canvas.width(), 3);
    assert_eq!(canvas.height(), 2);
    for y in 0..2 {
        for x in 0..3 {
            assert_eq!(canvas.pixel_at(x, y), Color::new(y as u64, x as u64, 7));
        }
    }
}

#[test]
fn a_black_pixel_as_ppm() {
    let canvas = Canvas::new(1, 1);
    let expected: Vec<u8> = vec![b'P', b'6', b'\n', b'1', b' ', b'1', b'\n', b'2', b'5', b'5', b'\n', 0, 0, 0];
    assert_eq!(canvas.to_ppm(), expected);
}

#[test]
fn ppm_holds_the_header_and_three_bytes_for_every_pixel() {
    let canvas = Canvas::new(3, 2).write_pixel(0, 0, red()).write_pixel(1, 0, green()).write_pixel(
        2,
        0,
        blue(),
    ).write_pixel(0, 1, white()).write_pixel(1, 1, gray());
    let mut expected: Vec<u8> = b"P6\n3 2\n255\n".to_vec();
    expected.extend_from_slice(&[255, 0, 0, 0, 255, 0, 0, 0, 255]);
    expected.extend_from_slice(&[255, 255, 255, 128, 128, 128, 0, 0, 0]);
    let ppm = canvas.to_ppm();
    assert_eq!(ppm.len(), 11 + 3 * 6);
    assert_eq!(ppm, expected);
}

#[test]
fn ppm_writes_the_size_in_decimal() {
    let ppm = Canvas::new(800, 600).to_ppm();
    assert_eq!(&ppm[..15], b"P6\n800 600\n255\n");
    assert_eq!(ppm.len(), 15 + 3 * 800 * 600);
    assert!(ppm[15..].iter().all(|&byte| byte == 0));

    let ppm = Canvas::new(1000, 9).to_ppm();
    assert_eq!(&ppm[..14], b"P6\n1000 9\n255\n");
    let ppm = Canvas::new(10, 101).to_ppm();
    assert_eq!(&ppm[..14], b"P6\n10 101\n255\n");
    let ppm = Canvas::new(12345, 0).to_ppm();
    assert_eq!(ppm, b"P6\n12345 0\n255\n".to_vec());
}

#[test]
fn ppm_clamps_channels_out_of_range() {
    let loud = Color::new(1.5f64.to_bits(), (-0.5f64).to_bits(), f64::NAN.to_bits());
    let ppm = Canvas::new(1, 1).write_pixel(0, 0, loud).to_ppm();
    assert_eq!(&ppm[11..], &[255, 0, 0]);
}
