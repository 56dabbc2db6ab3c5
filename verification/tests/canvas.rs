use raytracer::canvas::{Canvas, Rgb8};

const BLACK: [f64; 3] = [0.0, 0.0, 0.0];
const RED: [f64; 3] = [1.0, 0.0, 0.0];

fn rgb(red: u8, green: u8, blue: u8) -> Rgb8 {
    Rgb8 { red, green, blue }
}

#[test]
fn new_canvas() {
    let canvas = Canvas::new(10, 20, BLACK);
    assert_eq!(canvas.width, 10);
    assert_eq!(canvas.height, 20);
    assert_eq!(canvas.pixels.len(), 200);
    for pixel in canvas.pixels.iter() {
        assert_eq!(pixel, &BLACK);
    }
}

#[test]
fn set_pixel() {
    let mut canvas = Canvas::new(10, 20, BLACK);
    canvas.set_pixel(2, 3, RED);
    assert_eq!(canvas.get_pixel(2, 3), &[1.0, 0.0, 0.0]);
}

#[test]
fn get_header() {
    let canvas = Canvas::new(5, 3, rgb(0, 0, 0));
    let header = canvas.get_header();
    assert_eq!(header[0], "P3");
    assert_eq!(header[1], "5 3");
    assert_eq!(header[2], "255");
}

#[test]
fn to_ppm() {
    let mut canvas = Canvas::new(5, 3, rgb(0, 0, 0));
    canvas.set_pixel(0, 0, rgb(255, 0, 0));
    canvas.set_pixel(2, 1, rgb(0, 128, 0));
    canvas.set_pixel(4, 2, rgb(0, 0, 255));
    let ppm: Vec<String> = canvas.to_ppm().lines().map(|x| x.to_string()).collect();
    assert_eq!(ppm[3], "255 0 0 0 0 0 0 0 0 0 0 0 0 0 0");
    assert_eq!(ppm[4], "0 0 0 0 0 0 0 128 0 0 0 0 0 0 0");
    assert_eq!(ppm[5], "0 0 0 0 0 0 0 0 0 0 0 0 0 0 255");
}

#[test]
fn ppm_text_is_header_then_rows() {
    let mut canvas = Canvas::new(2, 2, rgb(1, 2, 3));
    canvas.set_pixel(1, 1, rgb(10, 200, 7));
    assert_eq!(canvas.to_ppm(), "P3\n2 2\n255\n1 2 3 1 2 3\n1 2 3 10 200 7");
}

#[test]
fn ppm_of_short_last_row() {
    let canvas = Canvas { width: 2, height: 2, pixels: vec![rgb(0, 0, 0), rgb(1, 1, 1), rgb(9, 9, 9)] };
    assert_eq!(canvas.to_ppm(), "P3\n2 2\n255\n0 0 0 1 1 1\n9 9 9");
}

#[test]
fn ppm_of_empty_canvas() {
    let canvas = Canvas::new(4, 0, rgb(0, 0, 0));
    assert_eq!(canvas.to_ppm(), "P3\n4 0\n255");
}

#[test]
fn channel_bytes_are_red_green_blue_in_turn() {
    let mut canvas = Canvas::new(2, 1, rgb(0, 0, 0));
    canvas.set_pixel(1, 0, rgb(4, 5, 6));
    assert_eq!(canvas.channel_bytes(), vec![0, 0, 0, 4, 5, 6]);
}

#[test]
fn coordinates_of_index() {
    let canvas = Canvas::new(10, 20, BLACK);
    assert_eq!(canvas.pixel_coordinates(0), (0, 0));
    assert_eq!(canvas.pixel_coordinates(37), (7, 3));
    assert_eq!(canvas.coords_to_index(7, 3), 37);
}

#[test]
fn writing_one_pixel_leaves_the_others() {
    let mut canvas = Canvas::new(3, 3, BLACK);
    canvas.set_pixel(1, 2, RED);
    for y in 0..3 {
        for x in 0..3 {
            let expected = if (x, y) == (1, 2) { RED } else { BLACK };
            assert_eq!(canvas.get_pixel(x, y), &expected);
        }
    }
}

#[test]
fn pixel_past_the_row_end_wraps_to_the_next_row() {
    let mut canvas = Canvas::new(10, 2, BLACK);
    canvas.set_pixel(12, 0, RED);
    assert_eq!(canvas.get_pixel(2, 1), &RED);
}

#[test]
fn png_file_of_a_small_canvas() {
    let mut canvas = Canvas::new(2, 1, rgb(0, 0, 0));
    canvas.set_pixel(1, 0, rgb(255, 0, 0));
    let bytes = canvas.to_png().unwrap();
    assert_eq!(&bytes[..8], &[137, 80, 78, 71, 13, 10, 26, 10]);
    assert_ne!(bytes, canvas.channel_bytes());
    assert!(bytes.len() > 8);
}
