use ray_tracer::canvas::{Canvas, CanvasError};

type Rgb = (f64, f64, f64);

const BLACK: Rgb = (0.0, 0.0, 0.0);

#[test]
fn creating_canvas() {
    let c = Canvas::new(10, 20, BLACK).unwrap();
    assert_eq!(10, c.width());
    assert_eq!(20, c.height());
    for x in 0..c.width() - 1 {
        for y in 0..c.height() - 1 {
            assert_eq!(*c.pixel_at(x, y), BLACK)
        }
    }
}

#[test]
fn writing_pixels_to_canvas() {
    let mut c = Canvas::new(10, 20, BLACK).unwrap();
    let red: Rgb = (1.0, 0.0, 0.0);
    c.write_color(2, 3, red);
    let expected: Rgb = (1.0, 0.0, 0.0);
    assert_eq!(expected, *c.pixel_at(2, 3));
}

#[test]
fn fresh_canvas_is_black_everywhere() {
    let c = Canvas::new(10, 20, BLACK).unwrap();
    for x in 0..10 {
        for y in 0..20 {
            assert_eq!(*c.pixel_at(x, y), BLACK);
        }
    }
}

#[test]
fn write_changes_only_the_written_pixel() {
    let mut c = Canvas::new(10, 20, BLACK).unwrap();
    c.write_color(2, 3, (1.0, 0.0, 0.0));
    for x in 0..10 {
        for y in 0..20 {
            let expected = if x == 2 && y == 3 { (1.0, 0.0, 0.0) } else { BLACK };
            assert_eq!(*c.pixel_at(x, y), expected);
        }
    }
}

#[test]
fn writing_twice_equals_writing_once() {
    let mut once = Canvas::new(4, 3, BLACK).unwrap();
    let mut twice = Canvas::new(4, 3, BLACK).unwrap();
    let color: Rgb = (0.25, 0.5, 0.75);
    once.write_color(1, 2, color);
    twice.write_color(1, 2, color);
    twice.write_color(1, 2, color);
    for x in 0..4 {
        for y in 0..3 {
            assert_eq!(*once.pixel_at(x, y), *twice.pixel_at(x, y));
        }
    }
}

#[test]
fn last_write_wins() {
    let mut c = Canvas::new(3, 3, BLACK).unwrap();
    c.write_color(1, 1, (1.0, 0.0, 0.0));
    c.write_color(1, 1, (0.0, 1.0, 0.0));
    assert_eq!(*c.pixel_at(1, 1), (0.0, 1.0, 0.0));
}

#[test]
fn zero_width_is_refused() {
    assert_eq!(Canvas::new(0, 20, BLACK).err(), Some(CanvasError::ZeroDimension));
}

#[test]
fn zero_height_is_refused() {
    assert_eq!(Canvas::new(10, 0, BLACK).err(), Some(CanvasError::ZeroDimension));
}

#[test]
fn pixel_index_is_row_major() {
    let c = Canvas::new(10, 20, 0u8).unwrap();
    assert_eq!(c.get_pixel_index(0, 0), 0);
    assert_eq!(c.get_pixel_index(9, 0), 9);
    assert_eq!(c.get_pixel_index(0, 1), 10);
    assert_eq!(c.get_pixel_index(2, 3), 32);
    assert_eq!(c.get_pixel_index(9, 19), 199);
}

#[test]
fn corner_pixels_are_independent() {
    let mut c = Canvas::new(10, 20, 0u32).unwrap();
    c.write_color(0, 0, 1);
    c.write_color(9, 0, 2);
    c.write_color(0, 19, 3);
    c.write_color(9, 19, 4);
    assert_eq!(*c.pixel_at(0, 0), 1);
    assert_eq!(*c.pixel_at(9, 0), 2);
    assert_eq!(*c.pixel_at(0, 19), 3);
    assert_eq!(*c.pixel_at(9, 19), 4);
    assert_eq!(*c.pixel_at(1, 0), 0);
    assert_eq!(*c.pixel_at(0, 1), 0);
}

#[test]
fn single_cell_canvas() {
    let mut c = Canvas::new(1, 1, 5i32).unwrap();
    assert_eq!(c.width(), 1);
    assert_eq!(c.height(), 1);
    assert_eq!(*c.pixel_at(0, 0), 5);
    c.write_color(0, 0, -5);
    assert_eq!(*c.pixel_at(0, 0), -5);
}
