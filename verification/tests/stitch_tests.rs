use papersmith::error::{IntelError, RenderFault};
use papersmith::stitch::{stitch, Canvas, Page};

fn page(width: usize, height: usize, value: u8) -> Page {
    Page { width, height, pixels: vec![value; width * height] }
}

fn cell(c: &Canvas, row: usize, col: usize) -> u8 {
    c.pixels[row * c.width + col]
}

#[test]
fn composite_has_max_width_and_summed_height() {
    let pages = vec![page(2, 3, 10), page(4, 1, 20), page(3, 2, 30)];
    let c = stitch(&pages, 0).unwrap();
    assert_eq!(c.width, 4);
    assert_eq!(c.height, 6);
    assert_eq!(c.pixels.len(), 24);
}

#[test]
fn each_page_occupies_its_own_band_of_rows() {
    let pages = vec![page(2, 3, 10), page(4, 1, 20), page(3, 2, 30)];
    let c = stitch(&pages, 99).unwrap();
    // Page 0: rows 0..3, columns 0..2; background right of it.
    for row in 0..3 {
        assert_eq!(cell(&c, row, 0), 10);
        assert_eq!(cell(&c, row, 1), 10);
        assert_eq!(cell(&c, row, 2), 99);
        assert_eq!(cell(&c, row, 3), 99);
    }
    // Page 1: row 3, full width.
    for col in 0..4 {
        assert_eq!(cell(&c, 3, col), 20);
    }
    // Page 2: rows 4..6, columns 0..3.
    for row in 4..6 {
        assert_eq!(cell(&c, row, 0), 30);
        assert_eq!(cell(&c, row, 2), 30);
        assert_eq!(cell(&c, row, 3), 99);
    }
}

#[test]
fn pixel_content_is_copied_not_filled() {
    let pages = vec![Page { width: 2, height: 2, pixels: vec![1, 2, 3, 4] }];
    let c = stitch(&pages, 0).unwrap();
    assert_eq!(c.pixels, vec![1, 2, 3, 4]);
}

#[test]
fn no_pages_is_a_render_fault() {
    let pages: Vec<Page> = Vec::new();
    assert_eq!(
        stitch(&pages, 0).unwrap_err(),
        IntelError::Render { fault: RenderFault::NoPages }
    );
}

#[test]
fn zero_dimension_canvas_is_a_render_fault() {
    let pages = vec![page(0, 3, 0)];
    assert_eq!(
        stitch(&pages, 0).unwrap_err(),
        IntelError::Render { fault: RenderFault::ZeroDimension }
    );
    let pages = vec![page(3, 0, 0)];
    assert_eq!(
        stitch(&pages, 0).unwrap_err(),
        IntelError::Render { fault: RenderFault::ZeroDimension }
    );
}
