use rustshot::print::{aspect_fit, print_placement, PrintError};

#[test]
fn fits_landscape_image_on_portrait_page() {
    assert_eq!(aspect_fit(1920, 1080, 600, 800), (600, 337));
}

#[test]
fn fits_portrait_image_on_landscape_page() {
    assert_eq!(aspect_fit(1080, 1920, 800, 600), (337, 600));
}

#[test]
fn placement_centers_the_fitted_image() {
    let placement = print_placement(1920, 1080, 600, 800).expect("page has a printable area");
    assert_eq!((placement.width, placement.height), (600, 337));
    assert_eq!((placement.x, placement.y), (0, 231));
}

#[test]
fn a_page_without_printable_area_is_rejected() {
    assert_eq!(print_placement(10, 10, 0, 800), Err(PrintError::InvalidPrintableArea));
}

#[test]
fn an_image_without_width_fits_as_a_one_pixel_column() {
    assert_eq!(aspect_fit(0, 50, 600, 800), (1, 800));
}
