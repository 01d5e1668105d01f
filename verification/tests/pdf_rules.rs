use wittgensteinsourcerer::pdf::{
    encode_page_image, page_label, pdf_pages, pdf_quality, PageImageFilter, DEFAULT_JPEG_QUALITY,
};

fn pages(names: &[&str]) -> Vec<(String, String)> {
    names.iter().map(|p| ("Ms-101".to_string(), p.to_string())).collect()
}

#[test]
fn pdf_quality_values() {
    assert_eq!(pdf_quality("uncompressed"), None);
    assert_eq!(pdf_quality("90"), Some(90));
    assert_eq!(pdf_quality("75"), Some(75));
    assert_eq!(pdf_quality("abc"), Some(DEFAULT_JPEG_QUALITY));
    assert_eq!(pdf_quality("300"), Some(90));
    assert_eq!(pdf_quality(""), Some(90));
    assert_eq!(pdf_quality("Uncompressed"), Some(90));
}

#[test]
fn pdf_quality_reads_every_byte_numeral() {
    for q in 0..=255u8 {
        assert_eq!(pdf_quality(&q.to_string()), Some(q));
    }
}

#[test]
fn pdf_pages_keep_pages_with_images_in_order() {
    let p = pages(&["1r", "1v", "2r", "2v"]);
    let names = pdf_pages("Ms-101", &p, &vec![true, false, true, true]).unwrap();
    assert_eq!(names, vec!["1r", "2r", "2v"]);
}

#[test]
fn pdf_without_images_is_an_error() {
    let p = pages(&["1r", "1v"]);
    let err = pdf_pages("Ms-101", &p, &vec![false, false]).unwrap_err();
    assert_eq!(err.doc_name, "Ms-101");
    assert_eq!(err.message(), "No images found for Ms-101");
    let err = pdf_pages("Ms-102", &Vec::new(), &Vec::new()).unwrap_err();
    assert_eq!(err.message(), "No images found for Ms-102");
}

#[test]
fn page_labels() {
    assert_eq!(page_label("Ms-101", "1r"), "Ms-101,1r");
    assert_eq!(page_label("", ""), ",");
}

#[test]
fn uncompressed_page_image_keeps_the_pixels() {
    let rgb = vec![1u8, 2, 3, 4, 5, 6];
    let (data, filter) = encode_page_image(rgb.clone(), 2, 1, None);
    assert_eq!(data, rgb);
    assert_eq!(filter, None);
}

#[test]
fn jpeg_page_image() {
    let rgb: Vec<u8> = (0..16 * 8 * 3).map(|i| (i * 7 % 256) as u8).collect();
    let (data, filter) = encode_page_image(rgb.clone(), 16, 8, Some(90));
    assert_eq!(filter, Some(PageImageFilter::Dct));
    assert_ne!(data, rgb);
    assert_eq!(&data[..2], &[0xFF, 0xD8]);
    assert_eq!(&data[data.len() - 2..], &[0xFF, 0xD9]);
    let (again, _) = encode_page_image(rgb.clone(), 16, 8, Some(90));
    assert_eq!(data, again);
    let (low, _) = encode_page_image(rgb, 16, 8, Some(10));
    assert_ne!(data, low);
}
