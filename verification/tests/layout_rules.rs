use wittgensteinsourcerer::cli::{
    default_destination, document_selection, names_contain, pdf_file_name, DocumentSelection,
    PNG_DIRECTORY, WEBP_DIRECTORY,
};
use wittgensteinsourcerer::compact::{needs_webp, png_file_name, webp_file_name};

fn names(v: &[&str]) -> Vec<String> {
    v.iter().map(|s| s.to_string()).collect()
}

#[test]
fn default_destination_names_the_width() {
    assert_eq!(default_destination(2000), "facsimiles/2000px");
    assert_eq!(default_destination(5000), "facsimiles/5000px");
    assert_eq!(default_destination(0), "facsimiles/0px");
}

#[test]
fn directories_and_file_names() {
    assert_eq!(PNG_DIRECTORY, "png");
    assert_eq!(WEBP_DIRECTORY, "webp");
    assert_eq!(pdf_file_name("Ms-101"), "Ms-101.pdf");
    assert_eq!(png_file_name("1r"), "1r.png");
    assert_eq!(webp_file_name("1r"), "1r.webp");
}

#[test]
fn webp_copies_are_made_once() {
    assert!(needs_webp(true, false));
    assert!(!needs_webp(true, true));
    assert!(!needs_webp(false, false));
    assert!(!needs_webp(false, true));
}

#[test]
fn without_lists_every_document_is_downloaded() {
    assert_eq!(document_selection("Ms-101", &Vec::new(), &Vec::new()), DocumentSelection::Download);
}

#[test]
fn skip_list() {
    let skip = names(&["Ms-107", "Ms-108"]);
    assert_eq!(document_selection("Ms-107", &skip, &Vec::new()), DocumentSelection::Skipped);
    assert_eq!(document_selection("Ms-101", &skip, &Vec::new()), DocumentSelection::Download);
}

#[test]
fn only_list() {
    let only = names(&["Ms-101", "Ms-102"]);
    assert_eq!(document_selection("Ms-101", &Vec::new(), &only), DocumentSelection::Download);
    assert_eq!(document_selection("Ms-103", &Vec::new(), &only), DocumentSelection::NotListed);
    assert_eq!(document_selection("Ms-101", &names(&["Ms-101"]), &only), DocumentSelection::Skipped);
}

#[test]
fn names_contain_whole_names() {
    let list = names(&["Ms-101", "Ts-309"]);
    assert!(names_contain(&list, "Ts-309"));
    assert!(!names_contain(&list, "Ts-30"));
    assert!(!names_contain(&Vec::new(), "Ts-309"));
}
