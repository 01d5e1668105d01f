use wittgensteinsourcerer::catalog::{
    build_dzi_url, collection_list_url, document_links, is_facsimile_link_text,
    links_from_list_items, pages_for_doc, pages_from_titles, site_url, split_once_at,
};

fn item(text: &str, links: &[(&str, Option<&str>)]) -> (String, Vec<(String, Option<String>)>) {
    (
        text.to_string(),
        links
            .iter()
            .map(|(t, h)| (t.to_string(), h.map(|h| h.to_string())))
            .collect(),
    )
}

#[test]
fn dzi_url_for_an_ordinary_document() {
    assert_eq!(
        build_dzi_url("Ms-101", "1r"),
        "http://www.wittgensteinsource.org/fcgi-bin/iipsrv.fcgi?DeepZoom=/var/www/wab/web/uploads/flexip_viewer_images/iip/Ms-101,1r.tif.dzi"
    );
}

#[test]
fn dzi_url_files_ts_309_under_stonborough() {
    assert_eq!(
        build_dzi_url("Ts-309", "12"),
        "http://www.wittgensteinsource.org/fcgi-bin/iipsrv.fcgi?DeepZoom=/var/www/wab/web/uploads/flexip_viewer_images/iip/Ts-309-Stonborough,12.tif.dzi"
    );
    assert!(build_dzi_url("Ts-3090", "1").contains("iip/Ts-3090,1.tif.dzi"));
}

#[test]
fn site_addresses() {
    assert_eq!(
        collection_list_url(),
        "http://www.wittgensteinsource.org/agora_show_collection_list/1?customMenu=1"
    );
    assert_eq!(
        site_url("/agora_show_transcription?siglum=Ms-101"),
        "http://www.wittgensteinsource.org/agora_show_transcription?siglum=Ms-101"
    );
}

#[test]
fn facsimile_link_text_is_a_trimmed_f() {
    assert!(is_facsimile_link_text("F"));
    assert!(is_facsimile_link_text("  F\n"));
    assert!(is_facsimile_link_text("\u{a0}F\u{3000}"));
    assert!(!is_facsimile_link_text("f"));
    assert!(!is_facsimile_link_text("FF"));
    assert!(!is_facsimile_link_text("F x"));
    assert!(!is_facsimile_link_text(""));
}

#[test]
fn links_of_all_items() {
    let items = vec![
        item("Ms-101 (WL) F N", &[(" F ", Some("/f101")), ("N", Some("/n101"))]),
        item("Ms-102 F", &[("F", Some("/f102")), ("F", None)]),
        item("Ts-201 (WL)", &[("F", Some("/f201"))]),
    ];
    assert_eq!(links_from_list_items(&items, false), vec!["/f101", "/f102", "/f201"]);
}

#[test]
fn links_of_wren_library_items_only() {
    let items = vec![
        item("Ms-101 (WL) F N", &[(" F ", Some("/f101")), ("N", Some("/n101"))]),
        item("Ms-102 F", &[("F", Some("/f102"))]),
        item("Ts-201 (WL)", &[("F", Some("/f201"))]),
    ];
    assert_eq!(links_from_list_items(&items, true), vec!["/f101", "/f201"]);
}

#[test]
fn wren_library_links_are_the_links_of_the_wren_library_items() {
    let items = vec![
        item("a (WL)", &[("F", Some("/1"))]),
        item("b", &[("F", Some("/2")), ("F", Some("/3"))]),
        item("c (WL)", &[("F", Some("/4")), ("G", Some("/5"))]),
    ];
    let wren: Vec<_> = items.iter().filter(|i| i.0.contains("(WL)")).cloned().collect();
    assert_eq!(links_from_list_items(&items, true), links_from_list_items(&wren, false));
}

#[test]
fn empty_list_has_no_links() {
    assert!(links_from_list_items(&Vec::new(), false).is_empty());
    assert!(links_from_list_items(&Vec::new(), true).is_empty());
}

#[test]
fn document_links_read_from_html() {
    let html = r#"<html><body><ul>
        <li>Ms-101 (WL) <a href="/facs/101">F</a> <a href="/norm/101">N</a></li>
        <li>Ms-102 <a href="/facs/102"> F </a></li>
        <li>Ts-201 (WL) <a>F</a></li>
        </ul></body></html>"#;
    assert_eq!(document_links(html, true), vec!["/facs/101"]);
    assert_eq!(document_links(html, false), vec!["/facs/101", "/facs/102"]);
    assert!(document_links("", false).is_empty());
}

#[test]
fn split_once_at_the_first_comma() {
    assert_eq!(split_once_at("Ms-101,1r", ','), Some(("Ms-101".to_string(), "1r".to_string())));
    assert_eq!(split_once_at("a,b,c", ','), Some(("a".to_string(), "b,c".to_string())));
    assert_eq!(split_once_at(",x", ','), Some((String::new(), "x".to_string())));
    assert_eq!(split_once_at("none", ','), None);
}

#[test]
fn pages_from_data_titles() {
    let titles = vec![
        Some("Ms-101,1r".to_string()),
        None,
        Some("untitled".to_string()),
        Some("Ms-101,2v,a".to_string()),
    ];
    assert_eq!(
        pages_from_titles(&titles),
        vec![
            ("Ms-101".to_string(), "1r".to_string()),
            ("Ms-101".to_string(), "2v,a".to_string())
        ]
    );
    assert!(pages_from_titles(&Vec::new()).is_empty());
}

#[test]
fn pages_read_from_html() {
    let html = r#"<div><a data-title="Ms-101,1r" href="x">1r</a><a href="y">other</a>
        <a data-title="no comma">n</a><a data-title="Ms-101,1v">1v</a></div>"#;
    assert_eq!(
        pages_for_doc(html),
        vec![
            ("Ms-101".to_string(), "1r".to_string()),
            ("Ms-101".to_string(), "1v".to_string())
        ]
    );
}

#[test]
fn pages_rejoin_to_their_titles() {
    let titles = vec![Some("A,b,c".to_string()), Some(",".to_string())];
    for (doc, page) in pages_from_titles(&titles) {
        assert!(!doc.contains(','));
        assert!(titles.contains(&Some(format!("{doc},{page}"))));
    }
}
