use wittgensteinsourcerer::download::{
    dezoomify_args, document_step, download_error_message, fallback_step,
    page_step, DocumentStep, FallbackStep, PageStep, DOCUMENT_ATTEMPTS, PAGE_ATTEMPTS,
};

#[test]
fn dezoomify_command_line() {
    assert_eq!(
        dezoomify_args("http://host/a.dzi", "out/1r.png-tmp.png", 2000),
        vec![
            "dezoomify-rs",
            "--max-width",
            "2000",
            "--retries",
            "2",
            "--timeout",
            "60s",
            "http://host/a.dzi",
            "out/1r.png-tmp.png"
        ]
    );
}

#[test]
fn error_without_image_is_reported_as_such() {
    assert_eq!(
        download_error_message("Tried 3 ways, none succeeded\ndetails"),
        "couldn't find a zoomable image"
    );
}

#[test]
fn other_errors_report_their_first_line() {
    assert_eq!(download_error_message("timeout\nmore"), "timeout");
    assert_eq!(download_error_message("bad\r\nmore"), "bad");
    assert_eq!(download_error_message("single"), "single");
    assert_eq!(download_error_message(""), "unknown error");
}

#[test]
fn reports_never_mention_none_succeeded() {
    for e in ["none succeeded", "x\nnone succeeded", "none\nsucceeded", "", "\n", "n"] {
        let m = download_error_message(e);
        assert!(!m.contains("none succeeded"), "{e:?}");
        assert_ne!(page_step(1, Some(&m)), PageStep::NoImage);
    }
}

#[test]
fn no_image_report_still_falls_back() {
    let m = download_error_message("all none succeeded");
    assert_eq!(m, "couldn't find a zoomable image");
    assert_eq!(fallback_step(Some(&m)), FallbackStep::FullResolution);
}

#[test]
fn fallback_steps() {
    assert_eq!(fallback_step(None), FallbackStep::Saved);
    assert_eq!(fallback_step(Some("couldn't find a zoomable image")), FallbackStep::FullResolution);
    assert_eq!(fallback_step(Some("")), FallbackStep::FullResolution);
    assert_eq!(fallback_step(Some("timeout")), FallbackStep::FullResolution);
}

#[test]
fn page_steps() {
    assert_eq!(page_step(1, None), PageStep::Saved);
    assert_eq!(page_step(3, Some("dezoomify: none succeeded")), PageStep::NoImage);
    assert_eq!(page_step(1, Some("timeout")), PageStep::Retry(2));
    assert_eq!(page_step(4, Some("timeout")), PageStep::Retry(5));
    assert_eq!(page_step(PAGE_ATTEMPTS, Some("timeout")), PageStep::Failed);
}

#[test]
fn a_failing_page_is_tried_five_times() {
    let mut attempts = 1;
    let mut attempt = 1;
    loop {
        match page_step(attempt, Some("timeout")) {
            PageStep::Retry(next) => {
                attempts += 1;
                attempt = next;
            }
            step => {
                assert_eq!(step, PageStep::Failed);
                break;
            }
        }
    }
    assert_eq!(attempts, 5);
}

#[test]
fn document_steps() {
    assert_eq!(document_step(1, true), DocumentStep::Done);
    assert_eq!(document_step(1, false), DocumentStep::Retry(2));
    assert_eq!(document_step(2, false), DocumentStep::Retry(3));
    assert_eq!(document_step(DOCUMENT_ATTEMPTS, false), DocumentStep::GiveUp);
    assert_eq!(document_step(DOCUMENT_ATTEMPTS, true), DocumentStep::Done);
}
