//! Downloading a page: the command line handed to the `dezoomify-rs`
//! downloader, how its failures are reported, and the retry decisions made
//! around it, for a page and for a whole document.

use vstd::prelude::*;
use crate::text::{
    contains_str, contains_text, decimal, decimal_string, first_line, first_line_of,
    lemma_contains_subrange, lemma_first_line_is_prefix, occurs_at,
};

verus! {

/// How often a page is tried before it counts as failed.
pub const PAGE_ATTEMPTS: u32 = 5;

/// How often a document is tried before it is given up.
pub const DOCUMENT_ATTEMPTS: u32 = 3;

// ---------------------------------------------------------------------------
// The downloader's command line
// ---------------------------------------------------------------------------

/// The arguments of a `dezoomify-rs` run that saves the image at `dzi_url`
/// to `output`, at most `max_width` pixels wide, with two retries and a
/// timeout of sixty seconds.
pub open spec fn dezoomify_arguments(dzi_url: Seq<char>, output: Seq<char>, max_width: u32) -> Seq<
    Seq<char>,
> {
    seq![
        "dezoomify-rs"@,
        "--max-width"@,
        decimal(max_width as nat),
        "--retries"@,
        "2"@,
        "--timeout"@,
        "60s"@,
        dzi_url,
        output,
    ]
}

/// The command line of a `dezoomify-rs` run that saves the image at
/// `dzi_url` to `output_path`, at most `max_width` pixels wide.
pub fn dezoomify_args(dzi_url: &str, output_path: &str, max_width: u32) -> (args: Vec<String>)
    ensures
        args.deep_view() == dezoomify_arguments(dzi_url@, output_path@, max_width),
{
    let mut args: Vec<String> = Vec::new();
    args.push(String::from_str("dezoomify-rs"));
    args.push(String::from_str("--max-width"));
    args.push(decimal_string(max_width));
    args.push(String::from_str("--retries"));
    args.push(String::from_str("2"));
    args.push(String::from_str("--timeout"));
    args.push(String::from_str("60s"));
    args.push(String::from_str(dzi_url));
    args.push(String::from_str(output_path));
    assert(args.deep_view() =~= dezoomify_arguments(dzi_url@, output_path@, max_width));
    args
}

// ---------------------------------------------------------------------------
// Failures
// ---------------------------------------------------------------------------

/// What `dezoomify-rs` says when none of the ways it tried found an image.
pub open spec fn none_succeeded() -> Seq<char> {
    "none succeeded"@
}

/// What the library reports for a page without a zoomable image.
pub open spec fn no_zoomable_image() -> Seq<char> {
    "couldn't find a zoomable image"@
}

/// The message reported for a failed `dezoomify-rs` run whose error reads
/// `error`: the fixed message for a page without an image, else the first
/// line of the error, or `unknown error` when it has none.
pub open spec fn download_error_text(error: Seq<char>) -> Seq<char> {
    if contains_text(error, none_succeeded()) {
        no_zoomable_image()
    } else {
        match first_line(error) {
            Some(line) => line,
            None => "unknown error"@,
        }
    }
}

/// The message reported for a failed `dezoomify-rs` run whose error reads
/// `error`.
pub fn download_error_message(error: &str) -> (message: String)
    ensures
        message@ == download_error_text(error@),
{
    if contains_str(error, "none succeeded") {
        String::from_str("couldn't find a zoomable image")
    } else {
        match first_line_of(error) {
            Some(line) => line,
            None => String::from_str("unknown error"),
        }
    }
}

// ---------------------------------------------------------------------------
// Falling back to full resolution
// ---------------------------------------------------------------------------

/// What follows the first download of a page that may fall back to a
/// download at full resolution.
#[derive(Debug, PartialEq, Eq, Structural, Clone, Copy)]
pub enum FallbackStep {
    /// The page was saved.
    Saved,
    /// Download at full resolution and scale down.
    FullResolution,
}

/// The step after the first download, given the message of its failure
/// (`None` when it succeeded): on any failure, whatever its message, the
/// page is downloaded again at full resolution.
pub open spec fn fallback_step_of(failure: Option<Seq<char>>) -> FallbackStep {
    match failure {
        None => FallbackStep::Saved,
        Some(_) => FallbackStep::FullResolution,
    }
}

/// The step after the first download, given the message of its failure.
pub fn fallback_step(failure: Option<&str>) -> (step: FallbackStep)
    ensures
        step == fallback_step_of(failure.deep_view()),
{
    match failure {
        None => FallbackStep::Saved,
        Some(_) => FallbackStep::FullResolution,
    }
}

// ---------------------------------------------------------------------------
// Retrying pages and documents
// ---------------------------------------------------------------------------

/// What follows an attempt at a page.
#[derive(Debug, PartialEq, Eq, Structural, Clone, Copy)]
pub enum PageStep {
    /// The page was saved.
    Saved,
    /// The page has no zoomable image and is skipped.
    NoImage,
    /// Try again; the attempt's number is given.
    Retry(u32),
    /// All attempts failed.
    Failed,
}

/// The step after attempt `attempt` (counted from one) at a page, given the
/// message of its failure (`None` when it succeeded).
pub open spec fn page_step_of(attempt: u32, failure: Option<Seq<char>>) -> PageStep {
    match failure {
        None => PageStep::Saved,
        Some(message) => if contains_text(message, none_succeeded()) {
            PageStep::NoImage
        } else if attempt < PAGE_ATTEMPTS {
            PageStep::Retry((attempt + 1) as u32)
        } else {
            PageStep::Failed
        },
    }
}

/// A page counts as done when it was saved or has no image.
pub open spec fn page_done(step: PageStep) -> bool {
    step == PageStep::Saved || step == PageStep::NoImage
}

/// The step after attempt `attempt` at a page, given the message of its
/// failure (`None` when it succeeded).
pub fn page_step(attempt: u32, failure: Option<&str>) -> (step: PageStep)
    requires
        1 <= attempt <= PAGE_ATTEMPTS,
    ensures
        step == page_step_of(attempt, failure.deep_view()),
        step matches PageStep::Retry(next) ==> attempt < next <= PAGE_ATTEMPTS,
{
    match failure {
        None => PageStep::Saved,
        Some(message) => if contains_str(message, "none succeeded") {
            PageStep::NoImage
        } else if attempt < PAGE_ATTEMPTS {
            PageStep::Retry(attempt + 1)
        } else {
            PageStep::Failed
        },
    }
}

/// What follows an attempt at a whole document.
#[derive(Debug, PartialEq, Eq, Structural, Clone, Copy)]
pub enum DocumentStep {
    /// The document is done.
    Done,
    /// Try the whole document again; the attempt's number is given.
    Retry(u32),
    /// All attempts failed; give the document up.
    GiveUp,
}

/// The step after attempt `attempt` (counted from one) at a document, which
/// `succeeded` or not.
pub open spec fn document_step_of(attempt: u32, succeeded: bool) -> DocumentStep {
    if succeeded {
        DocumentStep::Done
    } else if attempt < DOCUMENT_ATTEMPTS {
        DocumentStep::Retry((attempt + 1) as u32)
    } else {
        DocumentStep::GiveUp
    }
}

/// The step after attempt `attempt` at a document, which `succeeded` or not.
pub fn document_step(attempt: u32, succeeded: bool) -> (step: DocumentStep)
    requires
        1 <= attempt <= DOCUMENT_ATTEMPTS,
    ensures
        step == document_step_of(attempt, succeeded),
        step matches DocumentStep::Retry(next) ==> attempt < next <= DOCUMENT_ATTEMPTS,
{
    if succeeded {
        DocumentStep::Done
    } else if attempt < DOCUMENT_ATTEMPTS {
        DocumentStep::Retry(attempt + 1)
    } else {
        DocumentStep::GiveUp
    }
}

// ---------------------------------------------------------------------------
// Laws
// ---------------------------------------------------------------------------

/// The fixed message for a page without an image does not mention
/// `none succeeded`.
proof fn lemma_no_image_message_plain()
    ensures
        !contains_text(no_zoomable_image(), none_succeeded()),
{
    reveal_strlit("couldn't find a zoomable image");
    reveal_strlit("none succeeded");
    let hay = no_zoomable_image();
    let needle = none_succeeded();
    assert forall|i: int| !occurs_at(hay, needle, i) by {
        if occurs_at(hay, needle, i) {
            assert(hay.subrange(i, i + needle.len())[0] == hay[i]);
            assert(hay.subrange(i, i + needle.len())[1] == hay[i + 1]);
            assert(needle[0] == 'n' && needle[1] == 'o');
        }
    }
}

/// A reported download failure never mentions `none succeeded`: the text
/// that marks a page without an image is turned into a message that does
/// not hold it, and any other message is a line of an error that does not
/// hold it either. So a page whose download failed is never skipped as
/// imageless by the page retry decision; it is retried.
pub proof fn lemma_report_never_mentions_none_succeeded(error: Seq<char>)
    ensures
        !contains_text(download_error_text(error), none_succeeded()),
        forall|attempt: u32|
            #![trigger page_step_of(attempt, Some(download_error_text(error)))]
            page_step_of(attempt, Some(download_error_text(error))) != PageStep::NoImage,
{
    if contains_text(error, none_succeeded()) {
        lemma_no_image_message_plain();
    } else {
        match first_line(error) {
            Some(line) => {
                lemma_first_line_is_prefix(error);
                if contains_text(line, none_succeeded()) {
                    lemma_contains_subrange(error, 0, line.len() as int, none_succeeded());
                }
            },
            None => {
                reveal_strlit("unknown error");
                reveal_strlit("none succeeded");
            },
        }
    }
}

/// A page is attempted at most `PAGE_ATTEMPTS` times: every retry has a
/// larger number, and the last attempt never asks for another.
pub proof fn lemma_page_attempts_bounded(attempt: u32, failure: Option<Seq<char>>)
    requires
        1 <= attempt <= PAGE_ATTEMPTS,
    ensures
        page_step_of(attempt, failure) matches PageStep::Retry(next) ==> attempt < next
            <= PAGE_ATTEMPTS,
        attempt == PAGE_ATTEMPTS ==> !(page_step_of(attempt, failure) is Retry),
        failure is None ==> page_done(page_step_of(attempt, failure)),
{
}

} // verus!

verus! {

/// The downloader is asked for exactly the width given: the third argument
/// is a numeral whose value is `max_width`, whatever its size; the image's
/// address and the output come last.
pub proof fn lemma_dezoomify_width(dzi_url: Seq<char>, output: Seq<char>, max_width: u32)
    ensures
        dezoomify_arguments(dzi_url, output, max_width).len() == 9,
        dezoomify_arguments(dzi_url, output, max_width)[0] == "dezoomify-rs"@,
        dezoomify_arguments(dzi_url, output, max_width)[1] == "--max-width"@,
        crate::text::all_digits(dezoomify_arguments(dzi_url, output, max_width)[2]),
        crate::text::digits_value(dezoomify_arguments(dzi_url, output, max_width)[2])
            == max_width,
        dezoomify_arguments(dzi_url, output, max_width)[7] == dzi_url,
        dezoomify_arguments(dzi_url, output, max_width)[8] == output,
{
    crate::text::lemma_decimal_digits(max_width as nat);
}

} // verus!
