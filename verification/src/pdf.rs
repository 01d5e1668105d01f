//! The PDF of a document: which JPEG quality the command line asks for,
//! which pages go into the PDF, how each page is labelled, and how a page's
//! pixels are stored in it.
//!
//! JPEG compression is done by the `image` crate.

use vstd::prelude::*;
use crate::text::{decimal, lemma_parse_u8_decimal, parse_u8, parse_u8_str, same_text};

verus! {

// ---------------------------------------------------------------------------
// Quality
// ---------------------------------------------------------------------------

/// The JPEG quality used when the command line gives none, or gives one that
/// is not a number from 0 to 255.
pub const DEFAULT_JPEG_QUALITY: u8 = 90;

/// The JPEG quality that the `--pdf` value `arg` asks for: `None` (raw RGB)
/// for `uncompressed`, else the number it holds, or the default when it
/// holds none.
pub open spec fn pdf_quality_of(arg: Seq<char>) -> Option<u8> {
    if arg == "uncompressed"@ {
        None
    } else {
        match parse_u8(arg) {
            Some(q) => Some(q),
            None => Some(DEFAULT_JPEG_QUALITY),
        }
    }
}

/// The JPEG quality that the `--pdf` value `arg` asks for.
pub fn pdf_quality(arg: &str) -> (quality: Option<u8>)
    ensures
        quality == pdf_quality_of(arg@),
{
    if same_text(arg, "uncompressed") {
        None
    } else {
        match parse_u8_str(arg) {
            Some(q) => Some(q),
            None => Some(DEFAULT_JPEG_QUALITY),
        }
    }
}

/// `--pdf=Q` asks for quality `Q`, for every quality that fits in a byte.
pub proof fn lemma_pdf_quality_reads_numerals(q: u8)
    ensures
        pdf_quality_of(decimal(q as nat)) == Some(q),
{
    lemma_parse_u8_decimal(q);
    reveal_strlit("uncompressed");
    crate::text::lemma_decimal_first(q as nat);
    assert(decimal(q as nat) != "uncompressed"@) by {
        assert("uncompressed"@[0] == 'u');
    }
}

// ---------------------------------------------------------------------------
// Pages
// ---------------------------------------------------------------------------

/// The names of the pages among `pages` that have an image on disk
/// (`has_image[i]` for page `i`), in order.
pub open spec fn pages_with_images(pages: Seq<(Seq<char>, Seq<char>)>, has_image: Seq<bool>) -> Seq<
    Seq<char>,
>
    decreases pages.len(),
{
    if pages.len() == 0 {
        Seq::empty()
    } else {
        let earlier = pages_with_images(pages.drop_last(), has_image);
        if has_image[pages.len() - 1] {
            earlier.push(pages.last().1)
        } else {
            earlier
        }
    }
}

/// A PDF cannot be made: no page of the document has an image.
#[derive(Debug, Clone)]
pub struct NoImagesFound {
    /// The document's name.
    pub doc_name: String,
}

/// The message of a `NoImagesFound` error for document `doc_name`.
pub open spec fn no_images_message(doc_name: Seq<char>) -> Seq<char> {
    "No images found for "@ + doc_name
}

impl NoImagesFound {
    /// The error's message.
    pub fn message(&self) -> (m: String)
        ensures
            m@ == no_images_message(self.doc_name@),
    {
        let mut m = String::from_str("No images found for ");
        m.append(self.doc_name.as_str());
        m
    }
}

/// The names of the pages of `doc_name` that go into its PDF: the pages with
/// an image, in order; an error when there is none.
pub fn pdf_pages(doc_name: &str, pages: &Vec<(String, String)>, has_image: &Vec<bool>) -> (r:
    Result<Vec<String>, NoImagesFound>)
    requires
        has_image.len() == pages.len(),
    ensures
        r matches Ok(names) ==> names.deep_view() == pages_with_images(
            pages.deep_view(),
            has_image@,
        ) && names.len() > 0,
        r matches Err(e) ==> e.doc_name@ == doc_name@ && pages_with_images(
            pages.deep_view(),
            has_image@,
        ).len() == 0,
{
    let mut names: Vec<String> = Vec::new();
    let ghost all = pages.deep_view();
    let mut i: usize = 0;
    while i < pages.len()
        invariant
            i <= pages.len() == has_image.len(),
            all == pages.deep_view(),
            names.deep_view() == pages_with_images(all.take(i as int), has_image@),
        decreases pages.len() - i,
    {
        assert(all.take(i + 1).drop_last() =~= all.take(i as int));
        assert(all.take(i + 1).last() == all[i as int]);
        if has_image[i] {
            let ghost prev = names.deep_view();
            names.push(pages[i].1.clone());
            assert(names.deep_view() =~= prev.push(all[i as int].1));
        }
        i = i + 1;
    }
    assert(all.take(pages.len() as int) =~= all);
    if names.len() == 0 {
        Err(NoImagesFound { doc_name: String::from_str(doc_name) })
    } else {
        Ok(names)
    }
}

/// Every page of the PDF is a page of the document that has an image.
pub proof fn lemma_pdf_pages_have_images(
    pages: Seq<(Seq<char>, Seq<char>)>,
    has_image: Seq<bool>,
    k: int,
)
    requires
        has_image.len() >= pages.len(),
        0 <= k < pages_with_images(pages, has_image).len(),
    ensures
        exists|j: int|
            0 <= j < pages.len() && has_image[j] && #[trigger] pages[j].1 == pages_with_images(
                pages,
                has_image,
            )[k],
    decreases pages.len(),
{
    let earlier = pages_with_images(pages.drop_last(), has_image);
    if k < earlier.len() {
        lemma_pdf_pages_have_images(pages.drop_last(), has_image, k);
        let j = choose|j: int|
            0 <= j < pages.drop_last().len() && has_image[j] && #[trigger] pages.drop_last()[j].1
                == earlier[k];
        assert(pages[j] == pages.drop_last()[j]);
    } else {
        let j = pages.len() - 1;
        assert(pages[j] == pages.last());
    }
}

/// The text printed at the foot of a page: the document and page names,
/// joined by a comma.
pub open spec fn page_label_of(doc_name: Seq<char>, page_name: Seq<char>) -> Seq<char> {
    doc_name + seq![','] + page_name
}

/// The text printed at the foot of page `page_name` of `doc_name`.
pub fn page_label(doc_name: &str, page_name: &str) -> (label: String)
    ensures
        label@ == page_label_of(doc_name@, page_name@),
{
    let mut label = String::from_str(doc_name);
    label.append(",");
    label.append(page_name);
    proof {
        reveal_strlit(",");
        assert(","@ =~= seq![',']);
    }
    label
}

// ---------------------------------------------------------------------------
// Page images
// ---------------------------------------------------------------------------

/// How the pixels of a page are stored in the PDF.
#[derive(Debug, PartialEq, Eq, Structural, Clone, Copy)]
pub enum PageImageFilter {
    /// JPEG (DCT) compressed.
    Dct,
}

/// What the `image` crate's JPEG encoder writes for the 8-bit RGB pixels
/// `rgb` of a `width` by `height` image at quality `quality`.
pub uninterp spec fn jpeg_encoding(rgb: Seq<u8>, width: u32, height: u32, quality: u8) -> Seq<u8>;

/// Calls `image::codecs::jpeg::JpegEncoder::new_with_quality` on an
/// in-memory buffer and `ImageEncoder::write_image` with the 8-bit RGB pixels
/// `rgb`. The encoder panics on a buffer whose length is not three bytes per
/// pixel and fails on a width or height of 0 or above 65535, which the
/// `requires` leaves out; writing to memory does not fail. Its contract
/// claims only that the bytes written are a function of the arguments, named
/// `jpeg_encoding`; the JPEG format itself is not stated.
#[verifier::external_body]
fn encode_jpeg(rgb: &[u8], width: u32, height: u32, quality: u8) -> (jpeg: Vec<u8>)
    requires
        1 <= width <= 65535,
        1 <= height <= 65535,
        rgb@.len() == width * height * 3,
    ensures
        jpeg@ == jpeg_encoding(rgb@, width, height, quality),
{
    let mut buf = std::io::Cursor::new(Vec::new());
    let encoder = image::codecs::jpeg::JpegEncoder::new_with_quality(&mut buf, quality);
    image::ImageEncoder::write_image(encoder, rgb, width, height, image::ExtendedColorType::Rgb8)
        .expect("JPEG encoding failed");
    buf.into_inner()
}

/// The bytes of a page image as stored in the PDF, and their filter: JPEG at
/// `quality` when one is given, else the raw RGB pixels.
pub fn encode_page_image(rgb: Vec<u8>, width: u32, height: u32, quality: Option<u8>) -> (r: (
    Vec<u8>,
    Option<PageImageFilter>,
))
    requires
        quality is Some ==> 1 <= width <= 65535 && 1 <= height <= 65535 && rgb@.len() == width
            * height * 3,
    ensures
        quality matches Some(q) ==> r.0@ == jpeg_encoding(rgb@, width, height, q) && r.1 == Some(
            PageImageFilter::Dct,
        ),
        quality is None ==> r.0@ == rgb@ && r.1 is None,
{
    match quality {
        Some(q) => (encode_jpeg(rgb.as_slice(), width, height, q), Some(PageImageFilter::Dct)),
        None => (rgb, None),
    }
}

} // verus!

verus! {

/// Each page of a document beside whether it has an image.
pub open spec fn flagged_pages(pages: Seq<(Seq<char>, Seq<char>)>, has_image: Seq<bool>) -> Seq<
    ((Seq<char>, Seq<char>), bool),
> {
    Seq::new(pages.len(), |i: int| (pages[i], has_image[i]))
}

/// The PDF holds the names of exactly the pages that have an image, in the
/// document's order: nothing is added, dropped or reordered.
pub proof fn lemma_pdf_pages_are_the_pages_with_images(
    pages: Seq<(Seq<char>, Seq<char>)>,
    has_image: Seq<bool>,
)
    requires
        has_image.len() >= pages.len(),
    ensures
        pages_with_images(pages, has_image) == flagged_pages(pages, has_image).filter(
            |p: ((Seq<char>, Seq<char>), bool)| p.1,
        ).map_values(|p: ((Seq<char>, Seq<char>), bool)| p.0.1),
    decreases pages.len(),
{
    let sel = |p: ((Seq<char>, Seq<char>), bool)| p.1;
    let name = |p: ((Seq<char>, Seq<char>), bool)| p.0.1;
    if pages.len() == 0 {
        reveal_with_fuel(Seq::<_>::filter, 1);
        assert(flagged_pages(pages, has_image).filter(sel).map_values(name) =~= Seq::<
            Seq<char>,
        >::empty());
    } else {
        let rest = pages.drop_last();
        let n = pages.len() - 1;
        lemma_pdf_pages_are_the_pages_with_images(rest, has_image);
        let last = (pages.last(), has_image[n]);
        assert(flagged_pages(pages, has_image) =~= flagged_pages(rest, has_image).push(last));
        flagged_pages(rest, has_image).lemma_filter_push(last, sel);
        let kept = flagged_pages(rest, has_image).filter(sel);
        assert(kept.push(last).map_values(name) =~= kept.map_values(name).push(name(last)));
    }
}

/// Every page that has an image is in the PDF, and the PDF is empty (so
/// that no PDF is made) exactly when no page has an image.
pub proof fn lemma_pdf_pages_complete(pages: Seq<(Seq<char>, Seq<char>)>, has_image: Seq<bool>)
    requires
        has_image.len() >= pages.len(),
    ensures
        forall|j: int|
            0 <= j < pages.len() && #[trigger] has_image[j] ==> pages_with_images(
                pages,
                has_image,
            ).contains(pages[j].1),
        pages_with_images(pages, has_image).len() == 0 <==> forall|j: int|
            0 <= j < pages.len() ==> !#[trigger] has_image[j],
    decreases pages.len(),
{
    if pages.len() > 0 {
        let rest = pages.drop_last();
        let n = pages.len() - 1;
        lemma_pdf_pages_complete(rest, has_image);
        let earlier = pages_with_images(rest, has_image);
        assert forall|j: int|
            0 <= j < pages.len() && #[trigger] has_image[j] implies pages_with_images(
            pages,
            has_image,
        ).contains(pages[j].1) by {
            if j < n {
                assert(rest[j] == pages[j]);
                let k = choose|k: int| 0 <= k < earlier.len() && earlier[k] == rest[j].1;
                assert(pages_with_images(pages, has_image)[k] == earlier[k]);
            } else {
                assert(pages_with_images(pages, has_image)[earlier.len() as int] == pages[j].1);
            }
        }
        if pages_with_images(pages, has_image).len() == 0 {
            assert forall|j: int| 0 <= j < pages.len() implies !#[trigger] has_image[j] by {
                if has_image[j] {
                    assert(pages_with_images(pages, has_image).contains(pages[j].1));
                }
            }
        }
        if forall|j: int| 0 <= j < pages.len() ==> !#[trigger] has_image[j] {
            assert(!has_image[n]);
            assert forall|j: int| 0 <= j < rest.len() implies !#[trigger] has_image[j] by {
                assert(!has_image[j]);
            }
        }
    }
}

} // verus!
