//! Compact copies of the downloaded pages: which pages get a WebP copy and
//! what the files are called.

use vstd::prelude::*;

verus! {

/// The file that holds the PNG download of page `page_name`.
pub open spec fn png_file_name_of(page_name: Seq<char>) -> Seq<char> {
    page_name + ".png"@
}

/// The file that holds the WebP copy of page `page_name`.
pub open spec fn webp_file_name_of(page_name: Seq<char>) -> Seq<char> {
    page_name + ".webp"@
}

/// The file that holds the PNG download of page `page_name`.
pub fn png_file_name(page_name: &str) -> (name: String)
    ensures
        name@ == png_file_name_of(page_name@),
{
    let mut name = String::from_str(page_name);
    name.append(".png");
    name
}

/// The file that holds the WebP copy of page `page_name`.
pub fn webp_file_name(page_name: &str) -> (name: String)
    ensures
        name@ == webp_file_name_of(page_name@),
{
    let mut name = String::from_str(page_name);
    name.append(".webp");
    name
}

/// Whether a page gets a WebP copy: only a page whose PNG is on disk and
/// that has no WebP copy yet.
pub fn needs_webp(png_exists: bool, webp_exists: bool) -> (r: bool)
    ensures
        r == (png_exists && !webp_exists),
{
    png_exists && !webp_exists
}

} // verus!
