//! The catalogue of wittgensteinsource.org: where its pages are, which
//! documents its collection list offers, which pages a document has, and
//! where the zoomable image of a page is served.
//!
//! HTML is parsed by the `scraper` crate; what the library reads from a
//! parsed page is handed over as plain strings, and every decision on them is
//! made (and proved) here.

use vstd::prelude::*;
use crate::text::{
    chars_of, contains_str, contains_text, find_char, lemma_split_once_rejoins, same_text,
    split_once, string_of, trim, trim_bounds,
};

verus! {

/// The view of one `<li>` element of the collection list: its text content,
/// and for each `<a>` element inside it, that link's text and `href`.
pub type ListItemView = (Seq<char>, Seq<(Seq<char>, Option<Seq<char>>)>);

/// One `<li>` element of the collection list, as plain strings.
pub type ListItem = (String, Vec<(String, Option<String>)>);

// ---------------------------------------------------------------------------
// Addresses
// ---------------------------------------------------------------------------

/// The site that serves the Nachlass.
pub open spec fn site() -> Seq<char> {
    "http://www.wittgensteinsource.org"@
}

/// The path of the list of the Bergen Nachlass Edition's documents.
pub open spec fn collection_list_path() -> Seq<char> {
    "/agora_show_collection_list/1?customMenu=1"@
}

/// The IIP image service that serves a page as Deep Zoom image (DZI).
pub open spec fn dzi_service() -> Seq<char> {
    "http://www.wittgensteinsource.org/fcgi-bin/iipsrv.fcgi?DeepZoom=/var/www/wab/web/uploads/flexip_viewer_images/iip/"@
}

/// The name under which the image service files a document: `Ts-309` is
/// filed as `Ts-309-Stonborough`, every other document under its own name.
pub open spec fn dzi_document_name(doc: Seq<char>) -> Seq<char> {
    if doc == "Ts-309"@ {
        "Ts-309-Stonborough"@
    } else {
        doc
    }
}

/// The DZI address of page `page` of document `doc`.
pub open spec fn dzi_url(doc: Seq<char>, page: Seq<char>) -> Seq<char> {
    dzi_service() + dzi_document_name(doc) + seq![','] + page + ".tif.dzi"@
}

/// The address of the collection list.
pub fn collection_list_url() -> (url: String)
    ensures
        url@ == site() + collection_list_path(),
{
    let mut url = String::from_str("http://www.wittgensteinsource.org");
    url.append("/agora_show_collection_list/1?customMenu=1");
    url
}

/// The address of a page of the site, given its path relative to the site.
pub fn site_url(relative_url: &str) -> (url: String)
    ensures
        url@ == site() + relative_url@,
{
    let mut url = String::from_str("http://www.wittgensteinsource.org");
    url.append(relative_url);
    url
}

/// Build the DZI URL for a given document and page.
pub fn build_dzi_url(doc: &str, page: &str) -> (url: String)
    ensures
        url@ == dzi_url(doc@, page@),
{
    let mut url = String::from_str(
        "http://www.wittgensteinsource.org/fcgi-bin/iipsrv.fcgi?DeepZoom=/var/www/wab/web/uploads/flexip_viewer_images/iip/",
    );
    if same_text(doc, "Ts-309") {
        url.append("Ts-309-Stonborough");
    } else {
        url.append(doc);
    }
    url.append(",");
    url.append(page);
    url.append(".tif.dzi");
    proof {
        reveal_strlit(",");
        assert(","@ =~= seq![',']);
    }
    url
}

// ---------------------------------------------------------------------------
// Collection list
// ---------------------------------------------------------------------------

/// A link whose text, once trimmed, is `F` leads to a document's facsimile.
pub open spec fn is_facsimile_link(text: Seq<char>) -> bool {
    trim(text) == seq!['F']
}

/// A list item that mentions `(WL)` describes a document kept in the Wren
/// Library.
pub open spec fn in_wren_library(text: Seq<char>) -> bool {
    contains_text(text, "(WL)"@)
}

/// The `href` of every facsimile link among `anchors` that has one, in order.
pub open spec fn facsimile_hrefs(anchors: Seq<(Seq<char>, Option<Seq<char>>)>) -> Seq<Seq<char>>
    decreases anchors.len(),
{
    if anchors.len() == 0 {
        Seq::empty()
    } else {
        let earlier = facsimile_hrefs(anchors.drop_last());
        let (text, href) = anchors.last();
        if is_facsimile_link(text) && href is Some {
            earlier.push(href->0)
        } else {
            earlier
        }
    }
}

/// The facsimile links of the list `items`, in document order: those of
/// every item, or, when `wren_library_only`, of the Wren Library items only.
pub open spec fn document_links_of(items: Seq<ListItemView>, wren_library_only: bool) -> Seq<
    Seq<char>,
>
    decreases items.len(),
{
    if items.len() == 0 {
        Seq::empty()
    } else {
        let earlier = document_links_of(items.drop_last(), wren_library_only);
        let (text, anchors) = items.last();
        if wren_library_only && !in_wren_library(text) {
            earlier
        } else {
            earlier + facsimile_hrefs(anchors)
        }
    }
}

/// What the `scraper` crate finds in the HTML text `html`: for every `<li>`
/// element, in the order in which the parser created the elements, its text
/// content and, for every `<a>` element inside it, in the same order, that
/// element's text content and `href` attribute.
pub uninterp spec fn html_list_items(html: Seq<char>) -> Seq<ListItemView>;

/// Calls `scraper::Html::parse_document` on `html` and, on the parsed
/// document, `Html::select` with the selector `li`, then for each match
/// `ElementRef::text` and `ElementRef::select` with the selector `a`, and for
/// each of those `ElementRef::text` and `Element::attr("href")`. Its contract
/// claims only that the result is a function of `html`, named
/// `html_list_items`; what the HTML parser makes of the text is not stated.
#[verifier::external_body]
fn scrape_list_items(html: &str) -> (items: Vec<ListItem>)
    ensures
        items.deep_view() == html_list_items(html@),
{
    let document = scraper::Html::parse_document(html);
    let li = scraper::Selector::parse("li").unwrap();
    let a = scraper::Selector::parse("a").unwrap();
    document.select(&li).map(|item| {
        let links = item.select(&a).map(|link| (
            link.text().collect::<String>(),
            link.value().attr("href").map(|href| href.to_string()),
        )).collect();
        (item.text().collect::<String>(), links)
    }).collect()
}

/// Whether `text`, trimmed of whitespace, is exactly `F`.
pub fn is_facsimile_link_text(text: &str) -> (r: bool)
    ensures
        r == is_facsimile_link(text@),
{
    let v = chars_of(text);
    let (lo, hi) = trim_bounds(&v);
    let r = hi - lo == 1 && v[lo] == 'F';
    proof {
        let t = v@.subrange(lo as int, hi as int);
        assert(t.len() == hi - lo);
        if hi - lo == 1 {
            assert(t[0] == v@[lo as int]);
            if r {
                assert(t =~= seq!['F']);
            } else {
                assert(seq!['F'][0] == 'F');
                assert(t != seq!['F']);
            }
        } else {
            assert(seq!['F'].len() == 1);
        }
    }
    r
}

/// The facsimile links of the collection list, given the list items that
/// the HTML parser found in it.
pub fn links_from_list_items(items: &Vec<ListItem>, wren_library_only: bool) -> (links: Vec<
    String,
>)
    ensures
        links.deep_view() == document_links_of(items.deep_view(), wren_library_only),
{
    let mut links: Vec<String> = Vec::new();
    let ghost all = items.deep_view();
    let mut i: usize = 0;
    while i < items.len()
        invariant
            i <= items.len(),
            all == items.deep_view(),
            links.deep_view() == document_links_of(all.take(i as int), wren_library_only),
        decreases items.len() - i,
    {
        let ghost before = links.deep_view();
        let (text, anchors) = &items[i];
        assert(all.take(i + 1).drop_last() =~= all.take(i as int));
        assert(all.take(i + 1).last() == all[i as int]);
        if !wren_library_only || contains_str(text.as_str(), "(WL)") {
            let ghost av = anchors.deep_view();
            let mut j: usize = 0;
            while j < anchors.len()
                invariant
                    j <= anchors.len(),
                    av == anchors.deep_view(),
                    links.deep_view() == before + facsimile_hrefs(av.take(j as int)),
                decreases anchors.len() - j,
            {
                let (link_text, href) = &anchors[j];
                assert(av.take(j + 1).drop_last() =~= av.take(j as int));
                assert(av.take(j + 1).last() == av[j as int]);
                if is_facsimile_link_text(link_text.as_str()) {
                    match href {
                        Some(h) => {
                            let ghost prev = links.deep_view();
                            links.push(h.clone());
                            assert(links.deep_view() =~= prev.push(h@));
                        },
                        None => {},
                    }
                }
                j = j + 1;
            }
            assert(av.take(anchors.len() as int) =~= av);
        }
        i = i + 1;
    }
    assert(all.take(items.len() as int) =~= all);
    links
}

/// The facsimile links of the collection list `html`: the `href` of every
/// link whose text is `F`, of every list item or, when `wren_library_only`,
/// of the items that mention `(WL)`.
pub fn document_links(html: &str, wren_library_only: bool) -> (links: Vec<String>)
    ensures
        links.deep_view() == document_links_of(html_list_items(html@), wren_library_only),
{
    let items = scrape_list_items(html);
    links_from_list_items(&items, wren_library_only)
}

// ---------------------------------------------------------------------------
// Pages of a document
// ---------------------------------------------------------------------------

/// The `(document, page)` pairs named by the `data-title` attributes
/// `titles`, in order: each title of the form `document,page` gives the text
/// before its first comma and the text after it.
pub open spec fn pages_of_titles(titles: Seq<Option<Seq<char>>>) -> Seq<(Seq<char>, Seq<char>)>
    decreases titles.len(),
{
    if titles.len() == 0 {
        Seq::empty()
    } else {
        let earlier = pages_of_titles(titles.drop_last());
        match titles.last() {
            Some(title) => match split_once(title, ',') {
                Some(pair) => earlier.push(pair),
                None => earlier,
            },
            None => earlier,
        }
    }
}

/// What the `scraper` crate finds in the HTML text `html`: for every `<a>`
/// element, in the order in which the parser created the elements, its
/// `data-title` attribute.
pub uninterp spec fn html_anchor_titles(html: Seq<char>) -> Seq<Option<Seq<char>>>;

/// Calls `scraper::Html::parse_document` on `html` and, on the parsed
/// document, `Html::select` with the selector `a`, then `Element::attr` with
/// `data-title` on each match. Its contract claims only that the result is a
/// function of `html`, named `html_anchor_titles`; what the HTML parser makes
/// of the text is not stated.
#[verifier::external_body]
fn scrape_anchor_titles(html: &str) -> (titles: Vec<Option<String>>)
    ensures
        titles.deep_view() == html_anchor_titles(html@),
{
    let document = scraper::Html::parse_document(html);
    let a = scraper::Selector::parse("a").unwrap();
    document.select(&a).map(|link| link.value().attr("data-title").map(|t| t.to_string())).collect()
}

/// `str::split_once` at the first `c`.
pub fn split_once_at(s: &str, c: char) -> (r: Option<(String, String)>)
    ensures
        r.deep_view() == split_once(s@, c),
{
    let v = chars_of(s);
    match find_char(&v, c) {
        Some(i) => {
            let before = string_of(&v, 0, i);
            let after = string_of(&v, i + 1, v.len());
            assert(before@ =~= v@.take(i as int));
            assert(after@ =~= v@.skip(i + 1));
            Some((before, after))
        },
        None => None,
    }
}

/// The pages named by the `data-title` attributes of a document's links.
pub fn pages_from_titles(titles: &Vec<Option<String>>) -> (pages: Vec<(String, String)>)
    ensures
        pages.deep_view() == pages_of_titles(titles.deep_view()),
{
    let mut pages: Vec<(String, String)> = Vec::new();
    let ghost all = titles.deep_view();
    let mut i: usize = 0;
    while i < titles.len()
        invariant
            i <= titles.len(),
            all == titles.deep_view(),
            pages.deep_view() == pages_of_titles(all.take(i as int)),
        decreases titles.len() - i,
    {
        assert(all.take(i + 1).drop_last() =~= all.take(i as int));
        assert(all.take(i + 1).last() == all[i as int]);
        match &titles[i] {
            Some(title) => {
                match split_once_at(title.as_str(), ',') {
                    Some(pair) => {
                        let ghost prev = pages.deep_view();
                        pages.push(pair);
                        assert(pages.deep_view() =~= prev.push(split_once(title@, ',')->0));
                    },
                    None => {},
                }
            },
            None => {},
        }
        i = i + 1;
    }
    assert(all.take(titles.len() as int) =~= all);
    pages
}

/// The `(document, page)` pairs that a document's page `html` lists,
/// read from the `data-title` attributes of its links.
pub fn pages_for_doc(html: &str) -> (pages: Vec<(String, String)>)
    ensures
        pages.deep_view() == pages_of_titles(html_anchor_titles(html@)),
{
    let titles = scrape_anchor_titles(html);
    pages_from_titles(&titles)
}

// ---------------------------------------------------------------------------
// Laws
// ---------------------------------------------------------------------------

/// The items of the list `items` that belong to the Wren Library, in order.
pub open spec fn wren_library_items(items: Seq<ListItemView>) -> Seq<ListItemView> {
    items.filter(|item: ListItemView| in_wren_library(item.0))
}

/// Restricting the collection list to the Wren Library gives the links of
/// the Wren Library items, and only those: the same as taking all links of
/// the list filtered down to the items that mention `(WL)`.
pub proof fn lemma_wren_library_links(items: Seq<ListItemView>)
    ensures
        document_links_of(items, true) == document_links_of(wren_library_items(items), false),
    decreases items.len(),
{
    reveal_with_fuel(Seq::<_>::filter, 1);
    if items.len() > 0 {
        lemma_wren_library_links(items.drop_last());
        let f = wren_library_items(items);
        let f0 = wren_library_items(items.drop_last());
        if in_wren_library(items.last().0) {
            assert(f == f0.push(items.last()));
            assert(f.drop_last() =~= f0);
        } else {
            assert(f == f0);
        }
    }
}

/// Every facsimile link comes from a link of the list whose text is `F`.
pub proof fn lemma_facsimile_hrefs_sound(anchors: Seq<(Seq<char>, Option<Seq<char>>)>, k: int)
    requires
        0 <= k < facsimile_hrefs(anchors).len(),
    ensures
        exists|j: int|
            0 <= j < anchors.len() && is_facsimile_link(#[trigger] anchors[j].0) && anchors[j].1
                == Some(facsimile_hrefs(anchors)[k]),
    decreases anchors.len(),
{
    let earlier = facsimile_hrefs(anchors.drop_last());
    if k < earlier.len() {
        lemma_facsimile_hrefs_sound(anchors.drop_last(), k);
        let j = choose|j: int|
            0 <= j < anchors.drop_last().len() && is_facsimile_link(
                #[trigger] anchors.drop_last()[j].0,
            ) && anchors.drop_last()[j].1 == Some(earlier[k]);
        assert(anchors[j] == anchors.drop_last()[j]);
    } else {
        let j = anchors.len() - 1;
        assert(anchors[j] == anchors.last());
    }
}

/// Every page read from a document comes from one of its titles: the title
/// is the document name, a comma and the page name, and the document name
/// holds no comma.
pub proof fn lemma_pages_come_from_titles(titles: Seq<Option<Seq<char>>>, k: int)
    requires
        0 <= k < pages_of_titles(titles).len(),
    ensures
        ({
            let (doc, page) = pages_of_titles(titles)[k];
            &&& !doc.contains(',')
            &&& exists|j: int|
                0 <= j < titles.len() && #[trigger] titles[j] == Some(doc + seq![','] + page)
        }),
    decreases titles.len(),
{
    let earlier = pages_of_titles(titles.drop_last());
    if k < earlier.len() {
        lemma_pages_come_from_titles(titles.drop_last(), k);
        let (doc, page) = earlier[k];
        let j = choose|j: int|
            0 <= j < titles.drop_last().len() && #[trigger] titles.drop_last()[j] == Some(
                doc + seq![','] + page,
            );
        assert(titles[j] == titles.drop_last()[j]);
    } else {
        let title = titles.last()->0;
        lemma_split_once_rejoins(title, ',');
        assert(titles[titles.len() - 1] == titles.last());
    }
}

} // verus!

verus! {

// ---------------------------------------------------------------------------
// Laws characterising the readings by what they keep
// ---------------------------------------------------------------------------

/// A link that leads to a facsimile and has an address.
pub open spec fn is_facsimile_anchor(anchor: (Seq<char>, Option<Seq<char>>)) -> bool {
    is_facsimile_link(anchor.0) && anchor.1 is Some
}

/// The facsimile links of a list item's links, in order.
pub open spec fn facsimile_anchors(anchors: Seq<(Seq<char>, Option<Seq<char>>)>) -> Seq<
    (Seq<char>, Option<Seq<char>>),
> {
    anchors.filter(|anchor: (Seq<char>, Option<Seq<char>>)| is_facsimile_anchor(anchor))
}

/// The address of a link that has one.
pub open spec fn anchor_address(anchor: (Seq<char>, Option<Seq<char>>)) -> Seq<char> {
    anchor.1->0
}

/// The facsimile addresses of an item are the addresses of all its links
/// whose text is `F` and that have one, in order, whatever the addresses
/// hold: nothing is added, dropped or reordered.
pub proof fn lemma_facsimile_hrefs_keep_every_facsimile_link(
    anchors: Seq<(Seq<char>, Option<Seq<char>>)>,
)
    ensures
        facsimile_hrefs(anchors) == facsimile_anchors(anchors).map_values(
            |anchor: (Seq<char>, Option<Seq<char>>)| anchor_address(anchor),
        ),
    decreases anchors.len(),
{
    if anchors.len() > 0 {
        let rest = anchors.drop_last();
        let last = anchors.last();
        lemma_facsimile_hrefs_keep_every_facsimile_link(rest);
        assert(anchors =~= rest.push(last));
        rest.lemma_filter_push(
            last,
            |anchor: (Seq<char>, Option<Seq<char>>)| is_facsimile_anchor(anchor),
        );
        let f = |anchor: (Seq<char>, Option<Seq<char>>)| anchor_address(anchor);
        let kept = facsimile_anchors(rest);
        assert(kept.push(last).map_values(f) =~= kept.map_values(f).push(f(last)));
    }
}

/// Every link whose text is `F` and that has an address contributes that
/// address to the item's facsimile addresses.
pub proof fn lemma_facsimile_hrefs_complete(anchors: Seq<(Seq<char>, Option<Seq<char>>)>, j: int)
    requires
        0 <= j < anchors.len(),
        is_facsimile_anchor(anchors[j]),
    ensures
        facsimile_hrefs(anchors).contains(anchors[j].1->0),
    decreases anchors.len(),
{
    let rest = anchors.drop_last();
    if j < anchors.len() - 1 {
        assert(rest[j] == anchors[j]);
        lemma_facsimile_hrefs_complete(rest, j);
        let k = choose|k: int|
            0 <= k < facsimile_hrefs(rest).len() && facsimile_hrefs(rest)[k] == anchors[j].1->0;
        assert(facsimile_hrefs(anchors)[k] == facsimile_hrefs(rest)[k]);
    } else {
        let n = facsimile_hrefs(rest).len() as int;
        assert(facsimile_hrefs(anchors)[n] == anchors[j].1->0);
    }
}

/// The list items whose links are read: all of them, or only the Wren
/// Library items.
pub open spec fn kept_items(items: Seq<ListItemView>, wren_library_only: bool) -> Seq<
    ListItemView,
> {
    if wren_library_only {
        wren_library_items(items)
    } else {
        items
    }
}

/// The links of a collection list are the facsimile addresses of the kept
/// items, item after item, in order.
pub proof fn lemma_document_links_item_by_item(items: Seq<ListItemView>, wren_library_only: bool)
    ensures
        document_links_of(items, wren_library_only) == kept_items(
            items,
            wren_library_only,
        ).map_values(|item: ListItemView| facsimile_hrefs(item.1)).flatten(),
    decreases items.len(),
{
    reveal_with_fuel(Seq::<_>::filter, 1);
    let f = |item: ListItemView| facsimile_hrefs(item.1);
    if items.len() == 0 {
        assert(kept_items(items, wren_library_only).map_values(f) =~= Seq::<Seq<Seq<char>>>::empty());
    } else {
        let rest = items.drop_last();
        let last = items.last();
        lemma_document_links_item_by_item(rest, wren_library_only);
        let k0 = kept_items(rest, wren_library_only);
        let k = kept_items(items, wren_library_only);
        if wren_library_only && !in_wren_library(last.0) {
            assert(k == k0);
        } else {
            assert(k == k0.push(last)) by {
                if !wren_library_only {
                    assert(items =~= rest.push(last));
                }
            }
            assert(k.map_values(f) =~= k0.map_values(f).push(f(last)));
            k0.map_values(f).lemma_flatten_push(f(last));
        }
    }
}

/// Every facsimile link of every kept item is among the links read from the
/// collection list, whatever its address holds.
pub proof fn lemma_document_links_complete(
    items: Seq<ListItemView>,
    wren_library_only: bool,
    i: int,
    j: int,
)
    requires
        0 <= i < items.len(),
        wren_library_only ==> in_wren_library(items[i].0),
        0 <= j < items[i].1.len(),
        is_facsimile_anchor(items[i].1[j]),
    ensures
        document_links_of(items, wren_library_only).contains(items[i].1[j].1->0),
    decreases items.len(),
{
    let rest = items.drop_last();
    let earlier = document_links_of(rest, wren_library_only);
    let h = items[i].1[j].1->0;
    if i < items.len() - 1 {
        assert(rest[i] == items[i]);
        lemma_document_links_complete(rest, wren_library_only, i, j);
        let k = choose|k: int| 0 <= k < earlier.len() && earlier[k] == h;
        assert(document_links_of(items, wren_library_only)[k] == earlier[k]);
    } else {
        assert(items.last() == items[i]);
        lemma_facsimile_hrefs_complete(items[i].1, j);
        let hrefs = facsimile_hrefs(items[i].1);
        let k = choose|k: int| 0 <= k < hrefs.len() && hrefs[k] == h;
        assert(document_links_of(items, wren_library_only)[earlier.len() + k] == hrefs[k]);
    }
}

/// A title that names a page: present, and holding a comma.
pub open spec fn is_page_title(title: Option<Seq<char>>) -> bool {
    title is Some && split_once(title->0, ',') is Some
}

/// The page that a page title names.
pub open spec fn titled_page(title: Option<Seq<char>>) -> (Seq<char>, Seq<char>) {
    split_once(title->0, ',')->0
}

/// The pages of a document are those of its page titles, one page for each
/// title that holds a comma, in order, whatever the titles around it: the
/// `k`-th page is the split of the `k`-th such title.
pub proof fn lemma_pages_one_per_page_title(titles: Seq<Option<Seq<char>>>)
    ensures
        pages_of_titles(titles) == titles.filter(
            |title: Option<Seq<char>>| is_page_title(title),
        ).map_values(|title: Option<Seq<char>>| titled_page(title)),
        pages_of_titles(titles).len() == titles.filter(
            |title: Option<Seq<char>>| is_page_title(title),
        ).len(),
    decreases titles.len(),
{
    let p = |title: Option<Seq<char>>| is_page_title(title);
    let f = |title: Option<Seq<char>>| titled_page(title);
    if titles.len() == 0 {
        reveal_with_fuel(Seq::<_>::filter, 1);
        assert(titles.filter(p).map_values(f) =~= Seq::<(Seq<char>, Seq<char>)>::empty());
    } else {
        let rest = titles.drop_last();
        let last = titles.last();
        lemma_pages_one_per_page_title(rest);
        assert(titles =~= rest.push(last));
        rest.lemma_filter_push(last, p);
        let kept = rest.filter(p);
        assert(kept.push(last).map_values(f) =~= kept.map_values(f).push(f(last)));
    }
}

/// Every page title gives its page, wherever it stands among the titles.
pub proof fn lemma_pages_complete(titles: Seq<Option<Seq<char>>>, j: int)
    requires
        0 <= j < titles.len(),
        is_page_title(titles[j]),
    ensures
        pages_of_titles(titles).contains(titled_page(titles[j])),
    decreases titles.len(),
{
    let rest = titles.drop_last();
    let earlier = pages_of_titles(rest);
    if j < titles.len() - 1 {
        assert(rest[j] == titles[j]);
        lemma_pages_complete(rest, j);
        let k = choose|k: int| 0 <= k < earlier.len() && earlier[k] == titled_page(titles[j]);
        assert(pages_of_titles(titles)[k] == earlier[k]);
    } else {
        assert(titles.last() == titles[j]);
        assert(pages_of_titles(titles)[earlier.len() as int] == titled_page(titles[j]));
    }
}

/// The image service files every document under its own name, except
/// `Ts-309`, which it files as `Ts-309-Stonborough`.
pub proof fn lemma_dzi_url_names(doc: Seq<char>, page: Seq<char>)
    ensures
        doc != "Ts-309"@ ==> dzi_url(doc, page)
            == "http://www.wittgensteinsource.org/fcgi-bin/iipsrv.fcgi?DeepZoom=/var/www/wab/web/uploads/flexip_viewer_images/iip/"@
            + doc + seq![','] + page + ".tif.dzi"@,
        doc == "Ts-309"@ ==> dzi_url(doc, page)
            == "http://www.wittgensteinsource.org/fcgi-bin/iipsrv.fcgi?DeepZoom=/var/www/wab/web/uploads/flexip_viewer_images/iip/"@
            + "Ts-309-Stonborough"@ + seq![','] + page + ".tif.dzi"@,
{
}

} // verus!
