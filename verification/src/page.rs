//! A crawled page: what is read out of its HTML, and the database row it is
//! stored as.

use vstd::prelude::*;
use crate::links::{extract_links, page_links, url_is_valid, url_parses};
use crate::scrape::{
    css_selector_parses, opt_strings_view, scraped_attr, scraped_inner_html, scraped_text,
    select_attr, select_inner_html, select_text, string_lists_view,
};
use crate::text::{joined, join_with, split_on, split_pieces, strings_view, law_join_split, law_split_join};
use crate::timestamp::{timestamp_text, Timestamp};

verus! {

/// A crawled page, as the crawler stores and serves it.
#[derive(Clone, Debug)]
pub struct DbPage {
    pub url: String,
    pub date: String,
    pub title: String,
    pub meta: String,
    pub content: String,
    pub subtitles: String,
    pub links: Vec<String>,
}

/// The contents of a `DbPage`.
pub struct PageFields {
    pub url: Seq<char>,
    pub date: Seq<char>,
    pub title: Seq<char>,
    pub meta: Seq<char>,
    pub content: Seq<char>,
    pub subtitles: Seq<char>,
    pub links: Seq<Seq<char>>,
}

impl View for DbPage {
    type V = PageFields;

    open spec fn view(&self) -> PageFields {
        PageFields {
            url: self.url@,
            date: self.date@,
            title: self.title@,
            meta: self.meta@,
            content: self.content@,
            subtitles: self.subtitles@,
            links: strings_view(self.links@),
        }
    }
}

/// A page as one row of the pages table: its links joined by `;`.
#[derive(Clone, Debug)]
pub struct PageRow {
    pub url: String,
    pub date: String,
    pub title: String,
    pub meta: String,
    pub content: String,
    pub subtitles: String,
    pub links: String,
}

/// The contents of a `PageRow`.
pub struct RowFields {
    pub url: Seq<char>,
    pub date: Seq<char>,
    pub title: Seq<char>,
    pub meta: Seq<char>,
    pub content: Seq<char>,
    pub subtitles: Seq<char>,
    pub links: Seq<char>,
}

impl View for PageRow {
    type V = RowFields;

    open spec fn view(&self) -> RowFields {
        RowFields {
            url: self.url@,
            date: self.date@,
            title: self.title@,
            meta: self.meta@,
            content: self.content@,
            subtitles: self.subtitles@,
            links: self.links@,
        }
    }
}

/// The separator of the list fields of a row.
pub open spec fn list_sep() -> char {
    ';'
}

/// The inner HTML of the elements that `selector` matches; none where the
/// selector does not parse.
pub open spec fn matched_inner_html(html: Seq<char>, selector: Seq<char>) -> Seq<Seq<char>> {
    if css_selector_parses(selector) {
        scraped_inner_html(html, selector)
    } else {
        Seq::empty()
    }
}

/// The text nodes of the elements that `selector` matches; none where the
/// selector does not parse.
pub open spec fn matched_text(html: Seq<char>, selector: Seq<char>) -> Seq<Seq<Seq<char>>> {
    if css_selector_parses(selector) {
        scraped_text(html, selector)
    } else {
        Seq::empty()
    }
}

/// The attribute `attr` of the elements that `selector` matches; none where
/// the selector does not parse.
pub open spec fn matched_attr(html: Seq<char>, selector: Seq<char>, attr: Seq<char>) -> Seq<
    Option<Seq<char>>,
> {
    if css_selector_parses(selector) {
        scraped_attr(html, selector, attr)
    } else {
        Seq::empty()
    }
}

/// The selector of the description of a page.
pub open spec fn meta_selector() -> Seq<char> {
    "meta[name='description'], meta[property='og:description']"@
}

/// The first string, or nothing.
pub open spec fn first_or_empty(v: Seq<Seq<char>>) -> Seq<char> {
    if v.len() > 0 {
        v[0]
    } else {
        Seq::empty()
    }
}

/// The first value where it is there, else nothing.
pub open spec fn first_present(v: Seq<Option<Seq<char>>>) -> Seq<char> {
    if v.len() > 0 && v[0] is Some {
        v[0]->0
    } else {
        Seq::empty()
    }
}

/// The strings of the first list joined by `;`, or nothing.
pub open spec fn first_joined(v: Seq<Seq<Seq<char>>>) -> Seq<char> {
    if v.len() > 0 {
        joined(v[0], list_sep())
    } else {
        Seq::empty()
    }
}

/// The inner HTML of the first `title` element, or nothing.
pub open spec fn page_title(html: Seq<char>) -> Seq<char> {
    first_or_empty(matched_inner_html(html, "title"@))
}

/// The `content` of the first description `meta` element, or nothing.
pub open spec fn page_meta(html: Seq<char>) -> Seq<char> {
    first_present(matched_attr(html, meta_selector(), "content"@))
}

/// The text nodes of the first `body` element joined by `;`, or nothing.
pub open spec fn page_content(html: Seq<char>) -> Seq<char> {
    first_joined(matched_text(html, "body"@))
}

/// The inner HTML of every heading of levels one to four, joined by `;`.
pub open spec fn page_subtitles(html: Seq<char>) -> Seq<char> {
    joined(matched_inner_html(html, "h1, h2, h3, h4"@), list_sep())
}

/// The page that the document `html`, fetched from `url` at `date`, makes.
pub open spec fn parsed_page(url: Seq<char>, html: Seq<char>, date: (i64, u32)) -> PageFields {
    PageFields {
        url: url,
        date: timestamp_text(date),
        title: page_title(html),
        meta: page_meta(html),
        content: page_content(html),
        subtitles: page_subtitles(html),
        links: page_links(html, url),
    }
}

/// The row that stores the page `p`.
pub open spec fn row_of(p: PageFields) -> RowFields {
    RowFields {
        url: p.url,
        date: p.date,
        title: p.title,
        meta: p.meta,
        content: p.content,
        subtitles: p.subtitles,
        links: joined(p.links, list_sep()),
    }
}

/// The page that the row `r` is read back as.
pub open spec fn page_of(r: RowFields) -> PageFields {
    PageFields {
        url: r.url,
        date: r.date,
        title: r.title,
        meta: r.meta,
        content: r.content,
        subtitles: r.subtitles,
        links: split_pieces(r.links, list_sep()),
    }
}

/// The page fetched from `url` at `date`, made of what was read out of its
/// document: the inner HTML of its `title` elements, the `content` of its
/// description `meta` elements, the text nodes of its `body` elements, the
/// inner HTML of its headings, and its links.
pub fn assemble_page(
    url: &str,
    date: &Timestamp,
    titles: &Vec<String>,
    descriptions: &Vec<Option<String>>,
    bodies: &Vec<Vec<String>>,
    headings: &Vec<String>,
    links: Vec<String>,
) -> (page: DbPage)
    ensures
        page@ == (PageFields {
            url: url@,
            date: timestamp_text(date@),
            title: first_or_empty(strings_view(titles@)),
            meta: first_present(opt_strings_view(descriptions@)),
            content: first_joined(string_lists_view(bodies@)),
            subtitles: joined(strings_view(headings@), list_sep()),
            links: strings_view(links@),
        }),
{
    let title = if titles.len() > 0 {
        titles[0].clone()
    } else {
        String::new()
    };
    let meta = if descriptions.len() > 0 {
        match &descriptions[0] {
            Some(c) => c.clone(),
            None => String::new(),
        }
    } else {
        String::new()
    };
    let content = if bodies.len() > 0 {
        join_with(&bodies[0], ';')
    } else {
        String::new()
    };
    let subtitles = join_with(headings, ';');
    DbPage { url: url.to_owned(), date: date.to_text(), title, meta, content, subtitles, links }
}

/// Reads the page that the document `html`, fetched from `url` at `date`,
/// makes: its title, description, body text, headings and links.
pub fn parse_page(url: &str, html: &str, date: &Timestamp) -> (page: DbPage)
    requires
        url_parses(url@),
    ensures
        page@ == parsed_page(url@, html@, date@),
{
    let titles = match select_inner_html(html, "title") {
        Some(v) => v,
        None => Vec::new(),
    };
    let descriptions = match select_attr(
        html,
        "meta[name='description'], meta[property='og:description']",
        "content",
    ) {
        Some(v) => v,
        None => Vec::new(),
    };
    let bodies = match select_text(html, "body") {
        Some(v) => v,
        None => Vec::new(),
    };
    let headings = match select_inner_html(html, "h1, h2, h3, h4") {
        Some(v) => v,
        None => Vec::new(),
    };
    assert(strings_view(titles@) =~= matched_inner_html(html@, "title"@));
    assert(opt_strings_view(descriptions@) =~= matched_attr(html@, meta_selector(), "content"@));
    assert(string_lists_view(bodies@) =~= matched_text(html@, "body"@));
    assert(strings_view(headings@) =~= matched_inner_html(html@, "h1, h2, h3, h4"@));
    let links = extract_links(html, url);
    assemble_page(url, date, &titles, &descriptions, &bodies, &headings, links)
}

/// As `parse_page`, or `None` where `url` is not a url that the `url` crate
/// parses, which `parse_page` needs as the base of relative links.
pub fn try_parse_page(url: &str, html: &str, date: &Timestamp) -> (r: Option<DbPage>)
    ensures
        r is Some <==> url_parses(url@),
        r matches Some(page) ==> page@ == parsed_page(url@, html@, date@),
{
    if url_is_valid(url) {
        Some(parse_page(url, html, date))
    } else {
        None
    }
}

/// The row of the pages table that stores `page`.
pub fn page_row(page: &DbPage) -> (row: PageRow)
    ensures
        row@ == row_of(page@),
        row.url@ == page.url@,
        row.date@ == page.date@,
        row.title@ == page.title@,
        row.meta@ == page.meta@,
        row.content@ == page.content@,
        row.subtitles@ == page.subtitles@,
        row.links@ == joined(strings_view(page.links@), ';'),
{
    PageRow {
        url: page.url.clone(),
        date: page.date.clone(),
        title: page.title.clone(),
        meta: page.meta.clone(),
        content: page.content.clone(),
        subtitles: page.subtitles.clone(),
        links: join_with(&page.links, ';'),
    }
}

/// The page that a row of the pages table is read back as.
pub fn page_from_row(row: PageRow) -> (page: DbPage)
    ensures
        page@ == page_of(row@),
        page.url@ == row.url@,
        page.date@ == row.date@,
        page.title@ == row.title@,
        page.meta@ == row.meta@,
        page.content@ == row.content@,
        page.subtitles@ == row.subtitles@,
        strings_view(page.links@) == split_pieces(row.links@, ';'),
{
    let links = split_on(row.links.as_str(), ';');
    DbPage {
        url: row.url,
        date: row.date,
        title: row.title,
        meta: row.meta,
        content: row.content,
        subtitles: row.subtitles,
        links,
    }
}

/// The rows of the links table that a crawl of `page` stores: each link of
/// the page with the date of the page.
pub fn link_records(page: &DbPage) -> (records: Vec<(String, String)>)
    ensures
        records@.len() == page@.links.len(),
        forall|i: int|
            0 <= i < records@.len() ==> (#[trigger] records@[i]).0@ == page@.links[i]
                && records@[i].1@ == page@.date,
{
    let mut records: Vec<(String, String)> = Vec::new();
    let n = page.links.len();
    let mut i: usize = 0;
    while i < n
        invariant
            n == page.links@.len(),
            0 <= i <= n,
            records@.len() == i,
            forall|k: int|
                0 <= k < i ==> (#[trigger] records@[k]).0@ == page.links@[k]@
                    && records@[k].1@ == page.date@,
        decreases n - i,
    {
        records.push((page.links[i].clone(), page.date.clone()));
        i = i + 1;
    }
    records
}

/// Reading back the row of a page gives the same page, where the page has
/// at least one link and no link holds `;`.
pub proof fn law_page_row_roundtrip(p: PageFields)
    requires
        p.links.len() >= 1,
        forall|i: int| 0 <= i < p.links.len() ==> !(#[trigger] p.links[i]).contains(list_sep()),
    ensures
        page_of(row_of(p)) == p,
{
    law_split_join(p.links, list_sep());
}

/// Storing the page read from a row gives the same row, whatever the row.
pub proof fn law_row_page_roundtrip(r: RowFields)
    ensures
        row_of(page_of(r)) == r,
{
    law_join_split(r.links, list_sep());
}

} // verus!
