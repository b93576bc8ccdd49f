//! Laws that say what the library's operations do, each over all inputs:
//! joining and splitting, which links are kept, what a parsed page holds
//! against the fixed selectors it queries, and how a page and its row relate
//! field by field.

use vstd::prelude::*;
use crate::links::{kept_http, page_links, resolutions, url_resolution};
use crate::page::{page_of, parsed_page, row_of, PageFields, RowFields};
use crate::scrape::{css_selector_parses, scraped_attr, scraped_inner_html, scraped_text};
use crate::text::{joined, split_pieces};
use crate::timestamp::utc_naive_text;

verus! {

/// The total number of characters of `parts`.
pub open spec fn total_len(parts: Seq<Seq<char>>) -> nat
    decreases parts.len(),
{
    if parts.len() == 0 {
        0
    } else {
        total_len(parts.drop_last()) + parts.last().len()
    }
}

/// Joining no strings gives nothing, joining one gives it unchanged, and one
/// more string adds the separator and then that string at the end, whatever
/// the strings hold (the separator too).
pub proof fn law_join_parts(parts: Seq<Seq<char>>, p: Seq<char>, sep: char)
    ensures
        joined(Seq::empty(), sep) == Seq::<char>::empty(),
        joined(seq![p], sep) == p,
        parts.len() > 0 ==> joined(parts.push(p), sep) == joined(parts, sep) + seq![sep] + p,
{
    assert(parts.push(p).drop_last() =~= parts);
}

/// A join holds every character of every part and one separator between
/// each two neighbours: its length is the parts' total length plus one less
/// than their number.
pub proof fn law_join_length(parts: Seq<Seq<char>>, sep: char)
    requires
        parts.len() > 0,
    ensures
        joined(parts, sep).len() == total_len(parts) + parts.len() - 1,
    decreases parts.len(),
{
    if parts.len() > 1 {
        law_join_length(parts.drop_last(), sep);
    } else {
        assert(parts.drop_last().len() == 0);
        assert(total_len(parts.drop_last()) == 0);
        assert(parts.last() == parts[0]);
    }
}

/// Splitting nothing gives one empty piece; a separator at the end starts a
/// new empty piece; any other character at the end goes to the last piece.
pub proof fn law_split_step(s: Seq<char>, c: char, sep: char)
    ensures
        split_pieces(Seq::empty(), sep) == seq![Seq::<char>::empty()],
        c == sep ==> split_pieces(s.push(c), sep) == split_pieces(s, sep).push(Seq::empty()),
        c != sep ==> split_pieces(s.push(c), sep) == split_pieces(s, sep).update(
            split_pieces(s, sep).len() - 1,
            split_pieces(s, sep).last().push(c),
        ),
{
    assert(s.push(c).drop_last() =~= s);
}

/// Keeping the http(s) urls of no resolution gives none; one more resolution
/// adds its url at the end exactly where its scheme is `http` or `https`.
pub proof fn law_kept_http_step(
    resolved: Seq<Option<(Seq<char>, Seq<char>)>>,
    r: Option<(Seq<char>, Seq<char>)>,
)
    ensures
        kept_http(Seq::empty()) == Seq::<Seq<char>>::empty(),
        kept_http(resolved.push(r)) == match r {
            Some((scheme, u)) => if scheme == "http"@ || scheme == "https"@ {
                kept_http(resolved).push(u)
            } else {
                kept_http(resolved)
            },
            None => kept_http(resolved),
        },
{
    assert(resolved.push(r).drop_last() =~= resolved);
}

/// Each link is resolved against the base on its own: an absent link gives
/// no resolution, a present one gives what `url` gives for it.
pub proof fn law_resolutions(base: Seq<char>, hrefs: Seq<Option<Seq<char>>>)
    ensures
        resolutions(base, hrefs).len() == hrefs.len(),
        forall|i: int|
            0 <= i < hrefs.len() ==> #[trigger] resolutions(base, hrefs)[i] == match hrefs[i] {
                Some(h) => url_resolution(base, h),
                None => None,
            },
{
}

/// A row stores each field of the page in the column of the same name, and
/// the links joined by `;`.
pub proof fn law_row_fields(p: PageFields)
    ensures
        row_of(p).url == p.url,
        row_of(p).date == p.date,
        row_of(p).title == p.title,
        row_of(p).meta == p.meta,
        row_of(p).content == p.content,
        row_of(p).subtitles == p.subtitles,
        row_of(p).links == joined(p.links, ';'),
{
}

/// A page read from a row takes each field from the column of the same name,
/// and the links from the `links` column split at `;`.
pub proof fn law_page_fields(r: RowFields)
    ensures
        page_of(r).url == r.url,
        page_of(r).date == r.date,
        page_of(r).title == r.title,
        page_of(r).meta == r.meta,
        page_of(r).content == r.content,
        page_of(r).subtitles == r.subtitles,
        page_of(r).links == split_pieces(r.links, ';'),
{
}

/// What a parsed page holds, field by field, against the fixed selectors:
/// the url it was fetched from; the date's text; the inner HTML of the first
/// `title` element; the `content` of the first element matched by
/// `meta[name='description'], meta[property='og:description']`; the text
/// nodes of the first `body` element joined by `;`; the inner HTML of every
/// element matched by `h1, h2, h3, h4` joined by `;`; and the http(s)
/// resolutions of the `href` of every element matched by `a[href]`.
pub proof fn law_parsed_page_fields(url: Seq<char>, html: Seq<char>, date: (i64, u32))
    ensures
        ({
            let p = parsed_page(url, html, date);
            let titles = if css_selector_parses("title"@) {
                scraped_inner_html(html, "title"@)
            } else {
                Seq::empty()
            };
            let metas = if css_selector_parses(
                "meta[name='description'], meta[property='og:description']"@,
            ) {
                scraped_attr(
                    html,
                    "meta[name='description'], meta[property='og:description']"@,
                    "content"@,
                )
            } else {
                Seq::empty()
            };
            let bodies = if css_selector_parses("body"@) {
                scraped_text(html, "body"@)
            } else {
                Seq::empty()
            };
            let headings = if css_selector_parses("h1, h2, h3, h4"@) {
                scraped_inner_html(html, "h1, h2, h3, h4"@)
            } else {
                Seq::empty()
            };
            &&& p.url == url
            &&& p.date == utc_naive_text(date.0, date.1)->0
            &&& p.title == (if titles.len() > 0 {
                titles[0]
            } else {
                Seq::empty()
            })
            &&& p.meta == (if metas.len() > 0 && metas[0] is Some {
                metas[0]->0
            } else {
                Seq::empty()
            })
            &&& p.content == (if bodies.len() > 0 {
                joined(bodies[0], ';')
            } else {
                Seq::empty()
            })
            &&& p.subtitles == joined(headings, ';')
            &&& p.links == page_links(html, url)
        }),
{
}

/// The links of a page are the http(s) resolutions, against the page's url,
/// of the `href` attributes of the elements that the selector `a[href]`
/// matches, and of nothing else.
pub proof fn law_page_links(html: Seq<char>, base: Seq<char>)
    ensures
        page_links(html, base) == kept_http(
            resolutions(
                base,
                if css_selector_parses("a[href]"@) {
                    scraped_attr(html, "a[href]"@, "href"@)
                } else {
                    Seq::empty()
                },
            ),
        ),
{
    if !css_selector_parses("a[href]"@) {
        assert(resolutions(base, Seq::empty()) =~= Seq::empty());
    }
}

} // verus!
