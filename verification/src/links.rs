//! The absolute http(s) links of a page, resolved through the `url` crate.

use vstd::prelude::*;
use crate::scrape::{css_selector_parses, opt_strings_view, scraped_attr, select_attr};
use crate::text::strings_view;

verus! {

/// Whether `url::Url::parse` accepts `s`.
pub uninterp spec fn url_parses(s: Seq<char>) -> bool;

/// `href` resolved against the base url `base` (`Url::parse(base)` then
/// `Url::join(href)`): the scheme and the whole serialization of the result,
/// or `None` where either step fails.
pub uninterp spec fn url_resolution(base: Seq<char>, href: Seq<char>) -> Option<(Seq<char>, Seq<char>)>;

/// Calls `url::Url::parse(s)`.  Claimed: the result is `url_parses(s)`.
#[verifier::external_body]
pub(crate) fn url_is_valid(s: &str) -> (r: bool)
    ensures
        r == url_parses(s@),
{
    url::Url::parse(s).is_ok()
}

/// Calls `url::Url::parse(base)`, then `Url::join(href)` on the result, and
/// gives the joined url's `scheme()` and its `to_string()`.  Claimed: the
/// result is `url_resolution(base, href)`.
#[verifier::external_body]
fn resolve_url(base: &str, href: &str) -> (r: Option<(String, String)>)
    ensures
        r is Some <==> url_resolution(base@, href@) is Some,
        r matches Some(p) ==> url_resolution(base@, href@) == Some((p.0@, p.1@)),
{
    let base = match url::Url::parse(base) {
        Ok(b) => b,
        Err(_) => return None,
    };
    match base.join(href) {
        Ok(u) => Some((u.scheme().to_string(), u.to_string())),
        Err(_) => None,
    }
}

/// The selector of the anchors that carry a link.
pub open spec fn anchor_selector() -> Seq<char> {
    "a[href]"@
}

/// The attribute that holds an anchor's link.
pub open spec fn href_attr() -> Seq<char> {
    "href"@
}

/// Whether `scheme` is `http` or `https`.
pub open spec fn is_http_scheme(scheme: Seq<char>) -> bool {
    scheme == "http"@ || scheme == "https"@
}

/// Each link of `hrefs` resolved against `base`, as a scheme and a whole
/// url; `None` for an absent link or one that does not resolve.
pub open spec fn resolutions(base: Seq<char>, hrefs: Seq<Option<Seq<char>>>) -> Seq<
    Option<(Seq<char>, Seq<char>)>,
> {
    hrefs.map_values(
        |h: Option<Seq<char>>|
            match h {
                Some(h) => url_resolution(base, h),
                None => None,
            },
    )
}

/// The urls of `resolved` whose scheme is `http` or `https`, in order.
pub open spec fn kept_http(resolved: Seq<Option<(Seq<char>, Seq<char>)>>) -> Seq<Seq<char>>
    decreases resolved.len(),
{
    if resolved.len() == 0 {
        Seq::empty()
    } else {
        let rest = kept_http(resolved.drop_last());
        match resolved.last() {
            Some((scheme, u)) => if is_http_scheme(scheme) {
                rest.push(u)
            } else {
                rest
            },
            None => rest,
        }
    }
}

/// The characters of each resolved url.
pub open spec fn resolved_view(v: Seq<Option<(String, String)>>) -> Seq<Option<(Seq<char>, Seq<char>)>> {
    v.map_values(
        |o: Option<(String, String)>|
            match o {
                Some(p) => Some((p.0@, p.1@)),
                None => None,
            },
    )
}

/// Whether `r` is a resolution to the http(s) url `u`.
pub open spec fn is_http_resolution(r: Option<(Seq<char>, Seq<char>)>, u: Seq<char>) -> bool {
    r matches Some((scheme, v)) && v == u && is_http_scheme(scheme)
}

/// Whether `u` is the url of an http(s) resolution among `resolved`.
pub open spec fn has_http_source(resolved: Seq<Option<(Seq<char>, Seq<char>)>>, u: Seq<char>) -> bool {
    exists|j: int| 0 <= j < resolved.len() && #[trigger] is_http_resolution(resolved[j], u)
}

/// Every url kept is that of one of the resolutions, whose scheme is `http`
/// or `https`.
pub proof fn law_links_are_http(resolved: Seq<Option<(Seq<char>, Seq<char>)>>)
    ensures
        forall|k: int|
            0 <= k < kept_http(resolved).len() ==> has_http_source(
                resolved,
                #[trigger] kept_http(resolved)[k],
            ),
    decreases resolved.len(),
{
    if resolved.len() > 0 {
        let init = resolved.drop_last();
        law_links_are_http(init);
        assert forall|k: int| 0 <= k < kept_http(resolved).len() implies has_http_source(
            resolved,
            #[trigger] kept_http(resolved)[k],
        ) by {
            let u = kept_http(resolved)[k];
            if k < kept_http(init).len() {
                assert(u == kept_http(init)[k]);
                assert(has_http_source(init, u));
                let j = choose|j: int| 0 <= j < init.len() && #[trigger] is_http_resolution(init[j], u);
                assert(resolved[j] == init[j]);
                assert(is_http_resolution(resolved[j], u));
            } else {
                let j = resolved.len() - 1;
                assert(resolved[j] == resolved.last());
                assert(is_http_resolution(resolved[j], u));
            }
        }
    }
}

/// The urls of `resolved` whose scheme is `http` or `https`, in order.
pub fn http_urls(resolved: &Vec<Option<(String, String)>>) -> (urls: Vec<String>)
    ensures
        strings_view(urls@) == kept_http(resolved_view(resolved@)),
{
    let ghost rv = resolved_view(resolved@);
    let http = "http".to_owned();
    let https = "https".to_owned();
    let mut urls: Vec<String> = Vec::new();
    let n = resolved.len();
    let mut i: usize = 0;
    while i < n
        invariant
            n == resolved@.len(),
            rv == resolved_view(resolved@),
            0 <= i <= n,
            http@ == "http"@,
            https@ == "https"@,
            strings_view(urls@) == kept_http(rv.take(i as int)),
        decreases n - i,
    {
        assert(rv.take(i + 1).drop_last() =~= rv.take(i as int));
        assert(rv.take(i + 1).last() == rv[i as int]);
        if let Some((scheme, url)) = &resolved[i] {
            if *scheme == http || *scheme == https {
                urls.push(url.clone());
                assert(strings_view(urls@) =~= strings_view(urls@).drop_last().push(urls@.last()@));
            }
        }
        i = i + 1;
    }
    assert(rv.take(n as int) =~= rv);
    urls
}

/// The absolute http(s) links of the document `html` found at `base`.
pub open spec fn page_links(html: Seq<char>, base: Seq<char>) -> Seq<Seq<char>> {
    if css_selector_parses(anchor_selector()) {
        kept_http(resolutions(base, scraped_attr(html, anchor_selector(), href_attr())))
    } else {
        Seq::empty()
    }
}

/// The `href` of every anchor of `html`, resolved against `base_url`, kept
/// where the result is an http or https url, in the order in which
/// `Html::select` yields the anchors.
pub fn extract_links(html: &str, base_url: &str) -> (links: Vec<String>)
    requires
        url_parses(base_url@),
    ensures
        strings_view(links@) == page_links(html@, base_url@),
{
    let hrefs = match select_attr(html, "a[href]", "href") {
        Some(v) => v,
        None => {
            let none: Vec<String> = Vec::new();
            assert(strings_view(none@) =~= Seq::<Seq<char>>::empty());
            return none;
        },
    };
    let ghost hv = scraped_attr(html@, anchor_selector(), href_attr());
    let mut resolved: Vec<Option<(String, String)>> = Vec::new();
    let n = hrefs.len();
    let mut i: usize = 0;
    while i < n
        invariant
            n == hrefs@.len(),
            0 <= i <= n,
            hv == opt_strings_view(hrefs@),
            resolved@.len() == i,
            resolved_view(resolved@) == resolutions(base_url@, hv).take(i as int),
        decreases n - i,
    {
        let r = match &hrefs[i] {
            Some(href) => {
                assert(hv[i as int] == Some(href@));
                resolve_url(base_url, href.as_str())
            },
            None => None,
        };
        resolved.push(r);
        assert(resolved_view(resolved@) =~= resolutions(base_url@, hv).take(i + 1));
        i = i + 1;
    }
    assert(resolutions(base_url@, hv).take(n as int) =~= resolutions(base_url@, hv));
    http_urls(&resolved)
}

} // verus!
