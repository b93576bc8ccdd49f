# yarse

The library of a small search-engine crawler, verified with Verus.

- `src/text.rs`: joining strings with a separator and splitting them again,
  with the two round-trip laws.
- `src/timestamp.rs`: the date of a crawl, written as chrono writes it.
- `src/scrape.rs`: what is read out of an HTML document through `scraper`.
- `src/links.rs`: the absolute http(s) links of a page, through `url`.
- `src/page.rs`: a crawled page, its database row, and the laws that relate
  the two.
- `src/queue.rs`: the bounded queue of urls to crawl, and how it is refilled.
- `src/crawler.rs`: the decisions of the crawl loop.

`app/` holds the program around it: HTTP fetching, the SQLite databases, the
async crawl loop that performs the library's decisions, and the web interface.
