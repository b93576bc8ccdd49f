//! A small search-engine crawler: scraping of fetched pages, the rows the
//! crawler stores, the queue of urls that wait to be crawled, and the
//! decisions of the crawl loop.

pub mod text;
pub mod timestamp;
pub mod scrape;
pub mod links;
pub mod page;
pub mod queue;
pub mod crawler;
pub mod laws;
