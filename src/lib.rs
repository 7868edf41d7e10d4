//! Upcoming public holidays for a country, served from a time-bounded
//! per-year cache or fetched from the Nager.Date API.
//!
//! The library holds the decisions: which cache entry may be served, how a
//! response is classified, and how successive years are paged through until
//! enough holidays are gathered. The caller performs the reads, requests and
//! writes that [`lookup::Lookup`] asks for.
pub mod cache;
pub mod date;
pub mod error;
pub mod fetch;
pub mod holiday;
pub mod lookup;
pub mod text;
