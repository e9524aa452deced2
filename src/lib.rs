//! Sitemap reporting: W3C date-time values that keep their precision, and
//! the assembly and rendering of sitemap tables.

pub mod columns;
pub mod render;
pub mod w3c_datetime;
