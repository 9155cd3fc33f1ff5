//! Checking the links of a text document: finding `[text](url)` links,
//! classifying what fetching each one gives, collecting one result per link
//! under a cap on concurrent requests, and writing the report.
pub mod chars;
pub mod html_parser;
pub mod model;
pub mod processor;
pub mod text_parser;
pub mod writer;
