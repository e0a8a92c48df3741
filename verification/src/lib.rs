//! Retrieval of comics from online sources: the data model of comics,
//! chapters and pages, the rules that number and group chapters, the page
//! iteration state machine, URL routing and the extraction of items from
//! fetched HTML documents.
pub mod text;
pub mod headers;
pub mod encoding;
pub mod filename;
pub mod models;
pub mod grouping;
pub mod pages;
pub mod error;
pub mod routes;
pub mod dom;
pub mod grouped;
pub mod sources;
pub mod extract;
pub mod listing;
pub mod laws;
pub mod links;
