//! Verified core of the Stump media server: the decisions, text formats and
//! data transformations behind sessions, database start-up, offline
//! encryption, metadata writeback into epub and comic archives, search
//! filters, content access rules, shared lists, book clubs, series merging
//! and placeholder covers.

pub mod text;
pub mod xml;

pub mod session;
pub mod database;
pub mod pool;
pub mod web;

pub mod offline_crypto;

pub mod opf;
pub mod comic_info;
pub mod zip_edit;
pub mod writeback;
pub mod cover;

pub mod filter;
pub mod content_rules;
pub mod shared_access;
pub mod list;
pub mod book_club;
pub mod series;
