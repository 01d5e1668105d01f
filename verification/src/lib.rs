//! Verified core of a downloader for the facsimiles of Wittgenstein's Nachlass.

pub mod text;
pub mod catalog;
pub mod download;
pub mod pdf;
pub mod compact;
pub mod cli;
