//! Pages of a small vocabulary site: a home page that mirrors a remote HTML
//! document, and a page that shows the entries of a remote word document as a
//! table with a button to save it as a PDF.
//!
//! The library computes and never fetches. The server around it reads the
//! environment and the remote documents and hands them over as plain values;
//! what comes back is the configuration to start with, or the reply to send.
//!
//! - [`config`] and [`port`]: the startup configuration and the port in it.
//! - [`words`]: the entries of the word document.
//! - [`table`]: the word table page and the function that renders it.
//! - [`layout`] and [`reading`]: what holds of every rendered page.
//! - [`pages`]: the replies of the two routes.

pub mod config;
pub mod layout;
pub mod pages;
pub mod port;
pub mod reading;
pub mod table;
pub mod words;
