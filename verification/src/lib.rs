//! A minimal HTTP URL parser.
//!
//! [`Url`] decomposes a URL string of the form
//! `http://host[:port][/path[?searchpart]]` into its host, port, path and
//! query ("searchpart") components by literal-prefix checking and ordered
//! substring splits. No validation beyond the scheme check is performed.

pub mod url;

pub use crate::url::Url;
