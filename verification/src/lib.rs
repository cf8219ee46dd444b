//! A Gopher client library: URL parsing that recognizes different protocols like
//! telnet and IPv6 addresses, requests over TLS or Tor, downloads, and cleaning
//! Unicode control characters from Gopher responses.
//!
//! The library does no I/O. A request, a fetch or a download asks its caller for one
//! thing at a time and is told how that went.
pub mod calls;
pub mod connection;
pub mod connection_laws;
pub mod connection_traces;
pub mod download;
pub mod download_laws;
pub mod download_traces;
pub mod failure;
pub mod fetch;
pub mod fetch_laws;
pub mod item_type;
pub mod response;
pub mod text;
pub mod url;
pub mod url_laws;
pub mod url_shapes;

pub use crate::connection::{
    request, Action, Event, Lookup, Request, Step, Stream, TCP_TIMEOUT_IN_SECS,
};
pub use crate::download::{download_url, Download, DownloadAction, DownloadEvent, Key};
pub use crate::failure::Failure;
pub use crate::fetch::{fetch, fetch_url, Fetch, FetchAction, FetchEvent};
pub use crate::item_type::Type;
pub use crate::response::{clean_response, response_text};
pub use crate::url::{checked_parse_url, parse_url, type_for_url, Url};
