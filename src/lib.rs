//! Converts saved-article records into a Netscape bookmark document, one
//! folder heading per folder label.

pub mod export;
pub mod folders;
pub mod laws;
pub mod netscape_bookmark;
