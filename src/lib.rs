//! A terminal pager for formatted manual pages whose cross-references can be
//! followed with a click.
pub mod app;
pub mod document;
pub mod link_jump;
pub mod man_page_info;
pub mod man_width;
pub mod offsets_cache;
pub mod text;
pub mod text_handling;
