//! Rules that apply to every request before a route sees it.

pub mod auth;
