//! Building blocks of a tool that gathers the Jira comments a user wrote since
//! a given date and renders them as one HTML page.

pub mod outside;
pub mod text;
pub mod images;
pub mod date;
pub mod args;
pub mod jira_api;
pub mod summary;
