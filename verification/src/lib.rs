use vstd::prelude::*;

pub mod agile;
pub mod alerts;
pub mod bitbucket;
pub mod cli;
pub mod client;
pub mod commands;
pub mod config;
pub mod confluence;
pub mod jira;
pub mod json;
pub mod output;
pub mod text;

verus! {
}
