//! Hunting for accounts by username: what a site's answer means, how site
//! lists are merged, what is read off a profile page, how results are exported
//! and what the encrypted vault and the local server decide.

pub mod answer;
pub mod catalog;
pub mod checker;
pub mod export;
pub mod extract;
pub mod ledger;
pub mod outside;
pub mod proposal;
pub mod reply;
pub mod result;
pub mod search;
pub mod sites;
pub mod store;
pub mod table;
pub mod text;
pub mod vault;
