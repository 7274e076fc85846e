pub mod app;
pub mod auth;
pub mod bounties;
pub mod changesets;
pub mod clock;
pub mod credits;
pub mod decimal;
pub mod eval;
pub mod extract;
pub mod fly_replay;
pub mod format;
pub mod git;
pub mod index;
pub mod index_git;
pub mod index_push;
pub mod issues;
pub mod json;
pub mod keys;
pub mod llm;
pub mod log;
pub mod oauth;
pub mod pages;
pub mod pktline;
pub mod repo;
pub mod requests;
pub mod resolve;
pub mod search;
pub mod sprites;
pub mod state;
pub mod status;
pub mod store;
pub mod stripe;
pub mod table;
pub mod text;
pub mod versions;
pub mod votes;
