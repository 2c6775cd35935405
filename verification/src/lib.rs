//! Tidy's engine: URL-prefix discovery, article extraction and the markdown
//! vault conventions, with the decisions the engine makes stated and proved.
pub mod digest;
pub mod discover;
pub mod error;
pub mod extract;
pub mod fetch;
pub mod highlights;
pub mod html;
pub mod http;
pub mod index;
pub mod maintenance;
pub mod overrides;
pub mod robots;
pub mod scheduler;
pub mod search;
pub mod settings;
pub mod state;
pub mod text;
pub mod vault;
pub mod weburl;
pub mod xml;
