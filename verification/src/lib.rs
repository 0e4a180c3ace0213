//! Request-handling core of the olympiad chat back end: the access-token
//! file, token checks, page rendering, the compressed asset cache, the web
//! API endpoints and the decisions of the service's connection loops.

pub mod bytes;
pub mod codecs;
pub mod tokens;
pub mod build_info;
pub mod pages;
pub mod assets;
pub mod wapi;
pub mod service;
