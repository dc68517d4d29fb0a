pub mod cors_cache;
pub mod data_url;
pub mod headers;
pub mod laws;
pub mod methods;
pub mod request;
pub mod outside;
pub mod response;
pub mod strutil;
pub mod urls;
pub mod wire;
