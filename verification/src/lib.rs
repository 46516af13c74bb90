//! Core of a small web framework: parsing of HTTP-like requests from raw
//! bytes (including multipart bodies), dispatch of a request through route,
//! middleware and controller stages, serialization of responses back to
//! bytes, a fixed-size worker-pool model, and the configuration, cookie and
//! service helpers around them.

pub mod asset;
pub mod cookie;
pub mod csrf;
pub mod dict;
pub mod error;
pub mod i18n;
pub mod middleware;
pub mod multipart;
pub mod num;
pub mod password;
pub mod percent;
pub mod request;
pub mod resolver;
pub mod response;
pub mod route;
pub mod router;
pub mod settings;
pub mod text;
pub mod thread_pool;
pub mod token;
pub mod url;
