//! A small pastebin core: submitted texts are stored under a unique URL
//! together with the hash of an editing password, and can later be read,
//! edited or deleted by whoever presents that password.

pub mod database;
pub mod markdown;
pub mod model;
pub mod utility;
