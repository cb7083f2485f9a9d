pub mod attr;
pub mod error;
pub mod text;
pub mod maps;
pub mod license;
pub mod input;
pub mod update;
pub mod db;
pub mod textfn;
pub mod encoding;
pub mod crypto;
pub mod decrypted;
pub mod response;
pub mod laws;
pub mod request_laws;
