//! Utility logic behind a small personal site: text statistics, Base64,
//! JSON reformatting, QR-link construction and a Markov-chain blog generator.

pub mod chars;
pub mod text;
pub mod codec;
pub mod json;
pub mod qr;
pub mod blog;
pub mod tools;
pub mod site;
