//! Writing the secrets to a file and reading them back.

pub mod decode;
pub mod encode;
pub mod format;
pub mod laws;
