pub mod catalog;
pub mod errors;
pub mod json;
pub mod manifest;
pub mod materialize;
pub mod parse;
pub mod paths;
pub mod text;
