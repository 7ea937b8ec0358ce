pub mod text;
pub mod feed;
pub mod parser;
pub mod labels;
