pub mod decimal;
pub mod extractor;
pub mod lemmas;
pub mod models;
pub mod router;
pub mod text;
