pub mod text;
pub mod lines;
pub mod csv_import;
pub mod escape;
pub mod wrap;
pub mod amount;
pub mod date;
pub mod uuid_text;
pub mod export;
pub mod signature;
pub mod events_in;
pub mod error;
pub mod health;
pub mod journal;
pub mod numparse;
pub mod form_body;
pub mod csv_table;
pub mod pdf;
pub mod handlers;
pub mod fixtures;
