//! The verified decisions of the WordWeave desktop application.
pub mod speech;
pub mod chars;
pub mod notify;
pub mod text;
pub mod preview;
pub mod status;
pub mod distinct;
pub mod vocabulary;
pub mod session;
pub mod composer;
pub mod format;
pub mod attachments;
pub mod batch;
pub mod settings;
pub mod encoding;
pub mod images;
pub mod ai;
pub mod guards;
pub mod deck;
pub mod flow;
pub mod quotes;
pub mod annotation;
