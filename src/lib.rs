pub mod text;
pub mod tokenizer;
pub mod parser;
pub mod history;
pub mod pwd_state;
pub mod executor;
pub mod session;
pub mod listing;
pub mod lookup;
pub mod echo;
pub mod remove;
pub mod cat_input;
pub mod long_format;
