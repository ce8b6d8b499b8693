pub mod keys;
pub mod panel;
pub mod scroll;
pub mod table;
pub mod textfmt;
pub mod types;
