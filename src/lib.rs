pub mod command;
pub mod path_table;
pub mod quotations;
pub mod text;
