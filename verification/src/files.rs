pub mod file_base;
pub mod any_file;
pub mod exe_file;
pub mod lnk_layout;
pub mod lnk_parser;
pub mod runnable_file;
