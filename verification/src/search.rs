pub mod fs;
pub mod channel;
pub mod search_type;
pub mod file_search;
pub mod find_exe;
pub mod app_search;
