//! Interactive fuzzy finder for runnable files and files below the current
//! directory: the ranking of search matches, the paging of results, the
//! directory traversals and the decisions of the selection screen.

pub mod ordered_type;
pub mod matcher;
pub mod files;
pub mod filtered_list;
pub mod search;
pub mod text;
pub mod selection_gui;
pub mod list_view;
pub mod traverse;
pub mod start_menu;
