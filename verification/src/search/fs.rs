pub mod dir_event;
pub mod depth_first_traverse;
pub mod bredth_first_traverse;
pub mod walk_order;
