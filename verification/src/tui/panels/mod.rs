pub mod commitlog;
pub mod dialog;
pub mod diff;
pub mod tree;
