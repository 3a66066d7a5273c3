pub mod base;
pub mod vbx_12;
pub mod vbx_8;
pub mod vbx_9;
