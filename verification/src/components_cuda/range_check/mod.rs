pub mod base;
pub mod rc_18;
pub mod rc_20;
pub mod rc_4_3;
pub mod tables;
