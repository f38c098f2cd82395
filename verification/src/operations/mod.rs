//! Small groups of columns that several chips share, each with the
//! witness that fills it and the lookups that it rests on.

pub mod add;
pub mod bitwise;
pub mod field;
pub mod fixed_rotate_right;
pub mod is_zero;
