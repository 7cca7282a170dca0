//! Annotations on the primary record that ask for shadow records.

pub mod struct_level;
