//! Where measurements are kept: keys, records and the commands that store and fetch them.
pub mod keys;
pub mod redis;
