//! What holds of the library as a whole.

pub mod fields;
pub mod notices;
pub mod pairs;
pub mod runs;
pub mod setup;
pub mod spans;
pub mod tables;
pub mod values;
pub mod windows;
