pub mod completion;
pub mod matrix;
pub mod types;
