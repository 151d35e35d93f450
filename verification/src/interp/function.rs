pub use crate::function::Function;
