pub mod des;
pub mod des_tables;
pub mod types;

pub use types::{AuthResult, SecurityType};
