pub mod auth;
pub mod connection;
pub mod connector;
pub mod driver;
pub mod security;

pub use auth::{AuthHelper, Credentials};
pub use connection::VncClient;
pub use connector::{VncConnector, VncState};
pub use driver::Demand;
