pub mod initialize;
pub mod request;
pub mod server_capabilities;
