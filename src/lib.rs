pub mod events;
pub mod proxy;
pub mod server;
pub mod session;
