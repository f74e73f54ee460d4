pub mod addr;
pub mod cli;
pub mod codec;
pub mod dispatch;
pub mod laws;
pub mod manager;
pub mod registry;
pub mod text;
