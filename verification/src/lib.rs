pub mod actions;
pub mod daemon;
pub mod protocol;
pub mod proxy;
pub mod text;
