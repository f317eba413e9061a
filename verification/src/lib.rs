pub mod connection;
pub mod format;
pub mod smpp;
pub mod util;
