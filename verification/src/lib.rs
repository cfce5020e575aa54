//! The verified core of a desktop bridge: keyboard and mouse sharing between two
//! computers, file transfer between peers, and a small web portal for uploads.

pub mod bytes;
pub mod digest;
pub mod frame;
pub mod http;
pub mod keys;
pub mod kvm;
pub mod log;
pub mod mdns;
pub mod net;
pub mod number;
pub mod paths;
pub mod percent;
pub mod portal;
pub mod session;
pub mod text;
pub mod transfer;
