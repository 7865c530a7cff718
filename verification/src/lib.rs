//! Verified core of the Xboard client: subscription profile patching for
//! mihomo and sing-box, the kernel connection state machine, and the pure
//! decisions of the desktop shell and the Windows service.
pub mod yaml;
pub mod text;
pub mod error;
pub mod inject;
pub mod inject_laws;
pub mod json;
pub mod singbox;
pub mod singbox_laws;
pub mod kernel;
pub mod connect;
pub mod driver;
pub mod api;
pub mod ffi;
pub mod desktop;
pub mod svc;
