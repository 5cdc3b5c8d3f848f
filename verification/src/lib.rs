//! A verified native-to-web bridge for an installer UI.
//!
//! The library owns the bridge protocol between embedded web content and
//! the native host: decoding inbound JSON command messages, mapping log
//! severity labels, building the callback-injection expression that carries
//! a directory-selection result back into the web content, and the fixed
//! window configuration. The surrounding process (window event loop, native
//! dialogs, the logging backend) lives outside the library and hands it
//! plain values.

pub mod dispatch;
pub mod inject;
pub mod jstring;
pub mod protocol;
pub mod severity;
pub mod trusted;
pub mod window;
