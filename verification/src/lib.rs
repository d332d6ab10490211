pub mod action;
pub mod agent_client;
pub mod agent_driver;
pub mod agent_lifecycle;
pub mod agent_session;
pub mod adb_device;
pub mod adb_forward;
pub mod android_driver;
pub mod android_lifecycle;
pub mod axe;
pub mod bytes;
pub mod config;
pub mod core_device_tunnel;
pub mod coredevice;
pub mod driver;
pub mod element;
pub mod executor;
pub mod io_error;
pub mod ipc;
pub mod json_error;
pub mod protocol;
pub mod session;
pub mod simctl;
pub mod text;
pub mod usb_tunnel;
pub mod watcher;
