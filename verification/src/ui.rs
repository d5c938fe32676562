//! The user interface: the hotkey, the microphone, the overlay, the settings,
//! and the loop that ties them to the speech engine.

pub mod args;
pub mod audio;
pub mod autostart;
pub mod controller;
pub mod core_client;
pub mod dev;
pub mod device_pref;
pub mod hotkey;
pub mod overlay;
pub mod paste;
pub mod paths;
pub mod recovery;
pub mod settings;
pub mod single_instance;
pub mod slint_bridge;
pub mod wide;
