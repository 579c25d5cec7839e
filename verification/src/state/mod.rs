//! The state of the mixer window: channels, buses, scenes and dialogs, and how
//! they follow the devices that come and go.
pub mod app;
pub mod forms;
pub mod inventory;
pub mod labels;
pub mod mixing;
pub mod recall;
pub mod scenes;
pub mod session;
pub mod strips;
