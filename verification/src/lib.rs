//! Battery reading, icon drawing and preferences for the MCHOSE K7 V2 Ultra+
//! wireless receiver tray application.

pub mod battery;
pub mod command;
pub mod icons;
pub mod logging;
pub mod preview;
pub mod receiver;
pub mod settings;
pub mod text;
pub mod tray;
pub mod version;
