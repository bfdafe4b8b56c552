//! Logic of a screen QR reader: a tray icon starts a selection overlay, the
//! selected part of the screen is searched for a QR code, and what was read
//! goes to the clipboard and to a history menu.
pub mod binary64;
pub mod geometry;
pub mod history;
pub mod icon;
pub mod menu;
pub mod messages;
pub mod overlay;
pub mod paint;
pub mod pixels;
pub mod qr;
pub mod raster;
pub mod search;
pub mod text;
pub mod tray;
