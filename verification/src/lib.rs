//! Verified logic of an adb- and keyboard-driven game assistant.
pub mod text;
pub mod random;
pub mod adb;
pub mod dnf;
pub mod yolo;
pub mod ocr;
pub mod automation;
pub mod raster;
