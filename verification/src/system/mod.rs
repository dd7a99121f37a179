pub mod installer;
pub mod startup;
pub mod tray;
pub mod updater;
