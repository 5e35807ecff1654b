//! Decision logic of HydraDesk: parsing what system tools print, choosing
//! which commands to run, and generating the scripts and files that set up
//! GNOME Remote Desktop for Windows RDP clients.
pub mod detect;
pub mod doctor;
pub mod history;
pub mod install;
pub mod number;
pub mod rdp;
pub mod setup;
pub mod text;
