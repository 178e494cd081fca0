//! Verified core of the ThatSkyHook overlay: domain rewrite rules and the
//! request rewrite they drive, the main-thread operation queue, surface and
//! overlay UI state, and touch gesture tracking.

pub mod text;
pub mod rules;
pub mod net_uri;
pub mod main_thread;
pub mod layout;
pub mod surface;
pub mod overlay;
pub mod touch;
