//! A bookmark manager's core: the store of saved addresses and of what is
//! known of their sites, the surface that shows an address, the run that
//! fetches a site's icon after a navigation, and the registry of tray
//! events.
//!
//! Each of these is owned by one actor and reached by messages only. The
//! library holds what the actors decide, with its proofs: every step is a
//! function from the actor's state and a message to the next state and the
//! answer or the effects. Threads, channels, files, the network and the
//! native window are left to the program around the library.

pub mod db;
pub mod db_laws;
pub mod db_model;
pub mod enrich;
pub mod text;
pub mod tray;
pub mod ui;
pub mod weburl;
pub mod webview;
