//! CyberDesk shell logic, each piece with a machine-checked contract: the
//! window workspace (open, close, cycle, resize, reflow, drag-and-drop, save
//! and restore once), the start-up lock, the keyboard routing and the
//! command band's reveal rules, which windows respawn after a setting
//! changes, the live settings and their persisted rows, what the address
//! bar's input opens, how the command palette ranks history, the per-window
//! identity seeds, the internal pages' requests and their replies, the Tor
//! engine's state and the SOCKS5 handshake of its relays, the launch purge
//! of the browsing cache, the log ring buffer, the appearance tokens, the
//! de-Googled browser policy, and the text and JSON codecs they share.

pub mod text;
pub mod json;
pub mod slots;
pub mod workspace;
pub mod session;
pub mod store;
pub mod memory;
pub mod harden;
pub mod settings;
pub mod browser;
pub mod tor;
pub mod forensic;
pub mod logging;
pub mod appearance;
pub mod theme;
pub mod degoogle;
pub mod pulsegrid;
pub mod clock;
pub mod keys;
pub mod band;
pub mod respawn;
pub mod boot;
pub mod ipc;
