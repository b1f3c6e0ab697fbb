//! Driver logic for the AIC8800 family of SDIO Wi-Fi chips: command framing,
//! SDIO transfer rules, firmware loading, scanning, association and the
//! WPA2-PSK/CCMP four-way handshake.
#![allow(unused_imports)]

pub mod bytes;
pub mod device;
pub mod protocol;
pub mod sdio;
pub mod data;
pub mod response;
pub mod transaction;
pub mod wpa_crypto;
pub mod rsn;
pub mod eapol;
pub mod patch_table;
pub mod firmware;
pub mod d80;
pub mod debug;
pub mod tx;
pub mod credentials;
pub mod management;
pub mod key;
pub mod me;
pub mod rf;
pub mod runtime;
pub mod scan;
pub mod association;
pub mod logged_bus;
