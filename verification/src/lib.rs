//! akc: a minimal encrypted secret store.
//!
//! The library holds the verified logic of the store: the encrypted file
//! format and its cryptography, the in-memory keychain, the interactive
//! session, the password dialogue, command routing and the self-upgrade
//! decisions. `app/` holds the command-line program around it.
pub mod cli;
pub mod crypto;
pub mod order;
pub mod password;
pub mod storage;
pub mod text;
pub mod upgrade;
pub mod session;
