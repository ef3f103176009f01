//! Where the server keeps its state: the files under its directory, and
//! the encryption of the saved credentials.

pub mod keyring_store;
pub mod state_store;
