pub mod account;
pub mod bytes;
pub mod config;
pub mod error;
pub mod lemmas;
pub mod records;
pub mod registry;

pub use account::{Account, AccountView};
pub use bytes::Address;
pub use error::RegistryError;
pub use records::{AccountRecord, Counter, Instruction, Pointer, Register};
pub use config::Config;
