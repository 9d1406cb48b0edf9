//! Host-side client logic for the punt USB bootloader protocol.
//!
//! The crate holds everything that is decided on the host when it talks to a microcontroller
//! in bootloader mode: which devices are targets, which requests are valid, how each command
//! is laid out on the wire, which USB transfers make up a transaction, and how an erase, a
//! program or a read operation proceeds step by step. Every function is verified against its
//! contract.
//!
//! The crate performs no I/O. Whoever drives it owns the USB device and works in two loops.
//! An [`Operation`] names the next [`Request`] and takes the outcome of that transaction; a
//! [`Transaction`] names the next [`Transfer`] and takes the outcome of that transfer:
//!
//! ```text
//! while let Some(request) = operation.next_request() {
//!     let mut transaction = Transaction::new(request);
//!     while let Some(transfer) = transaction.next_transfer() {
//!         transaction.record(perform(transfer, transaction.payload()));
//!     }
//!     let progress = operation.record(transaction.finish().unwrap());
//! }
//! ```
//!
//! The modules, leaves first: [`flash`] (pages), [`checksum`], [`command`] (packet layouts),
//! [`transaction`] (one command as USB transfers), [`operation`] (erase, program, read),
//! [`target`] and [`context`] (discovery), [`target_handle`] (the checked entry points).

pub mod bootloader_info;
pub mod checksum;
pub mod command;
pub mod context;
pub mod error;
pub mod flash;
pub mod operation;
pub mod target;
pub mod target_handle;
pub mod text;
pub mod transaction;
pub mod transport;

pub use bootloader_info::{BootloaderInfo, Version};
pub use command::{Command, Request};
pub use context::{find_targets, pick_target};
pub use error::{EraseError, Error, Result};
pub use flash::{Page, FLASH_BASE, PAGE_SIZE};
pub use operation::{Erase, Operation, Program, Read};
pub use target::{Probe, Target};
pub use target_handle::TargetHandle;
pub use transaction::{Transaction, Transfer};
