//! Verified core of a hobby kernel's console and input pipeline: the bounded
//! event queues fed from interrupt context, the scan-code decoding stage, the
//! line editor, the text-mode display driver with its in-band control
//! protocol, and the on-disk file container format.

pub mod console;
pub mod decoder;
pub mod editor;
pub mod input;
pub mod queue;
pub mod simplefs;
mod text;
