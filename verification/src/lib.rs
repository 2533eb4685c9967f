//! Tooling for small eBPF programs that run on microcontrollers.
//!
//! The heart of the crate turns a compiled, relocatable object file into the
//! image that the VM on the device loads: [`sections`] copies the text, the
//! data and the read-only data out of the object, [`literals`] merges the
//! string literal pools into the read-only data, [`relocation`] resolves the
//! relocation entries against the text, [`functions`] builds the function
//! table, [`assembler`] lays the regions out behind a header, and
//! [`pipeline`] runs these steps in their order. [`object`] holds what is
//! read of an object file, [`instruction`] the two instruction forms that
//! are rewritten, and [`bytes`] the byte strings underneath.
//!
//! [`device`] relocates a whole object file in place, for a program that is
//! loaded as it was compiled. [`verification`] checks the calls of helper
//! functions in a program against a list of allowed helpers.
//!
//! The rest is what the device and the host agree on: [`configuration`]
//! and its encoding, the [`helpers`] that a program can call, the
//! [`requests`] and their text forms, the names of files and resources in
//! [`naming`], the settings of the [`environment`], and the handling of
//! [`text`] underneath.

pub mod assembler;
pub mod bytes;
pub mod configuration;
pub mod device;
pub mod environment;
pub mod error;
pub mod functions;
pub mod helpers;
pub mod instruction;
pub mod literals;
pub mod naming;
pub mod object;
pub mod pipeline;
pub mod relocation;
pub mod requests;
pub mod sections;
pub mod text;
pub mod verification;
