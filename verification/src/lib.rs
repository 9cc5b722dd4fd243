//! Host-side logic of a WebAssembly module runtime for small devices: the
//! linear memory that host functions read and write, the table of host
//! functions a module may import, the registry of bundled modules, the
//! text of the generated module table, and what the runtime does on a fault.

pub mod bytes;
pub mod crypto;
pub mod define_text;
pub mod fault;
pub mod host;
pub mod memory;
pub mod registry;
pub mod serial;
