//! Static inference of the environment-variable names that a WebAssembly
//! module is likely to read: each function body is interpreted symbolically,
//! the constant pointer and length that stand on the operand stack at a call
//! are read out of the module's static memory image, and a rule table decides
//! which of the strings found there look like names of environment variables.

pub mod classify;
pub mod decode;
pub mod instr;
pub mod interp;
pub mod memory;
pub mod module;
pub mod names;
pub mod scan;
pub mod text;
pub mod value;

pub use classify::is_env_var;
pub use scan::scan_wasm_bytes;
