//! The collector data types: one module per metric family, plus the
//! snapshot that assembles them.
pub mod connections;
pub mod containers;
pub mod cpu_mem;
pub mod disk;
pub mod gpu;
pub mod load;
pub mod net;
pub mod process;
pub mod process_tree;
pub mod sensors;
pub mod snapshot;
pub mod system;
