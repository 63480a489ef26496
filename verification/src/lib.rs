//! A doubly-linked list with positional insert, delete and lookup, and a FIFO queue.

pub mod linked_list;
pub mod model;
pub mod node;
pub mod pool;
pub mod queue;
pub mod text;
