//! Relocates a project directory into a ghq-managed workspace root: the
//! remote identifier decides the destination, and a set of guards refuses
//! moves that would be unsafe or meaningless.

pub mod args;
pub mod guard;
pub mod plan;
pub mod remote;
pub mod text;
