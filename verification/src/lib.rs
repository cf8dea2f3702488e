//! Values attached to instances.
//!
//! Code that does not know a type can hang values on its instances: the type
//! holds a *store*, and whoever wants to attach a value declares a *variable*
//! and reads and writes its value in any store through the variable's handle.
//! A value is built lazily, when it is first asked for.
//!
//! * A *domain* is a tag type with a counter ([`Cnt`], reached through
//!   [`VarCnt`]) that issues identifiers. Variables and stores belong to a
//!   domain, and a handle of one domain does not fit a store of another.
//! * A [`Var`] is the handle of one variable: a key that carries the
//!   identifier that its domain issued for it.
//! * A [`Slot`] is the cell of one variable in one store: empty, or holding
//!   one value. It can be filled through a shared reference, once.
//! * A [`Node`] is a run of slots and the node that follows it. A chain of
//!   nodes grows at its end, so that it covers identifiers that are issued
//!   after the store was made, and never moves a slot.
//! * A [`Vars`] store owns one chain and has the operations of a store. A
//!   [`Container`] is such a store that takes its handles by value.
//!
//! A store holds values of one type `T`. A store of values of several types
//! takes a boxed dynamic value for `T`.
//!
//! # Shared and exclusive access
//!
//! `get` and `get_or_init` take `&self`: any number of threads may call them
//! on one store, and an initializer may call them again on the store that it
//! builds a value for. Of all the values that are built for one variable, the
//! store takes the first that is ready, and every caller gets that one; the
//! others are dropped. The other operations take `&mut self`.
//!
//! The module [`slot`] says how contracts speak of what a shared store holds.
//!
//! # What is assumed
//!
//! A slot keeps its value in a `once_cell::sync::OnceCell`, and a node its
//! successor. The functions that call into the cell are marked
//! `external_body`, in [`slot`] and [`node`]: their contracts are believed,
//! and everything else is proved from them.

pub mod container;
pub mod get_version;
pub mod node;
pub mod slot;
pub mod var;
pub mod var_cnt;
pub mod vars;
pub mod version;

pub use container::Container;
pub use get_version::GetVersion;
pub use node::Node;
pub use slot::Slot;
pub use var::Var;
pub use var_cnt::{Cnt, VarCnt};
pub use vars::Vars;
pub use version::Version;
