//! What the operations of this crate promise, said of what goes into a call and what comes out of
//! it. Each law speaks of every call: `call_ensures` of a function, its arguments and a result
//! says that the result can come of that call.
pub mod boards;
pub mod connection;
pub mod header;
pub mod naming;
pub mod planning;
pub mod reply;
pub mod setup;
pub mod words;
