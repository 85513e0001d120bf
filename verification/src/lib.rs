//! Core object model for a dynamic-language runtime: immutable compiled-code
//! objects, insertion-ordered hash dictionaries with mutation detection, live
//! dictionary views, and the iterator protocol (position iterators, sequence
//! iterators, callable-sentinel iterators, and zip-map iterators).
//!
//! Objects of the embedding runtime are represented by plain value tokens
//! ([`obj::ObjRef`]): an identity token, a value-equality token, and a hash
//! code. The embedding runtime supplies real objects and keeps the tokens
//! consistent; everything this crate computes from the tokens is verified.

pub mod code;
pub mod dict;
pub mod dict_inner;
pub mod dict_views;
pub mod iter;
pub mod map;
pub mod obj;

pub use obj::ObjRef;
pub use obj::PyExc;
pub use obj::PyIterReturn;
