//! A read-only view of a running awesome window manager as a tree of
//! screens, tags and clients.
//!
//! The window manager offers one remote operation: evaluate a piece of Lua
//! and hand back the result as text. This crate holds everything around that
//! operation that can be reasoned about: which text is sent for which node,
//! how a node's position turns into the indices the window manager expects,
//! and how a reply turns back into a value or a list of child nodes. It
//! performs no input or output itself; whoever owns the connection sends the
//! request that a node hands out and gives the reply back to the node.

pub mod awesome;
pub mod channel;
pub mod decimal;
pub mod decode;
pub mod expression;
pub mod text;
