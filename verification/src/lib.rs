//! Semantic core of a small-language compiler front end: source positions and
//! spans, lexical scopes with an insertion-ordered symbol table, a structural
//! type registry handing out stable integer identities, the untyped and typed
//! syntax trees, and the resolver that turns one into the other.

pub mod ast;
pub mod ctrl;
pub mod pos;
pub mod resolve;
pub mod scope;
pub mod syntax;
pub mod ty;
