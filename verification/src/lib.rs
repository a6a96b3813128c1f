//! Compiles route templates such as `/users/<id>/<rest..>?<page>&sort` into
//! classified segments that carry their place in the declaration's text, and
//! words the diagnostics for every way in which a template can be malformed.

pub mod span;
pub mod text;
pub mod grammar;
pub mod splitter;
pub mod diagnostic;
pub mod segments;
pub mod route;
pub mod http;
