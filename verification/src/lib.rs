//! Common Lisp support for the Zed editor: the wire protocol and client rules
//! for the master REPL, the language server's reading and formatting rules,
//! the Jupyter kernelspec, and the editor extension's decisions.

pub mod completion;
pub mod completion_laws;
pub mod config;
pub mod connection;
pub mod definition;
pub mod document;
pub mod documentation;
pub mod extension;
pub mod frame;
pub mod hover;
pub mod json;
pub mod kernelspec;
pub mod label;
pub mod master_repl;
pub mod protocol;
pub mod reply_laws;
pub mod request_laws;
pub mod sexp;
pub mod snippet;
pub mod system;
pub mod table;
pub mod text;
pub mod text_laws;
pub mod tokens;
pub mod uri;
pub mod workspace;
