use vstd::prelude::*;

pub mod callbacks;
pub mod decls;
pub mod fields;
pub mod globals;
pub mod order;
pub mod parse;
pub mod ppt;
pub mod shape;
pub mod strmap;
pub mod text;
pub mod vars;
pub mod readback;
