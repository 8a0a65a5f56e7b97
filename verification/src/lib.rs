//! Verified core of the ufbx loader: the byte-level lexers, tokenizers,
//! pattern matcher and bookkeeping rules of the FBX (ASCII) and Wavefront
//! OBJ/MTL readers.
use vstd::prelude::*;

pub mod ascii;
pub mod obj_lex;
pub mod names;
pub mod opts;
pub mod obj;
pub mod values;
pub mod lines;
pub mod obj_file;
pub mod nurbs;
pub mod parse_state;
pub mod obj_pop;
pub mod matcher;
pub mod format;
pub mod mtl;
pub mod props;
pub mod base64;
pub mod progress;
pub mod ascii_token;
pub mod node_values;
pub mod dom;
pub mod toplevel;
pub mod ascii_node;
pub mod laws;
pub mod text_laws;

verus! {
} // verus!
