//! HTML processors: attribute omission, enclosure omission and
//! path-to-URL conversion over a parsed document tree.

pub mod omit_attr;
pub mod omit_enclosure;
pub mod parser;
pub mod path_to_url;
pub mod serializer;
pub mod text;
pub mod tree;
pub mod utils;
