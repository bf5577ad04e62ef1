pub mod grammar;
pub mod obj;

pub use obj::{parse_obj, CoordTokens, ObjError, ObjLayout, Span, UvTokens, VertexRef};
