//! The keyword `id`.

use crate::context::WalkContext;
use crate::error::{malformed, ErrorKind, SchemaError};
use crate::keywords::{Keyword, KeywordOutcome, KeywordResult};
use crate::value::Value;
use vstd::prelude::*;

verus! {

/// Declares the URI of a document. It asks for no check at run time.
pub struct Id;

impl Keyword for Id {
    /// A string gives no validator; every other definition is refused.
    open spec fn outcome(&self, definition: Value, path: Seq<Seq<char>>) -> KeywordOutcome {
        match definition {
            Value::String(_) => Ok(None),
            _ => Err(malformed(path, "The value of id MUST be a string"@)),
        }
    }

    fn compile(&self, definition: &Value, ctx: &WalkContext) -> (result: KeywordResult) {
        match definition.as_string() {
            Some(_) => Ok(None),
            None => Err(
                SchemaError::new(
                    ErrorKind::Malformed,
                    ctx.path_string(),
                    "The value of id MUST be a string".to_owned(),
                ),
            ),
        }
    }
}

} // verus!
