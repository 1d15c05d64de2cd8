//! The keyword `$ref`.

use crate::context::WalkContext;
use crate::error::{malformed, ErrorKind, SchemaError};
use crate::keywords::{Keyword, KeywordOutcome, KeywordResult};
use crate::validators::{Validator, ValidatorView};
use crate::value::Value;
use vstd::prelude::*;

verus! {

/// Makes a value conform to the schema of another document.
pub struct Reference;

impl Keyword for Reference {
    /// A string gives a reference to the URI that it holds; every other
    /// definition is refused. Whether a document is known under the URI is
    /// for the scope to find out.
    open spec fn outcome(&self, definition: Value, path: Seq<Seq<char>>) -> KeywordOutcome {
        match definition {
            Value::String(uri) => Ok(Some(ValidatorView::Reference { uri: uri@ })),
            _ => Err(malformed(path, "The value of $ref MUST be a string"@)),
        }
    }

    fn compile(&self, definition: &Value, ctx: &WalkContext) -> (result: KeywordResult) {
        match definition.as_string() {
            Some(uri) => Ok(Some(Validator::Reference { uri: uri.clone() })),
            None => Err(
                SchemaError::new(
                    ErrorKind::Malformed,
                    ctx.path_string(),
                    "The value of $ref MUST be a string".to_owned(),
                ),
            ),
        }
    }
}

} // verus!
