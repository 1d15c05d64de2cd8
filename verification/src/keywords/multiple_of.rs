//! The keyword `multipleOf`.

use crate::context::WalkContext;
use crate::error::{malformed, ErrorKind, SchemaError};
use crate::keywords::{Keyword, KeywordOutcome, KeywordResult};
use crate::validators::{Validator, ValidatorView};
use crate::value::Value;
use vstd::prelude::*;

verus! {

/// Constrains numbers to the multiples of a divisor.
pub struct MultipleOf;

impl Keyword for MultipleOf {
    /// A number strictly greater than zero gives the divisor check; every
    /// other definition is refused.
    open spec fn outcome(&self, definition: Value, path: Seq<Seq<char>>) -> KeywordOutcome {
        match definition {
            Value::Number(number) => if number.positive() {
                Ok(Some(ValidatorView::MultipleOf { number }))
            } else {
                Err(malformed(path, "The value of multipleOf MUST be strictly greater than 0"@))
            },
            _ => Err(malformed(path, "The value of multipleOf MUST be a JSON number"@)),
        }
    }

    fn compile(&self, definition: &Value, ctx: &WalkContext) -> (result: KeywordResult)
        ensures
            result is Ok <==> definition is Number && definition->Number_0.positive(),
            result matches Err(error) ==> error.kind == ErrorKind::Malformed,
            result matches Ok(validator) ==> validator matches Some(Validator::MultipleOf { number })
                && number == definition->Number_0,
    {
        if definition.is_number() {
            let multiple_of = definition.as_number().unwrap();
            if multiple_of.is_positive() {
                Ok(Some(Validator::MultipleOf { number: multiple_of }))
            } else {
                Err(
                    SchemaError::new(
                        ErrorKind::Malformed,
                        ctx.path_string(),
                        "The value of multipleOf MUST be strictly greater than 0".to_owned(),
                    ),
                )
            }
        } else {
            Err(
                SchemaError::new(
                    ErrorKind::Malformed,
                    ctx.path_string(),
                    "The value of multipleOf MUST be a JSON number".to_owned(),
                ),
            )
        }
    }
}

} // verus!
