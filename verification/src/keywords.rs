//! The keywords of a schema document: each compiles the value under its key
//! into at most one validator.

pub mod id;
pub mod multiple_of;
pub mod reference;

use crate::context::{joined, WalkContext};
use crate::error::{ErrorKind, SchemaError, SchemaErrorView};
use crate::keywords::id::Id;
use crate::keywords::multiple_of::MultipleOf;
use crate::keywords::reference::Reference;
use crate::validators::{Validator, ValidatorView};
use crate::value::{Member, Value};
use vstd::prelude::*;
use vstd::string::StringExecFns;

verus! {

/// What compiling a keyword gives: a validator, nothing where the keyword
/// asks for no check at run time, or the refusal of its definition.
pub type KeywordResult = Result<Option<Validator>, SchemaError>;

/// What a [`KeywordResult`] holds.
pub type KeywordOutcome = Result<Option<ValidatorView>, SchemaErrorView>;

/// What `result` holds.
pub open spec fn outcome_of(result: KeywordResult) -> KeywordOutcome {
    match result {
        Ok(Some(validator)) => Ok(Some(validator@)),
        Ok(None) => Ok(None),
        Err(error) => Err(error@),
    }
}

/// A keyword. It has no state of its own: what it compiles depends on the
/// definition and on the place alone.
pub trait Keyword {
    /// What compiling `definition`, found at `path`, gives.
    spec fn outcome(&self, definition: Value, path: Seq<Seq<char>>) -> KeywordOutcome;

    /// Compiles the value under the keyword's key. The shape of the
    /// definition is checked here, before any instance is seen.
    fn compile(&self, definition: &Value, ctx: &WalkContext) -> (result: KeywordResult)
        ensures
            outcome_of(result) == self.outcome(*definition, ctx.segments()),
    ;
}

/// What compiling one member of a schema object gives: the outcome of the
/// keyword that claims its key, at the key's place below `base`. A key that
/// no keyword claims gives nothing, or in strict mode a refusal.
pub open spec fn member_outcome(strict: bool, member: Member, base: Seq<Seq<char>>)
    -> KeywordOutcome {
    let path = base.push(member.key@);
    if member.key@ == "id"@ {
        Id.outcome(member.value, path)
    } else if member.key@ == "multipleOf"@ {
        MultipleOf.outcome(member.value, path)
    } else if member.key@ == "$ref"@ {
        Reference.outcome(member.value, path)
    } else if strict {
        Err(
            SchemaErrorView {
                kind: ErrorKind::UnknownKeyword,
                path: joined(path),
                detail: "Unknown keyword: "@ + member.key@,
            },
        )
    } else {
        Ok(None)
    }
}

/// Hands one member of a schema object to the keyword that claims its key.
pub fn compile_member(strict: bool, member: &Member, ctx: &WalkContext) -> (result: KeywordResult)
    ensures
        outcome_of(result) == member_outcome(strict, *member, ctx.segments()),
{
    let here = ctx.descend(member.key.as_str());
    if member.key == "id".to_owned() {
        Id.compile(&member.value, &here)
    } else if member.key == "multipleOf".to_owned() {
        MultipleOf.compile(&member.value, &here)
    } else if member.key == "$ref".to_owned() {
        Reference.compile(&member.value, &here)
    } else if strict {
        let mut detail = "Unknown keyword: ".to_owned();
        detail.append(member.key.as_str());
        Err(SchemaError::new(ErrorKind::UnknownKeyword, here.path_string(), detail))
    } else {
        Ok(None)
    }
}

} // verus!
