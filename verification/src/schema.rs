//! Compiled schemas.

use crate::number::Number;
use crate::registry::{lemma_registered_extends, ranked, registered_before, RegistrationView};
use crate::scope::Scope;
use crate::state::{DiagnosticView, ValidationState};
use crate::validators::{
    lemma_divisor_conformance, lemma_ranked_outcome_is_findings, only_findings, validate_all,
    validator_views, validators_outcome, Validator, ValidatorView,
};
use crate::value::Value;
use vstd::prelude::*;

verus! {

/// A compiled schema: its validators in the order of the keys that gave them.
#[derive(Debug)]
pub struct Schema {
    /// The URI that the document declared for itself, if it declared one.
    pub id: Option<String>,
    pub validators: Vec<Validator>,
}

/// What a [`Schema`] holds.
pub struct SchemaView {
    pub id: Option<Seq<char>>,
    pub validators: Seq<ValidatorView>,
}

impl View for Schema {
    type V = SchemaView;

    open spec fn view(&self) -> SchemaView {
        SchemaView {
            id: match self.id {
                Some(id) => Some(id@),
                None => None,
            },
            validators: validator_views(self.validators@),
        }
    }
}

/// Two runs of one schema on one value through one registry report the same
/// diagnostics in the same order.
pub proof fn lemma_validation_is_deterministic(
    schema: Schema,
    registry: Seq<RegistrationView>,
    instance: Value,
    first: ValidationState,
    second: ValidationState,
)
    requires
        first@ == schema.outcome(registry, instance),
        second@ == schema.outcome(registry, instance),
    ensures
        first@ == second@,
        first@.len() == 0 <==> second@.len() == 0,
{
}

/// A value conforms to a schema that holds one divisor check and nothing else
/// exactly when it is no number, or is a number and a multiple of the divisor.
pub proof fn lemma_divisor_schema_conformance(
    schema: Schema,
    divisor: Number,
    registry: Seq<RegistrationView>,
    instance: Value,
)
    requires
        schema@.validators == seq![ValidatorView::MultipleOf { number: divisor }],
    ensures
        schema.outcome(registry, instance).len() == 0 <==> !(instance is Number)
            || instance->Number_0.multiple_of(divisor),
{
    lemma_divisor_conformance(
        registry,
        divisor,
        registry.len(),
        instance,
        Seq::<char>::empty(),
    );
}

/// A schema that stands in a registry whose references lead to earlier
/// registrations reports nothing but what divisor checks find: every
/// reference in it, and behind it, is resolved.
pub proof fn lemma_registered_schema_reports_findings(
    schema: Schema,
    registry: Seq<RegistrationView>,
    position: int,
    instance: Value,
)
    requires
        ranked(registry),
        0 <= position < registry.len(),
        schema@ == registry[position].schema,
    ensures
        only_findings(schema.outcome(registry, instance), Seq::<char>::empty()),
{
    let validators = schema@.validators;
    assert forall|v: int| 0 <= v < validators.len() implies (
    #[trigger] validators[v] matches ValidatorView::Reference { uri } ==> registered_before(
        registry,
        uri,
        registry.len() as int,
    )) by {
        if let ValidatorView::Reference { uri } = validators[v] {
            assert(registry[position].schema.validators[v] == validators[v]);
            assert(registered_before(registry, uri, position));
            lemma_registered_extends(registry, registry, uri, position);
        }
    }
    lemma_ranked_outcome_is_findings(
        registry,
        validators,
        registry.len(),
        instance,
        Seq::<char>::empty(),
    );
}

impl Schema {
    /// What the schema reports on `instance` at the root of a value, with
    /// references resolved through `registry`.
    pub open spec fn outcome(self, registry: Seq<RegistrationView>, instance: Value)
        -> Seq<DiagnosticView> {
        validators_outcome(
            registry,
            self@.validators,
            registry.len(),
            instance,
            Seq::<char>::empty(),
        )
    }

    /// A schema that holds what `self` holds.
    pub fn duplicate(&self) -> (copy: Schema)
        ensures
            copy@ == self@,
    {
        let id = match &self.id {
            Some(id) => Some(id.clone()),
            None => None,
        };
        let mut validators: Vec<Validator> = Vec::new();
        let mut i: usize = 0;
        while i < self.validators.len()
            invariant
                i <= self.validators.len(),
                validators@.len() == i,
                forall|k: int| 0 <= k < i ==> validators@[k]@ == self.validators@[k]@,
            decreases self.validators.len() - i,
        {
            validators.push(self.validators[i].duplicate());
            i = i + 1;
        }
        let copy = Schema { id, validators };
        assert(copy@.validators =~= self@.validators);
        copy
    }

    /// Checks `instance` against every validator of the schema, resolving
    /// references through `scope`, and returns all that they found.
    pub fn validate(&self, instance: &Value, scope: &Scope) -> (state: ValidationState)
        ensures
            state@ == self.outcome(scope@.registry, *instance),
    {
        let mut state = ValidationState::new();
        let path = String::new();
        validate_all(
            &self.validators,
            instance,
            &mut state,
            scope,
            &path,
            scope.registered_count(),
        );
        assert(state@ =~= self.outcome(scope@.registry, *instance));
        state
    }
}

} // verus!
