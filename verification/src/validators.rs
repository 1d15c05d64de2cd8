//! The checks that a compiled schema runs on a value.

use crate::context::{joined, texts};
use crate::number::Number;
use crate::registry::{
    first_registered, lemma_registered_is_found, ranked, registered_before, RegistrationView,
};
use crate::scope::Scope;
use crate::state::{DiagnosticView, ValidationState};
use crate::value::Value;
use vstd::prelude::*;
use vstd::string::StringExecFns;

verus! {

/// One check of a compiled schema.
#[derive(Debug)]
pub enum Validator {
    /// Numbers must be multiples of `number`; other values pass. Numbers
    /// are decimals and the division is exact: no tolerance is applied.
    MultipleOf { number: Number },
    /// The value must conform to the schema registered under `uri`. The
    /// validator holds the key only: the scope owns the schema.
    Reference { uri: String },
}

/// What a [`Validator`] holds.
pub enum ValidatorView {
    MultipleOf { number: Number },
    Reference { uri: Seq<char> },
}

impl View for Validator {
    type V = ValidatorView;

    open spec fn view(&self) -> ValidatorView {
        match self {
            Validator::MultipleOf { number } => ValidatorView::MultipleOf { number: *number },
            Validator::Reference { uri } => ValidatorView::Reference { uri: uri@ },
        }
    }
}

/// What each of the validators holds.
pub open spec fn validator_views(validators: Seq<Validator>) -> Seq<ValidatorView> {
    Seq::new(validators.len(), |i: int| validators[i]@)
}

/// The words in which a divisor check reports `x`: the number, then the
/// divisor that it is no multiple of.
pub open spec fn finding(x: Number, divisor: Number) -> Seq<char> {
    x.text() + " is not a multiple of "@ + divisor.text()
}

/// What a divisor check reports on `instance`: nothing, unless the instance
/// is a number that is no multiple of `number`.
pub open spec fn multiple_of_outcome(number: Number, instance: Value, path: Seq<char>) -> Seq<
    DiagnosticView,
> {
    match instance {
        Value::Number(x) => if x.multiple_of(number) {
            Seq::empty()
        } else {
            seq![DiagnosticView { path, detail: finding(x, number) }]
        },
        _ => Seq::empty(),
    }
}

/// What a reference reports when the registry has no schema for it.
pub open spec fn unresolved_outcome(uri: Seq<char>, path: Seq<char>) -> Seq<DiagnosticView> {
    seq![DiagnosticView { path, detail: "Unresolved reference to "@ + uri }]
}

/// What one validator reports on `instance`. A reference is followed to the
/// first registration under its URI, which must stand below `rank` in the
/// registry; the validators found there run with that position as their rank.
pub open spec fn validator_outcome(
    registry: Seq<RegistrationView>,
    validator: ValidatorView,
    rank: nat,
    instance: Value,
    path: Seq<char>,
) -> Seq<DiagnosticView>
    decreases rank, 0nat,
{
    match validator {
        ValidatorView::MultipleOf { number } => multiple_of_outcome(number, instance, path),
        ValidatorView::Reference { uri } => match first_registered(registry, uri, 0) {
            Some(target) => if 0 <= target < rank && target < registry.len() {
                validators_outcome(
                    registry,
                    registry[target].schema.validators,
                    target as nat,
                    instance,
                    path,
                )
            } else {
                unresolved_outcome(uri, path)
            },
            None => unresolved_outcome(uri, path),
        },
    }
}

/// What the validators report on `instance`, one after the other: every one
/// of them runs, whatever those before it found.
pub open spec fn validators_outcome(
    registry: Seq<RegistrationView>,
    validators: Seq<ValidatorView>,
    rank: nat,
    instance: Value,
    path: Seq<char>,
) -> Seq<DiagnosticView>
    decreases rank, validators.len() + 1,
{
    if validators.len() == 0 {
        Seq::empty()
    } else {
        validators_outcome(registry, validators.drop_last(), rank, instance, path)
            + validator_outcome(registry, validators.last(), rank, instance, path)
    }
}

/// A divisor check alone reports nothing on an instance exactly when the
/// instance is no number, or is a number and a multiple of the divisor.
pub proof fn lemma_divisor_conformance(
    registry: Seq<RegistrationView>,
    divisor: Number,
    rank: nat,
    instance: Value,
    path: Seq<char>,
)
    ensures
        validators_outcome(
            registry,
            seq![ValidatorView::MultipleOf { number: divisor }],
            rank,
            instance,
            path,
        ).len() == 0 <==> !(instance is Number) || instance->Number_0.multiple_of(divisor),
{
    reveal_with_fuel(validators_outcome, 2);
    let only = seq![ValidatorView::MultipleOf { number: divisor }];
    assert(only.drop_last() =~= Seq::<ValidatorView>::empty());
    assert(only.last() == ValidatorView::MultipleOf { number: divisor });
}

/// Whether a diagnostic is what some divisor check reports at `path`.
pub open spec fn is_finding(diagnostic: DiagnosticView, path: Seq<char>) -> bool {
    &&& diagnostic.path == path
    &&& exists|x: Number, divisor: Number|
        !x.multiple_of(divisor) && diagnostic.detail == #[trigger] finding(x, divisor)
}

/// Whether all the diagnostics are what divisor checks report at `path`.
pub open spec fn only_findings(outcome: Seq<DiagnosticView>, path: Seq<char>) -> bool {
    forall|i: int| 0 <= i < outcome.len() ==> is_finding(#[trigger] outcome[i], path)
}

/// Whether every reference among `validators` names a URI that is registered
/// before `rank`.
pub open spec fn references_ranked(
    registry: Seq<RegistrationView>,
    validators: Seq<ValidatorView>,
    rank: int,
) -> bool {
    forall|v: int|
        0 <= v < validators.len() ==> (#[trigger] validators[v] matches ValidatorView::Reference {
            uri,
        } ==> registered_before(registry, uri, rank))
}

/// Through a registry whose references lead to earlier registrations, every
/// reference is followed to its end: validators whose references are
/// registered before `rank` report nothing but what divisor checks find. No
/// reference is left unresolved.
pub proof fn lemma_ranked_outcome_is_findings(
    registry: Seq<RegistrationView>,
    validators: Seq<ValidatorView>,
    rank: nat,
    instance: Value,
    path: Seq<char>,
)
    requires
        ranked(registry),
        rank <= registry.len(),
        references_ranked(registry, validators, rank as int),
    ensures
        only_findings(validators_outcome(registry, validators, rank, instance, path), path),
    decreases rank, validators.len(),
{
    if validators.len() > 0 {
        let before = validators.drop_last();
        let last = validators.last();
        assert forall|v: int| 0 <= v < before.len() implies (
        #[trigger] before[v] matches ValidatorView::Reference { uri } ==> registered_before(
            registry,
            uri,
            rank as int,
        )) by {
            assert(before[v] == validators[v]);
        }
        lemma_ranked_outcome_is_findings(registry, before, rank, instance, path);
        let head = validators_outcome(registry, before, rank, instance, path);
        let tail = validator_outcome(registry, last, rank, instance, path);
        assert(last == validators[validators.len() - 1]);
        match last {
            ValidatorView::MultipleOf { number } => {
                match instance {
                    Value::Number(x) => {
                        if !x.multiple_of(number) {
                            assert(tail[0].detail == finding(x, number));
                        }
                    },
                    _ => {},
                }
            },
            ValidatorView::Reference { uri } => {
                lemma_registered_is_found(registry, uri, rank as int);
                let target = first_registered(registry, uri, 0)->Some_0;
                let found = registry[target].schema.validators;
                assert forall|v: int| 0 <= v < found.len() implies (
                #[trigger] found[v] matches ValidatorView::Reference { uri } ==> registered_before(
                    registry,
                    uri,
                    target,
                )) by {
                    assert(registry[target].schema.validators[v] == found[v]);
                }
                lemma_ranked_outcome_is_findings(registry, found, target as nat, instance, path);
            },
        }
        assert(only_findings(tail, path));
        assert forall|i: int| 0 <= i < (head + tail).len() implies is_finding(
            #[trigger] (head + tail)[i],
            path,
        ) by {
            if i < head.len() {
                assert((head + tail)[i] == head[i]);
            } else {
                assert((head + tail)[i] == tail[i - head.len()]);
            }
        }
    }
}

/// Where a validation run stands: the scope that resolves references, and the
/// path from the root of the value down to the instance at hand.
pub struct ValidationContext<'a> {
    pub scope: &'a Scope,
    pub path: Vec<String>,
}

impl<'a> ValidationContext<'a> {
    /// The path, segment by segment.
    pub open spec fn segments(&self) -> Seq<Seq<char>> {
        texts(self.path@)
    }

    /// The context at the root of a value.
    pub fn root(scope: &'a Scope) -> (context: ValidationContext<'a>)
        ensures
            context.scope == scope,
            context.segments() == Seq::<Seq<char>>::empty(),
    {
        let context = ValidationContext { scope, path: Vec::new() };
        assert(context.segments() =~= Seq::<Seq<char>>::empty());
        context
    }

    /// The context one step further down: under a key or at an index.
    pub fn descend(&self, segment: &str) -> (child: ValidationContext<'a>)
        ensures
            child.scope == self.scope,
            child.segments() == self.segments().push(segment@),
    {
        let path = crate::context::extended(&self.path, segment);
        ValidationContext { scope: self.scope, path }
    }

    /// The path as one string, its segments joined by `/`.
    pub fn path_string(&self) -> (path: String)
        ensures
            path@ == joined(self.segments()),
    {
        crate::context::join(&self.path)
    }
}

impl Validator {
    /// A validator that holds what `self` holds.
    pub fn duplicate(&self) -> (copy: Validator)
        ensures
            copy@ == self@,
    {
        match self {
            Validator::MultipleOf { number } => Validator::MultipleOf { number: *number },
            Validator::Reference { uri } => Validator::Reference { uri: uri.clone() },
        }
    }

    /// Checks `instance`. What the validator finds is added behind what
    /// `state` holds, at the path of `ctx`; the result says whether it found
    /// nothing.
    pub fn validate(
        &self,
        instance: &Value,
        state: &mut ValidationState,
        ctx: &ValidationContext,
    ) -> (holds: bool)
        ensures
            final(state)@ == old(state)@ + validator_outcome(
                ctx.scope@.registry,
                self@,
                ctx.scope@.registry.len(),
                *instance,
                joined(ctx.segments()),
            ),
            holds == (validator_outcome(
                ctx.scope@.registry,
                self@,
                ctx.scope@.registry.len(),
                *instance,
                joined(ctx.segments()),
            ).len() == 0),
    {
        let path = ctx.path_string();
        validate_one(self, instance, state, ctx.scope, &path, ctx.scope.registered_count())
    }
}

/// Runs a divisor check.
fn check_multiple_of(
    number: &Number,
    instance: &Value,
    state: &mut ValidationState,
    path: &String,
) -> (holds: bool)
    ensures
        final(state)@ == old(state)@ + multiple_of_outcome(*number, *instance, path@),
        holds == (multiple_of_outcome(*number, *instance, path@).len() == 0),
{
    match instance {
        Value::Number(x) => {
            if x.is_multiple_of(number) {
                assert(state@ =~= old(state)@ + Seq::<DiagnosticView>::empty());
                true
            } else {
                let mut detail = x.to_text();
                detail.append(" is not a multiple of ");
                detail.append(number.to_text().as_str());
                state.record(path.clone(), detail);
                assert(state@ =~= old(state)@ + multiple_of_outcome(*number, *instance, path@));
                false
            }
        },
        _ => {
            assert(state@ =~= old(state)@ + Seq::<DiagnosticView>::empty());
            true
        },
    }
}

/// Runs one validator, following a reference only to a registration below `rank`.
pub(crate) fn validate_one(
    validator: &Validator,
    instance: &Value,
    state: &mut ValidationState,
    scope: &Scope,
    path: &String,
    rank: usize,
) -> (holds: bool)
    ensures
        final(state)@ == old(state)@ + validator_outcome(
            scope@.registry,
            validator@,
            rank as nat,
            *instance,
            path@,
        ),
        holds == (validator_outcome(scope@.registry, validator@, rank as nat, *instance, path@).len()
            == 0),
    decreases rank, 0nat,
{
    match validator {
        Validator::MultipleOf { number } => {
            let holds = check_multiple_of(number, instance, state, path);
            assert(validator@ == ValidatorView::MultipleOf { number: *number });
            assert(validator_outcome(scope@.registry, validator@, rank as nat, *instance, path@)
                == multiple_of_outcome(*number, *instance, path@));
            holds
        },
        Validator::Reference { uri } => {
            let found = scope.position(uri);
            let target: usize = match found {
                Some(t) => t,
                None => rank,
            };
            if target < rank {
                let holds = validate_all(
                    scope.validators_at(target),
                    instance,
                    state,
                    scope,
                    path,
                    target,
                );
                assert(validator@ == ValidatorView::Reference { uri: uri@ });
                assert(first_registered(scope@.registry, uri@, 0) == Some(target as int));
                assert(validator_outcome(scope@.registry, validator@, rank as nat, *instance, path@)
                    == validators_outcome(
                    scope@.registry,
                    scope@.registry[target as int].schema.validators,
                    target as nat,
                    *instance,
                    path@,
                ));
                holds
            } else {
                let mut detail = "Unresolved reference to ".to_owned();
                detail.append(uri.as_str());
                state.record(path.clone(), detail);
                assert(state@ =~= old(state)@ + unresolved_outcome(uri@, path@));
                assert(validator@ == ValidatorView::Reference { uri: uri@ });
                assert(validator_outcome(scope@.registry, validator@, rank as nat, *instance, path@)
                    == unresolved_outcome(uri@, path@));
                false
            }
        },
    }
}

/// Runs every validator in turn.
pub(crate) fn validate_all(
    validators: &Vec<Validator>,
    instance: &Value,
    state: &mut ValidationState,
    scope: &Scope,
    path: &String,
    rank: usize,
) -> (holds: bool)
    ensures
        final(state)@ == old(state)@ + validators_outcome(
            scope@.registry,
            validator_views(validators@),
            rank as nat,
            *instance,
            path@,
        ),
        holds == (validators_outcome(
            scope@.registry,
            validator_views(validators@),
            rank as nat,
            *instance,
            path@,
        ).len() == 0),
    decreases rank, 1nat,
{
    let ghost views = validator_views(validators@);
    let mut holds = true;
    let mut i: usize = 0;
    assert(state@ =~= old(state)@ + Seq::<DiagnosticView>::empty());
    while i < validators.len()
        invariant
            i <= validators.len(),
            views == validator_views(validators@),
            state@ == old(state)@ + validators_outcome(
                scope@.registry,
                views.take(i as int),
                rank as nat,
                *instance,
                path@,
            ),
            holds == (validators_outcome(
                scope@.registry,
                views.take(i as int),
                rank as nat,
                *instance,
                path@,
            ).len() == 0),
        decreases validators.len() - i,
    {
        let ghost before = state@;
        let one = validate_one(&validators[i], instance, state, scope, path, rank);
        proof {
            assert(views.take(i + 1).drop_last() =~= views.take(i as int));
            assert(views.take(i + 1).last() == validators@[i as int]@);
            assert(state@ =~= old(state)@ + validators_outcome(
                scope@.registry,
                views.take(i + 1),
                rank as nat,
                *instance,
                path@,
            ));
        }
        holds = holds && one;
        i = i + 1;
    }
    assert(views.take(i as int) =~= views);
    holds
}

} // verus!
