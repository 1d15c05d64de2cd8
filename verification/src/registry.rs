//! The compiled schemas of a scope, each under its canonical URI.

use crate::schema::{Schema, SchemaView};
use crate::validators::ValidatorView;
use vstd::prelude::*;

verus! {

/// A compiled schema and the canonical URI under which its scope holds it.
#[derive(Debug)]
pub struct Registration {
    pub uri: String,
    pub schema: Schema,
}

/// What a [`Registration`] holds.
pub struct RegistrationView {
    pub uri: Seq<char>,
    pub schema: SchemaView,
}

impl View for Registration {
    type V = RegistrationView;

    open spec fn view(&self) -> RegistrationView {
        RegistrationView { uri: self.uri@, schema: self.schema@ }
    }
}

/// What each of the registrations holds.
pub open spec fn registration_views(registry: Seq<Registration>) -> Seq<RegistrationView> {
    Seq::new(registry.len(), |i: int| registry[i]@)
}

/// The position of the first registration under `uri` from `from` on.
pub open spec fn first_registered(registry: Seq<RegistrationView>, uri: Seq<char>, from: int)
    -> Option<int>
    decreases registry.len() - from,
{
    if from < 0 || from >= registry.len() {
        None
    } else if registry[from].uri == uri {
        Some(from)
    } else {
        first_registered(registry, uri, from + 1)
    }
}

/// Whether one of the first `upto` registrations stands under `uri`.
pub open spec fn registered_before(registry: Seq<RegistrationView>, uri: Seq<char>, upto: int)
    -> bool {
    exists|t: int| 0 <= t < upto && t < registry.len() && (#[trigger] registry[t]).uri == uri
}

/// Whether every reference in a registered schema names a registration that
/// stands before its own. Following references through such a registry
/// comes to an end.
pub open spec fn ranked(registry: Seq<RegistrationView>) -> bool {
    forall|r: int, v: int|
        0 <= r < registry.len() && 0 <= v < registry[r].schema.validators.len() ==> (
        #[trigger] registry[r].schema.validators[v] matches ValidatorView::Reference { uri }
            ==> registered_before(registry, uri, r))
}

/// Whether no two registrations stand under one URI.
pub open spec fn distinct(registry: Seq<RegistrationView>) -> bool {
    forall|s: int, t: int|
        0 <= s < t < registry.len() ==> (#[trigger] registry[s]).uri != (#[trigger] registry[t]).uri
}

/// Whether `longer` begins with the registrations of `shorter`.
pub open spec fn extends(longer: Seq<RegistrationView>, shorter: Seq<RegistrationView>) -> bool {
    &&& shorter.len() <= longer.len()
    &&& forall|t: int| 0 <= t < shorter.len() ==> #[trigger] longer[t] == shorter[t]
}

/// A URI that is registered stays so when registrations are added.
pub proof fn lemma_registered_extends(
    longer: Seq<RegistrationView>,
    shorter: Seq<RegistrationView>,
    uri: Seq<char>,
    upto: int,
)
    requires
        extends(longer, shorter),
        registered_before(shorter, uri, upto),
    ensures
        registered_before(longer, uri, upto),
        registered_before(longer, uri, longer.len() as int),
{
    let t = choose|t: int| 0 <= t < upto && t < shorter.len() && (#[trigger] shorter[t]).uri == uri;
    assert(longer[t] == shorter[t]);
}

/// The first registration under a URI stands no later than any under it.
pub proof fn lemma_first_registered_from(
    registry: Seq<RegistrationView>,
    uri: Seq<char>,
    from: int,
    at: int,
)
    requires
        0 <= from <= at < registry.len(),
        registry[at].uri == uri,
    ensures
        first_registered(registry, uri, from) matches Some(t) && from <= t <= at && registry[t].uri
            == uri,
    decreases at - from,
{
    if registry[from].uri != uri {
        lemma_first_registered_from(registry, uri, from + 1, at);
    }
}

/// A URI that is registered before a position is found before it.
pub proof fn lemma_registered_is_found(registry: Seq<RegistrationView>, uri: Seq<char>, upto: int)
    requires
        registered_before(registry, uri, upto),
    ensures
        first_registered(registry, uri, 0) matches Some(t) && 0 <= t < upto && t < registry.len()
            && registry[t].uri == uri,
{
    let at = choose|t: int| 0 <= t < upto && t < registry.len() && (#[trigger] registry[t]).uri == uri;
    lemma_first_registered_from(registry, uri, 0, at);
}

/// Looks for the first registration under `uri`.
pub(crate) fn find_registered(registry: &Vec<Registration>, uri: &String) -> (found: Option<usize>)
    ensures
        first_registered(registration_views(registry@), uri@, 0) == (match found {
            Some(i) => Some(i as int),
            None => None,
        }),
        found matches Some(i) ==> i < registry@.len(),
{
    let ghost views = registration_views(registry@);
    let mut i: usize = 0;
    while i < registry.len()
        invariant
            i <= registry.len(),
            views == registration_views(registry@),
            first_registered(views, uri@, 0) == first_registered(views, uri@, i as int),
        decreases registry.len() - i,
    {
        if registry[i].uri == *uri {
            return Some(i);
        }
        i = i + 1;
    }
    None
}

} // verus!
