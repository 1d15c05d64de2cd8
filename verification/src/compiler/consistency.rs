//! What compilation keeps true of its marks and its registry.

use crate::compiler::{
    compile_document, compile_members, declared_id, last_document, resolve_reference, CompileState,
    DocumentView, Mark,
};
use crate::context::joined;
use crate::keywords::member_outcome;
use crate::registry::{
    distinct, extends, lemma_registered_extends, ranked, registered_before, RegistrationView,
};
use crate::schema::SchemaView;
use crate::validators::{references_ranked, ValidatorView};
use vstd::prelude::*;

verus! {

/// Whether the marks and the registry fit the documents and each other:
/// references in the registry lead to earlier registrations; no URI is
/// registered twice; a document that has been met is the last under its URI;
/// and the documents that are done are those that are registered.
pub open spec fn consistent(
    documents: Seq<DocumentView>,
    marks: Seq<Mark>,
    registry: Seq<RegistrationView>,
) -> bool {
    &&& marks.len() == documents.len()
    &&& ranked(registry)
    &&& distinct(registry)
    &&& forall|i: int|
        0 <= i < marks.len() && !((#[trigger] marks[i]) is Idle) ==> last_document(
            documents,
            documents[i].uri,
            documents.len() as int,
        ) == Some(i)
    &&& forall|i: int|
        0 <= i < marks.len() && (#[trigger] marks[i]) is Done ==> registered_before(
            registry,
            documents[i].uri,
            registry.len() as int,
        )
    &&& forall|t: int|
        0 <= t < registry.len() ==> done_under(documents, marks, (#[trigger] registry[t]).uri)
}

/// Whether a document under `uri` is done.
pub open spec fn done_under(documents: Seq<DocumentView>, marks: Seq<Mark>, uri: Seq<char>) -> bool {
    exists|i: int| 0 <= i < marks.len() && (#[trigger] marks[i]) is Done && documents[i].uri == uri
}

/// Whether every reference among `validators` names a registered URI.
pub open spec fn references_registered(
    validators: Seq<ValidatorView>,
    registry: Seq<RegistrationView>,
) -> bool {
    references_ranked(registry, validators, registry.len() as int)
}

/// Beginning a document keeps marks and registry consistent.
proof fn lemma_consistent_start(
    documents: Seq<DocumentView>,
    marks: Seq<Mark>,
    registry: Seq<RegistrationView>,
    j: int,
)
    requires
        consistent(documents, marks, registry),
        0 <= j < marks.len(),
        marks[j] is Idle,
        last_document(documents, documents[j].uri, documents.len() as int) == Some(j),
    ensures
        consistent(documents, marks.update(j, Mark::InProgress), registry),
{
    let started = marks.update(j, Mark::InProgress);
    assert forall|t: int| 0 <= t < registry.len() implies done_under(
        documents,
        started,
        (#[trigger] registry[t]).uri,
    ) by {
        assert(done_under(documents, marks, registry[t].uri));
        let i = choose|i: int|
            0 <= i < marks.len() && (#[trigger] marks[i]) is Done && documents[i].uri
                == registry[t].uri;
        assert(started[i] is Done);
    }
    assert forall|i: int| 0 <= i < started.len() && (#[trigger] started[i]) is Done implies
        registered_before(registry, documents[i].uri, registry.len() as int) by {
        assert(marks[i] is Done);
    }
    assert forall|i: int| 0 <= i < started.len() && !((#[trigger] started[i]) is Idle) implies
        last_document(documents, documents[i].uri, documents.len() as int) == Some(i) by {
        if i != j {
            assert(!(marks[i] is Idle));
        }
    }
}

/// Completing a document, all of whose references are registered, keeps
/// marks and registry consistent.
proof fn lemma_consistent_finish(
    documents: Seq<DocumentView>,
    marks: Seq<Mark>,
    registry: Seq<RegistrationView>,
    j: int,
    schema: SchemaView,
)
    requires
        consistent(documents, marks, registry),
        0 <= j < marks.len(),
        marks[j] is InProgress,
        references_registered(schema.validators, registry),
    ensures
        consistent(
            documents,
            marks.update(j, Mark::Done),
            registry.push(RegistrationView { uri: documents[j].uri, schema }),
        ),
{
    let done = marks.update(j, Mark::Done);
    let added = RegistrationView { uri: documents[j].uri, schema };
    let longer = registry.push(added);
    let n = registry.len() as int;
    assert(extends(longer, registry));
    assert forall|r: int, v: int|
        0 <= r < longer.len() && 0 <= v < longer[r].schema.validators.len() implies (
    #[trigger] longer[r].schema.validators[v] matches ValidatorView::Reference { uri }
        ==> registered_before(longer, uri, r)) by {
        if let ValidatorView::Reference { uri } = longer[r].schema.validators[v] {
            if r < n {
                assert(longer[r] == registry[r]);
                assert(registry[r].schema.validators[v] matches ValidatorView::Reference { uri }
                    ==> registered_before(registry, uri, r));
                lemma_registered_extends(longer, registry, uri, r);
            } else {
                assert(schema.validators[v] matches ValidatorView::Reference { uri }
                    ==> registered_before(registry, uri, n));
                lemma_registered_extends(longer, registry, uri, n);
            }
        }
    }
    assert forall|s: int, t: int| 0 <= s < t < longer.len() implies (#[trigger] longer[s]).uri != (
    #[trigger] longer[t]).uri by {
        if t < n {
            assert(longer[s] == registry[s]);
            assert(longer[t] == registry[t]);
        } else {
            assert(longer[s] == registry[s]);
            assert(done_under(documents, marks, registry[s].uri));
            let i = choose|i: int|
                0 <= i < marks.len() && (#[trigger] marks[i]) is Done && documents[i].uri
                    == registry[s].uri;
            assert(!(marks[i] is Idle));
            assert(!(marks[j] is Idle));
            if registry[s].uri == documents[j].uri {
                assert(last_document(documents, documents[i].uri, documents.len() as int) == Some(
                    i,
                ));
                assert(last_document(documents, documents[j].uri, documents.len() as int) == Some(
                    j,
                ));
                assert(false);
            }
        }
    }
    assert forall|i: int| 0 <= i < done.len() && !((#[trigger] done[i]) is Idle) implies
        last_document(documents, documents[i].uri, documents.len() as int) == Some(i) by {
        assert(!(marks[i] is Idle));
    }
    assert forall|i: int| 0 <= i < done.len() && (#[trigger] done[i]) is Done implies
        registered_before(longer, documents[i].uri, longer.len() as int) by {
        if i == j {
            assert(longer[n] == added);
        } else {
            assert(marks[i] is Done);
            lemma_registered_extends(longer, registry, documents[i].uri, n);
        }
    }
    assert forall|t: int| 0 <= t < longer.len() implies done_under(
        documents,
        done,
        (#[trigger] longer[t]).uri,
    ) by {
        if t < n {
            assert(longer[t] == registry[t]);
            assert(done_under(documents, marks, registry[t].uri));
            let i = choose|i: int|
                0 <= i < marks.len() && (#[trigger] marks[i]) is Done && documents[i].uri
                    == registry[t].uri;
            assert(done[i] is Done);
        } else {
            assert(done[j] is Done);
        }
    }
}

/// References that are registered stay so when registrations are added.
proof fn lemma_references_extend(
    validators: Seq<ValidatorView>,
    longer: Seq<RegistrationView>,
    shorter: Seq<RegistrationView>,
)
    requires
        extends(longer, shorter),
        references_registered(validators, shorter),
    ensures
        references_registered(validators, longer),
{
    assert forall|v: int| 0 <= v < validators.len() implies (
    #[trigger] validators[v] matches ValidatorView::Reference { uri } ==> registered_before(
        longer,
        uri,
        longer.len() as int,
    )) by {
        if let ValidatorView::Reference { uri } = validators[v] {
            lemma_registered_extends(longer, shorter, uri, shorter.len() as int);
        }
    }
}

/// The last document under a URI is a document, and stands under that URI.
pub proof fn lemma_last_document(documents: Seq<DocumentView>, uri: Seq<char>, upto: int)
    ensures
        last_document(documents, uri, upto) matches Some(found) ==> 0 <= found < upto && found
            < documents.len() && documents[found].uri == uri,
    decreases upto,
{
    if 0 < upto <= documents.len() && documents[upto - 1].uri != uri {
        lemma_last_document(documents, uri, upto - 1);
    }
}

/// Whether the marks in progress in `before` are in progress in `after`.
pub open spec fn keeps_progress(before: Seq<Mark>, after: Seq<Mark>) -> bool {
    &&& before.len() == after.len()
    &&& forall|i: int| 0 <= i < before.len() && before[i] is InProgress ==> after[i] is InProgress
}

/// Compiling a document keeps marks and registry consistent: where it
/// succeeds, the document is done, the documents in progress are still in
/// progress, and the registry has grown at its end only.
pub proof fn lemma_compile_document_consistent(
    documents: Seq<DocumentView>,
    strict: bool,
    j: int,
    depth: nat,
    state: CompileState,
)
    requires
        0 <= j < documents.len(),
        consistent(documents, state.marks, state.registry),
        state.marks[j] is Idle,
        last_document(documents, documents[j].uri, documents.len() as int) == Some(j),
    ensures
        compile_document(documents, strict, j, depth, state) matches Ok(after) ==> {
            &&& consistent(documents, after.marks, after.registry)
            &&& extends(after.registry, state.registry)
            &&& keeps_progress(state.marks, after.marks)
            &&& after.marks[j] is Done
        },
    decreases depth, 2nat, 0nat,
{
    if documents[j].body is Object {
        let started = CompileState {
            marks: state.marks.update(j, Mark::InProgress),
            registry: state.registry,
        };
        lemma_consistent_start(documents, state.marks, state.registry, j);
        lemma_compile_members_consistent(documents, strict, j, 0, depth, started, Seq::empty());
        match compile_members(documents, strict, j, 0, depth, started, Seq::empty()) {
            Ok((validators, collected)) => {
                let schema = SchemaView { id: declared_id(documents[j].body), validators };
                lemma_consistent_finish(documents, collected.marks, collected.registry, j, schema);
            },
            Err(_) => {},
        }
    }
}

/// Compiling the members of a document in progress keeps marks and registry
/// consistent, and the references among the validators registered.
pub proof fn lemma_compile_members_consistent(
    documents: Seq<DocumentView>,
    strict: bool,
    j: int,
    k: int,
    depth: nat,
    state: CompileState,
    validators: Seq<ValidatorView>,
)
    requires
        0 <= j < documents.len(),
        consistent(documents, state.marks, state.registry),
        state.marks[j] is InProgress,
        references_registered(validators, state.registry),
    ensures
        compile_members(documents, strict, j, k, depth, state, validators) matches Ok(done) ==> {
            &&& consistent(documents, done.1.marks, done.1.registry)
            &&& extends(done.1.registry, state.registry)
            &&& keeps_progress(state.marks, done.1.marks)
            &&& references_registered(done.0, done.1.registry)
        },
    decreases depth, 1nat, documents[j].body.members().len() - k,
{
    let members = documents[j].body.members();
    if 0 <= k < members.len() {
        match member_outcome(strict, members[k], Seq::empty()) {
            Err(_) => {},
            Ok(None) => {
                lemma_compile_members_consistent(documents, strict, j, k + 1, depth, state, validators);
            },
            Ok(Some(validator)) => {
                let longer = validators.push(validator);
                match validator {
                    ValidatorView::Reference { uri } => {
                        let path = joined(seq![members[k].key@]);
                        lemma_resolve_reference_consistent(documents, strict, uri, path, depth, state);
                        match resolve_reference(documents, strict, uri, path, depth, state) {
                            Err(_) => {},
                            Ok(next) => {
                                lemma_references_extend(validators, next.registry, state.registry);
                                assert(references_registered(longer, next.registry)) by {
                                    assert forall|v: int| 0 <= v < longer.len() implies (
                                    #[trigger] longer[v] matches ValidatorView::Reference { uri }
                                        ==> registered_before(
                                        next.registry,
                                        uri,
                                        next.registry.len() as int,
                                    )) by {
                                        if v < validators.len() {
                                            assert(longer[v] == validators[v]);
                                        }
                                    }
                                }
                                lemma_compile_members_consistent(
                                    documents,
                                    strict,
                                    j,
                                    k + 1,
                                    depth,
                                    next,
                                    longer,
                                );
                            },
                        }
                    },
                    _ => {
                        assert(references_registered(longer, state.registry)) by {
                            assert forall|v: int| 0 <= v < longer.len() implies (
                            #[trigger] longer[v] matches ValidatorView::Reference { uri }
                                ==> registered_before(
                                state.registry,
                                uri,
                                state.registry.len() as int,
                            )) by {
                                if v < validators.len() {
                                    assert(longer[v] == validators[v]);
                                }
                            }
                        }
                        lemma_compile_members_consistent(
                            documents,
                            strict,
                            j,
                            k + 1,
                            depth,
                            state,
                            longer,
                        );
                    },
                }
            },
        }
    }
}

/// Resolving a reference keeps marks and registry consistent, and leaves the
/// URI registered.
pub proof fn lemma_resolve_reference_consistent(
    documents: Seq<DocumentView>,
    strict: bool,
    uri: Seq<char>,
    path: Seq<char>,
    depth: nat,
    state: CompileState,
)
    requires
        consistent(documents, state.marks, state.registry),
    ensures
        resolve_reference(documents, strict, uri, path, depth, state) matches Ok(next) ==> {
            &&& consistent(documents, next.marks, next.registry)
            &&& extends(next.registry, state.registry)
            &&& keeps_progress(state.marks, next.marks)
            &&& registered_before(next.registry, uri, next.registry.len() as int)
        },
    decreases depth, 0nat, 0nat,
{
    lemma_last_document(documents, uri, documents.len() as int);
    match last_document(documents, uri, documents.len() as int) {
        None => {},
        Some(target) => {
            match state.marks[target] {
                Mark::Done => {},
                Mark::InProgress => {},
                Mark::Idle => {
                    if depth > 0 {
                        lemma_compile_document_consistent(
                            documents,
                            strict,
                            target,
                            (depth - 1) as nat,
                            state,
                        );
                    }
                },
            }
        },
    }
}

} // verus!
