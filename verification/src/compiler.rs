//! Compilation of a set of documents: depth first along the references, each
//! document once.

pub mod consistency;
pub mod nesting;

use crate::compiler::nesting::{busy, lemma_busy_bound, lemma_busy_update};
use crate::context::{joined, WalkContext};
use crate::error::{ErrorKind, SchemaError, SchemaErrorView};
use crate::keywords::{compile_member, member_outcome, outcome_of};
use crate::registry::{registration_views, Registration, RegistrationView};
use crate::schema::{Schema, SchemaView};
use crate::validators::{validator_views, Validator, ValidatorView};
use crate::value::Value;
use vstd::pervasive::VecAdditionalExecFns;
use vstd::prelude::*;
use vstd::string::StringExecFns;

verus! {

/// A document handed to a scope, and the URI under which references find it.
pub struct Document {
    pub uri: String,
    pub body: Value,
}

/// What a [`Document`] holds.
pub struct DocumentView {
    pub uri: Seq<char>,
    pub body: Value,
}

impl View for Document {
    type V = DocumentView;

    open spec fn view(&self) -> DocumentView {
        DocumentView { uri: self.uri@, body: self.body }
    }
}

/// What each of the documents holds.
pub open spec fn document_views(documents: Seq<Document>) -> Seq<DocumentView> {
    Seq::new(documents.len(), |i: int| documents[i]@)
}

/// How far the compiler has come with a document.
#[derive(Clone, Copy, Debug, PartialEq, Eq, Structural)]
pub enum Mark {
    /// Not met yet.
    Idle,
    /// Being compiled: a reference to it closes a cycle.
    InProgress,
    /// Compiled and registered.
    Done,
}

/// The state of a compilation: a mark for each document, and the schemas
/// completed so far in the order of their completion.
pub struct CompileState {
    pub marks: Seq<Mark>,
    pub registry: Seq<RegistrationView>,
}

/// The position of the last document under `uri` among the first `upto`:
/// a document hides those that came before it under the same URI.
pub open spec fn last_document(documents: Seq<DocumentView>, uri: Seq<char>, upto: int) -> Option<
    int,
>
    decreases upto,
{
    if upto <= 0 || upto > documents.len() {
        None
    } else if documents[upto - 1].uri == uri {
        Some(upto - 1)
    } else {
        last_document(documents, uri, upto - 1)
    }
}

/// The URI that a document declares for itself: the string under its key `id`.
pub open spec fn declared_id(body: Value) -> Option<Seq<char>> {
    match body.member("id"@) {
        Some(Value::String(id)) => Some(id@),
        _ => None,
    }
}

/// The refusal of a reference to a URI under which no document is known.
pub open spec fn invalid_reference(uri: Seq<char>, path: Seq<char>) -> SchemaErrorView {
    SchemaErrorView {
        kind: ErrorKind::InvalidReference,
        path,
        detail: "No schema is known under "@ + uri,
    }
}

/// The refusal of a reference that leads back to a document being compiled.
pub open spec fn compile_cycle(uri: Seq<char>, path: Seq<char>) -> SchemaErrorView {
    SchemaErrorView {
        kind: ErrorKind::CompileCycle,
        path,
        detail: "Reference to a schema that is still being compiled: "@ + uri,
    }
}

/// The refusal of a document that is no object.
pub open spec fn not_an_object() -> SchemaErrorView {
    SchemaErrorView {
        kind: ErrorKind::Malformed,
        path: Seq::empty(),
        detail: "A schema MUST be an object"@,
    }
}

/// What resolving a reference to `uri`, met at `path`, gives. The last
/// document under the URI is the target. One that is done is not compiled
/// again; one in progress closes a cycle, which is refused; an idle one is
/// compiled now. `depth` bounds how deep references may nest from here on: a
/// chain longer than the documents are many would have to repeat one.
pub open spec fn resolve_reference(
    documents: Seq<DocumentView>,
    strict: bool,
    uri: Seq<char>,
    path: Seq<char>,
    depth: nat,
    state: CompileState,
) -> Result<CompileState, SchemaErrorView>
    decreases depth, 0nat, 0nat,
{
    match last_document(documents, uri, documents.len() as int) {
        None => Err(invalid_reference(uri, path)),
        Some(target) => match state.marks[target] {
            Mark::Done => Ok(state),
            Mark::InProgress => Err(compile_cycle(uri, path)),
            Mark::Idle => if depth == 0 {
                Err(compile_cycle(uri, path))
            } else {
                compile_document(documents, strict, target, (depth - 1) as nat, state)
            },
        },
    }
}

/// What compiling the members of document `j` from the `k`-th on gives, with
/// `validators` collected from those before: the validators of all members
/// in the order of their keys, or the first refusal. A reference is resolved
/// before the next member is looked at.
pub open spec fn compile_members(
    documents: Seq<DocumentView>,
    strict: bool,
    j: int,
    k: int,
    depth: nat,
    state: CompileState,
    validators: Seq<ValidatorView>,
) -> Result<(Seq<ValidatorView>, CompileState), SchemaErrorView>
    decreases depth, 1nat, documents[j].body.members().len() - k,
{
    let members = documents[j].body.members();
    if k < 0 || k >= members.len() {
        Ok((validators, state))
    } else {
        match member_outcome(strict, members[k], Seq::empty()) {
            Err(error) => Err(error),
            Ok(None) => compile_members(documents, strict, j, k + 1, depth, state, validators),
            Ok(Some(validator)) => match validator {
                ValidatorView::Reference { uri } => match resolve_reference(
                    documents,
                    strict,
                    uri,
                    joined(seq![members[k].key@]),
                    depth,
                    state,
                ) {
                    Err(error) => Err(error),
                    Ok(next) => compile_members(
                        documents,
                        strict,
                        j,
                        k + 1,
                        depth,
                        next,
                        validators.push(validator),
                    ),
                },
                _ => compile_members(
                    documents,
                    strict,
                    j,
                    k + 1,
                    depth,
                    state,
                    validators.push(validator),
                ),
            },
        }
    }
}

/// What compiling document `j` gives: the state in which the document is done
/// and its schema registered behind those that it refers to, or the first
/// refusal met on the way.
pub open spec fn compile_document(
    documents: Seq<DocumentView>,
    strict: bool,
    j: int,
    depth: nat,
    state: CompileState,
) -> Result<CompileState, SchemaErrorView>
    decreases depth, 2nat, 0nat,
{
    if !(documents[j].body is Object) {
        Err(not_an_object())
    } else {
        let started = CompileState {
            marks: state.marks.update(j, Mark::InProgress),
            registry: state.registry,
        };
        match compile_members(documents, strict, j, 0, depth, started, Seq::empty()) {
            Err(error) => Err(error),
            Ok((validators, state)) => Ok(
                CompileState {
                    marks: state.marks.update(j, Mark::Done),
                    registry: state.registry.push(
                        RegistrationView {
                            uri: documents[j].uri,
                            schema: SchemaView { id: declared_id(documents[j].body), validators },
                        },
                    ),
                },
            ),
        }
    }
}

/// Looks for the last document under `uri`.
fn find_document(documents: &Vec<Document>, uri: &String) -> (found: Option<usize>)
    ensures
        last_document(document_views(documents@), uri@, documents@.len() as int) == (match found {
            Some(i) => Some(i as int),
            None => None,
        }),
        found matches Some(i) ==> i < documents@.len(),
{
    let ghost views = document_views(documents@);
    let mut i: usize = documents.len();
    while i > 0
        invariant
            i <= documents.len(),
            views == document_views(documents@),
            last_document(views, uri@, documents@.len() as int) == last_document(
                views,
                uri@,
                i as int,
            ),
        decreases i,
    {
        if documents[i - 1].uri == *uri {
            return Some(i - 1);
        }
        i = i - 1;
    }
    None
}

/// The URI that the document declares for itself.
pub(crate) fn read_id(body: &Value) -> (id: Option<String>)
    ensures
        declared_id(*body) == (match id {
            Some(id) => Some(id@),
            None => None,
        }),
{
    match body.find("id") {
        Some(value) => match value.as_string() {
            Some(id) => Some(id.clone()),
            None => None,
        },
        None => None,
    }
}

/// Compiles document `j` and, before it, every idle document that it refers to.
pub(crate) fn compile(
    documents: &Vec<Document>,
    strict: bool,
    j: usize,
    Ghost(depth): Ghost<nat>,
    marks: &mut Vec<Mark>,
    registry: &mut Vec<Registration>,
) -> (result: Result<(), SchemaError>)
    requires
        j < documents@.len(),
        old(marks)@.len() == documents@.len(),
        old(marks)@[j as int] is Idle,
        busy(old(marks)@) + depth + 1 == documents@.len(),
    ensures
        match compile_document(
            document_views(documents@),
            strict,
            j as int,
            depth,
            CompileState { marks: old(marks)@, registry: registration_views(old(registry)@) },
        ) {
            Ok(state) => {
                &&& result is Ok
                &&& final(marks)@ == state.marks
                &&& registration_views(final(registry)@) == state.registry
                &&& final(marks)@.len() == documents@.len()
                &&& busy(final(marks)@) == busy(old(marks)@)
                &&& forall|i: int|
                    0 <= i < documents@.len() && old(marks)@[i] is InProgress
                        ==> final(marks)@[i] is InProgress
            },
            Err(error) => result matches Err(e) && e@ == error,
        },
    decreases depth,
{
    let ghost views = document_views(documents@);
    let ghost entry = CompileState {
        marks: old(marks)@,
        registry: registration_views(old(registry)@),
    };
    let ghost whole = compile_document(views, strict, j as int, depth, entry);
    let members = match &documents[j].body {
        Value::Object(members) => members,
        _ => {
            return Err(
                SchemaError::new(
                    ErrorKind::Malformed,
                    String::new(),
                    "A schema MUST be an object".to_owned(),
                ),
            );
        },
    };
    proof {
        lemma_busy_update(marks@, j as int, Mark::InProgress);
    }
    marks.set(j, Mark::InProgress);
    let ctx = WalkContext::root(j);
    let mut validators: Vec<Validator> = Vec::new();
    let mut k: usize = 0;
    let ghost goal = compile_members(
        views,
        strict,
        j as int,
        0,
        depth,
        CompileState { marks: marks@, registry: registration_views(registry@) },
        Seq::empty(),
    );
    assert(validator_views(validators@) =~= Seq::<ValidatorView>::empty());
    while k < members.len()
        invariant
            k <= members.len(),
            j < documents@.len(),
            views == document_views(documents@),
            views[j as int].body is Object,
            members@ == views[j as int].body.members(),
            marks@.len() == documents@.len(),
            old(marks)@.len() == documents@.len(),
            marks@[j as int] is InProgress,
            busy(marks@) + depth == documents@.len(),
            busy(marks@) == busy(old(marks)@) + 1,
            ctx.segments() == Seq::<Seq<char>>::empty(),
            entry == (CompileState {
                marks: old(marks)@,
                registry: registration_views(old(registry)@),
            }),
            whole == compile_document(views, strict, j as int, depth, entry),
            goal is Err ==> whole == Err::<CompileState, SchemaErrorView>(goal->Err_0),
            goal matches Ok(done) ==> whole == Ok::<CompileState, SchemaErrorView>(
                CompileState {
                    marks: done.1.marks.update(j as int, Mark::Done),
                    registry: done.1.registry.push(
                        RegistrationView {
                            uri: views[j as int].uri,
                            schema: SchemaView {
                                id: declared_id(views[j as int].body),
                                validators: done.0,
                            },
                        },
                    ),
                },
            ),
            goal == compile_members(
                views,
                strict,
                j as int,
                k as int,
                depth,
                CompileState { marks: marks@, registry: registration_views(registry@) },
                validator_views(validators@),
            ),
            forall|i: int|
                0 <= i < documents@.len() && old(marks)@[i] is InProgress ==> marks@[i] is InProgress,
        decreases members.len() - k,
    {
        let member = &members[k];
        let ghost now = CompileState { marks: marks@, registry: registration_views(registry@) };
        let ghost collected = validator_views(validators@);
        let compiled = compile_member(strict, member, &ctx);
        let ghost outcome = member_outcome(strict, views[j as int].body.members()[k as int], Seq::empty());
        assert(views[j as int].body.members()[k as int] == *member);
        assert(outcome == outcome_of(compiled));
        assert(goal == compile_members(views, strict, j as int, k as int, depth, now, collected));
        match compiled {
            Err(error) => {
                assert(outcome == Err::<Option<ValidatorView>, SchemaErrorView>(error@));
                assert(goal == Err::<(Seq<ValidatorView>, CompileState), SchemaErrorView>(error@));
                return Err(error);
            },
            Ok(None) => {
                assert(outcome == Ok::<Option<ValidatorView>, SchemaErrorView>(None));
                assert(goal == compile_members(
                    views,
                    strict,
                    j as int,
                    k + 1,
                    depth,
                    now,
                    collected,
                ));
            },
            Ok(Some(validator)) => {
                assert(outcome == Ok::<Option<ValidatorView>, SchemaErrorView>(Some(validator@)));
                if let Validator::Reference { uri } = &validator {
                    let ghost path = joined(seq![member.key@]);
                    let place = ctx.descend(member.key.as_str());
                    assert(place.segments() =~= seq![member.key@]);
                    assert(validator@ == ValidatorView::Reference { uri: uri@ });
                    let ghost resolved = resolve_reference(views, strict, uri@, path, depth, now);
                    assert(goal == match resolved {
                        Err(error) => Err::<(Seq<ValidatorView>, CompileState), SchemaErrorView>(
                            error,
                        ),
                        Ok(next) => compile_members(
                            views,
                            strict,
                            j as int,
                            k + 1,
                            depth,
                            next,
                            collected.push(validator@),
                        ),
                    });
                    match find_document(documents, uri) {
                        None => {
                            let mut detail = "No schema is known under ".to_owned();
                            detail.append(uri.as_str());
                            return Err(
                                SchemaError::new(
                                    ErrorKind::InvalidReference,
                                    place.path_string(),
                                    detail,
                                ),
                            );
                        },
                        Some(target) => {
                            match marks[target] {
                                Mark::Done => {},
                                Mark::InProgress => {
                                    let mut detail =
                                        "Reference to a schema that is still being compiled: ".to_owned();
                                    detail.append(uri.as_str());
                                    return Err(
                                        SchemaError::new(
                                            ErrorKind::CompileCycle,
                                            place.path_string(),
                                            detail,
                                        ),
                                    );
                                },
                                Mark::Idle => {
                                    proof {
                                        lemma_busy_bound(marks@, target as int);
                                    }
                                    match compile(
                                        documents,
                                        strict,
                                        target,
                                        Ghost((depth - 1) as nat),
                                        marks,
                                        registry,
                                    ) {
                                        Err(error) => {
                                            return Err(error);
                                        },
                                        Ok(()) => {},
                                    }
                                },
                            }
                        },
                    }
                } else {
                    assert(goal == compile_members(
                        views,
                        strict,
                        j as int,
                        k + 1,
                        depth,
                        now,
                        collected.push(validator@),
                    ));
                }
                validators.push(validator);
                assert(validator_views(validators@) =~= collected.push(validator@));
            },
        }
        k = k + 1;
    }
    let ghost before = registration_views(registry@);
    let id = read_id(&documents[j].body);
    let registration = Registration { uri: documents[j].uri.clone(), schema: Schema { id, validators } };
    proof {
        lemma_busy_update(marks@, j as int, Mark::Done);
    }
    marks.set(j, Mark::Done);
    registry.push(registration);
    assert(registration_views(registry@) =~= before.push(registration@));
    Ok(())
}

} // verus!
