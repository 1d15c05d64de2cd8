//! How deep references nest: never deeper than there are documents.

use crate::compiler::consistency::{keeps_progress, lemma_last_document};
use crate::compiler::{
    compile_cycle, compile_document, compile_members, last_document, resolve_reference,
    CompileState, DocumentView, Mark,
};
use crate::context::joined;
use crate::error::SchemaErrorView;
use crate::keywords::member_outcome;
use crate::validators::ValidatorView;
use vstd::prelude::*;

verus! {

/// The number of documents in progress.
pub open spec fn busy(marks: Seq<Mark>) -> nat
    decreases marks.len(),
{
    if marks.len() == 0 {
        0
    } else {
        busy(marks.drop_last()) + if marks.last() is InProgress {
            1nat
        } else {
            0nat
        }
    }
}

/// How a change of one mark changes the number in progress.
pub proof fn lemma_busy_update(marks: Seq<Mark>, i: int, mark: Mark)
    requires
        0 <= i < marks.len(),
    ensures
        busy(marks.update(i, mark)) + (if marks[i] is InProgress {
            1nat
        } else {
            0nat
        }) == busy(marks) + (if mark is InProgress {
            1nat
        } else {
            0nat
        }),
    decreases marks.len(),
{
    let changed = marks.update(i, mark);
    if i == marks.len() - 1 {
        assert(changed.drop_last() =~= marks.drop_last());
    } else {
        assert(changed.drop_last() =~= marks.drop_last().update(i, mark));
        lemma_busy_update(marks.drop_last(), i, mark);
    }
}

/// With one document not in progress, fewer are in progress than there are.
pub proof fn lemma_busy_bound(marks: Seq<Mark>, i: int)
    requires
        0 <= i < marks.len(),
        !(marks[i] is InProgress),
    ensures
        busy(marks) < marks.len(),
    decreases marks.len(),
{
    if i == marks.len() - 1 {
        lemma_busy_at_most(marks.drop_last());
    } else {
        lemma_busy_bound(marks.drop_last(), i);
    }
}

/// No more documents are in progress than there are.
proof fn lemma_busy_at_most(marks: Seq<Mark>)
    ensures
        busy(marks) <= marks.len(),
    decreases marks.len(),
{
    if marks.len() > 0 {
        lemma_busy_at_most(marks.drop_last());
    }
}

/// Where every document is idle, none is in progress.
pub proof fn lemma_busy_idle(marks: Seq<Mark>)
    requires
        forall|i: int| 0 <= i < marks.len() ==> marks[i] is Idle,
    ensures
        busy(marks) == 0,
    decreases marks.len(),
{
    if marks.len() > 0 {
        lemma_busy_idle(marks.drop_last());
    }
}

/// A reference to a document in progress is refused as a cycle, wherever it
/// is met and however deep.
pub proof fn lemma_reference_in_progress_is_refused(
    documents: Seq<DocumentView>,
    strict: bool,
    uri: Seq<char>,
    path: Seq<char>,
    depth: nat,
    state: CompileState,
    target: int,
)
    requires
        last_document(documents, uri, documents.len() as int) == Some(target),
        state.marks[target] is InProgress,
    ensures
        resolve_reference(documents, strict, uri, path, depth, state) == Err::<
            CompileState,
            SchemaErrorView,
        >(compile_cycle(uri, path)),
{
}

/// The bound on nesting is never what refuses a document: with room for
/// every document that is not in progress, one level more changes nothing.
/// Where compiling succeeds, as many documents are in progress after as before.
pub proof fn lemma_deeper_document(
    documents: Seq<DocumentView>,
    strict: bool,
    j: int,
    depth: nat,
    state: CompileState,
)
    requires
        0 <= j < documents.len(),
        state.marks.len() == documents.len(),
        state.marks[j] is Idle,
        documents.len() <= busy(state.marks) + depth + 1,
    ensures
        compile_document(documents, strict, j, depth, state) == compile_document(
            documents,
            strict,
            j,
            depth + 1,
            state,
        ),
        compile_document(documents, strict, j, depth, state) matches Ok(after) ==> busy(after.marks)
            == busy(state.marks) && keeps_progress(state.marks, after.marks),
    decreases depth, 2nat, 0nat,
{
    if documents[j].body is Object {
        let started = CompileState {
            marks: state.marks.update(j, Mark::InProgress),
            registry: state.registry,
        };
        lemma_busy_update(state.marks, j, Mark::InProgress);
        lemma_deeper_members(documents, strict, j, 0, depth, started, Seq::empty());
        match compile_members(documents, strict, j, 0, depth, started, Seq::empty()) {
            Ok((validators, collected)) => {
                lemma_busy_update(collected.marks, j, Mark::Done);
            },
            Err(_) => {},
        }
    }
}

/// The same of the members of a document in progress.
pub proof fn lemma_deeper_members(
    documents: Seq<DocumentView>,
    strict: bool,
    j: int,
    k: int,
    depth: nat,
    state: CompileState,
    validators: Seq<ValidatorView>,
)
    requires
        0 <= j < documents.len(),
        state.marks.len() == documents.len(),
        state.marks[j] is InProgress,
        documents.len() <= busy(state.marks) + depth,
    ensures
        compile_members(documents, strict, j, k, depth, state, validators) == compile_members(
            documents,
            strict,
            j,
            k,
            depth + 1,
            state,
            validators,
        ),
        compile_members(documents, strict, j, k, depth, state, validators) matches Ok(done)
            ==> busy(done.1.marks) == busy(state.marks) && keeps_progress(
            state.marks,
            done.1.marks,
        ),
    decreases depth, 1nat, documents[j].body.members().len() - k,
{
    let members = documents[j].body.members();
    if 0 <= k < members.len() {
        match member_outcome(strict, members[k], Seq::empty()) {
            Err(_) => {},
            Ok(None) => {
                lemma_deeper_members(documents, strict, j, k + 1, depth, state, validators);
            },
            Ok(Some(validator)) => {
                let longer = validators.push(validator);
                match validator {
                    ValidatorView::Reference { uri } => {
                        let path = joined(seq![members[k].key@]);
                        lemma_deeper_reference(documents, strict, uri, path, depth, state);
                        match resolve_reference(documents, strict, uri, path, depth, state) {
                            Err(_) => {},
                            Ok(next) => {
                                lemma_deeper_members(documents, strict, j, k + 1, depth, next, longer);
                            },
                        }
                    },
                    _ => {
                        lemma_deeper_members(documents, strict, j, k + 1, depth, state, longer);
                    },
                }
            },
        }
    }
}

/// The same of a reference met in a document in progress.
pub proof fn lemma_deeper_reference(
    documents: Seq<DocumentView>,
    strict: bool,
    uri: Seq<char>,
    path: Seq<char>,
    depth: nat,
    state: CompileState,
)
    requires
        state.marks.len() == documents.len(),
        documents.len() <= busy(state.marks) + depth,
    ensures
        resolve_reference(documents, strict, uri, path, depth, state) == resolve_reference(
            documents,
            strict,
            uri,
            path,
            depth + 1,
            state,
        ),
        resolve_reference(documents, strict, uri, path, depth, state) matches Ok(next) ==> busy(
            next.marks,
        ) == busy(state.marks) && keeps_progress(state.marks, next.marks),
    decreases depth, 0nat, 0nat,
{
    lemma_last_document(documents, uri, documents.len() as int);
    match last_document(documents, uri, documents.len() as int) {
        None => {},
        Some(target) => {
            match state.marks[target] {
                Mark::Done => {},
                Mark::InProgress => {},
                Mark::Idle => {
                    lemma_busy_bound(state.marks, target);
                    lemma_deeper_document(documents, strict, target, (depth - 1) as nat, state);
                },
            }
        },
    }
}

} // verus!
