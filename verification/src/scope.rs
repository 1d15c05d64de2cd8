//! The registry that compiles schema documents and resolves references.

use crate::compiler::consistency::{consistent, lemma_compile_document_consistent};
use crate::compiler::nesting::{lemma_busy_idle, lemma_deeper_document};
use crate::compiler::{
    compile, compile_cycle, compile_document, compile_members, declared_id, document_views,
    last_document, read_id, resolve_reference, CompileState, Document, DocumentView, Mark,
};
use crate::context::joined;
use crate::error::{ErrorKind, SchemaError, SchemaErrorView};
use crate::keywords::member_outcome;
use crate::registry::{
    distinct, find_registered, first_registered, ranked, registration_views, Registration,
    RegistrationView,
};
use crate::schema::Schema;
use crate::validators::{validator_views, Validator, ValidatorView};
use crate::value::Value;
use vstd::prelude::*;

verus! {

/// Owns the compiled schemas of a set of documents.
pub struct Scope {
    strict: bool,
    sealed: bool,
    documents: Vec<Document>,
    registry: Vec<Registration>,
}

/// What a [`Scope`] holds.
pub struct ScopeView {
    /// Whether a key that no keyword claims is refused.
    pub strict: bool,
    /// Whether compilation is over.
    pub sealed: bool,
    /// The documents that references can reach, in the order in which they came.
    pub documents: Seq<DocumentView>,
    /// The compiled schemas, in the order in which they were completed.
    pub registry: Seq<RegistrationView>,
}

impl View for Scope {
    type V = ScopeView;

    closed spec fn view(&self) -> ScopeView {
        ScopeView {
            strict: self.strict,
            sealed: self.sealed,
            documents: document_views(self.documents@),
            registry: registration_views(self.registry@),
        }
    }
}

/// What holds of every scope that started out empty: following the
/// references of its registry comes to an end, no URI is registered twice,
/// and nothing is registered before the scope is sealed.
pub open spec fn well_formed(scope: ScopeView) -> bool {
    &&& ranked(scope.registry)
    &&& distinct(scope.registry)
    &&& !scope.sealed ==> scope.registry.len() == 0
}

/// The refusal of a scope whose compilation is over.
pub open spec fn sealed_error() -> SchemaErrorView {
    SchemaErrorView {
        kind: ErrorKind::Malformed,
        path: Seq::empty(),
        detail: "The scope is sealed"@,
    }
}

/// The URI under which a document is registered that is compiled at the top:
/// the one that it declares, or the one that the scope makes up for it.
pub open spec fn canonical_uri(document: Value) -> Seq<char> {
    match declared_id(document) {
        Some(id) => id,
        None => "anonymous:root"@,
    }
}

/// The documents of a compilation of `document` at the top: those that the
/// scope was handed, and behind them the document itself.
pub open spec fn compiled_documents(scope: ScopeView, document: Value) -> Seq<DocumentView> {
    scope.documents.push(DocumentView { uri: canonical_uri(document), body: document })
}

/// What compiling `document` at the top gives: the compilation of the last
/// of the compiled documents, begun with every document idle and nothing
/// registered.
pub open spec fn compile_outcome(scope: ScopeView, document: Value) -> Result<
    CompileState,
    SchemaErrorView,
> {
    let documents = compiled_documents(scope, document);
    compile_document(
        documents,
        scope.strict,
        documents.len() - 1,
        (documents.len() - 1) as nat,
        CompileState {
            marks: Seq::new(documents.len(), |i: int| Mark::Idle),
            registry: Seq::empty(),
        },
    )
}

/// A document that holds the key `multipleOf` and no other compiles exactly
/// when the value under the key is a number above zero, and then to the
/// divisor check alone; every other value under the key is refused as
/// malformed.
pub proof fn lemma_divisor_document(scope: ScopeView, document: Value)
    requires
        document is Object,
        document.members().len() == 1,
        document.members()[0].key@ == "multipleOf"@,
    ensures
        compile_outcome(scope, document) is Ok <==> document.members()[0].value is Number
            && document.members()[0].value->Number_0.positive(),
        compile_outcome(scope, document) matches Err(refusal) ==> refusal.kind
            == ErrorKind::Malformed,
        compile_outcome(scope, document) matches Ok(state) ==> state.registry.len() == 1
            && state.registry[0].schema.validators == seq![
            ValidatorView::MultipleOf { number: document.members()[0].value->Number_0 },
        ],
{
    reveal_strlit("id");
    reveal_strlit("multipleOf");
    reveal_with_fuel(compile_members, 3);
    let documents = compiled_documents(scope, document);
    let root = documents.len() - 1;
    assert(documents[root].body == document);
    assert("multipleOf"@ != "id"@);
    let idle = CompileState {
        marks: Seq::new(documents.len(), |i: int| Mark::Idle),
        registry: Seq::empty(),
    };
    let started = CompileState {
        marks: idle.marks.update(root, Mark::InProgress),
        registry: idle.registry,
    };
    let outcome = member_outcome(scope.strict, document.members()[0], Seq::empty());
    let compiled = compile_members(
        documents,
        scope.strict,
        root,
        0,
        root as nat,
        started,
        Seq::empty(),
    );
    match outcome {
        Ok(Some(validator)) => {
            assert(compiled == Ok::<(Seq<ValidatorView>, CompileState), SchemaErrorView>(
                (Seq::<ValidatorView>::empty().push(validator), started),
            ));
            assert(Seq::<ValidatorView>::empty().push(validator) =~= seq![validator]);
        },
        Ok(None) => {},
        Err(refusal) => {
            assert(compiled == Err::<(Seq<ValidatorView>, CompileState), SchemaErrorView>(refusal));
        },
    }
}

/// A document that refers to itself is refused as a cycle: where a member
/// `$ref` holds the URI under which the document itself is compiled, and the
/// members before it compile without a refusal and without a reference, the
/// compilation ends at that member with `CompileCycle`.
pub proof fn lemma_self_reference_is_refused(scope: ScopeView, document: Value, k: int)
    requires
        document is Object,
        0 <= k < document.members().len(),
        document.members()[k].key@ == "$ref"@,
        document.members()[k].value matches Value::String(uri) && uri@ == canonical_uri(document),
        forall|i: int|
            0 <= i < k ==> (#[trigger] member_outcome(
                scope.strict,
                document.members()[i],
                Seq::empty(),
            ) matches Ok(compiled) && !(compiled matches Some(ValidatorView::Reference { .. }))),
    ensures
        compile_outcome(scope, document) == Err::<CompileState, SchemaErrorView>(
            compile_cycle(canonical_uri(document), "$ref"@),
        ),
{
    let documents = compiled_documents(scope, document);
    let root = documents.len() - 1;
    assert(documents[root].body == document);
    let idle = CompileState {
        marks: Seq::new(documents.len(), |i: int| Mark::Idle),
        registry: Seq::empty(),
    };
    let started = CompileState {
        marks: idle.marks.update(root, Mark::InProgress),
        registry: idle.registry,
    };
    lemma_cycle_from(documents, scope.strict, root, 0, root as nat, started, Seq::empty(), k);
}

/// From any member up to a self-reference on, compiling ends in the cycle.
proof fn lemma_cycle_from(
    documents: Seq<DocumentView>,
    strict: bool,
    j: int,
    i: int,
    depth: nat,
    state: CompileState,
    validators: Seq<ValidatorView>,
    k: int,
)
    requires
        0 <= j < documents.len(),
        j == documents.len() - 1,
        0 <= i <= k < documents[j].body.members().len(),
        state.marks.len() == documents.len(),
        state.marks[j] is InProgress,
        documents[j].body.members()[k].key@ == "$ref"@,
        documents[j].body.members()[k].value matches Value::String(uri) && uri@
            == documents[j].uri,
        forall|x: int|
            0 <= x < k ==> (#[trigger] member_outcome(
                strict,
                documents[j].body.members()[x],
                Seq::empty(),
            ) matches Ok(compiled) && !(compiled matches Some(ValidatorView::Reference { .. }))),
    ensures
        compile_members(documents, strict, j, i, depth, state, validators) == Err::<
            (Seq<ValidatorView>, CompileState),
            SchemaErrorView,
        >(compile_cycle(documents[j].uri, "$ref"@)),
    decreases k - i,
{
    let members = documents[j].body.members();
    let outcome = member_outcome(strict, members[i], Seq::empty());
    let here = compile_members(documents, strict, j, i, depth, state, validators);
    if i < k {
        match outcome {
            Ok(None) => {
                assert(here == compile_members(
                    documents,
                    strict,
                    j,
                    i + 1,
                    depth,
                    state,
                    validators,
                ));
                lemma_cycle_from(documents, strict, j, i + 1, depth, state, validators, k);
            },
            Ok(Some(validator)) => {
                assert(!(validator is Reference));
                assert(here == compile_members(
                    documents,
                    strict,
                    j,
                    i + 1,
                    depth,
                    state,
                    validators.push(validator),
                ));
                lemma_cycle_from(
                    documents,
                    strict,
                    j,
                    i + 1,
                    depth,
                    state,
                    validators.push(validator),
                    k,
                );
            },
            Err(_) => {},
        }
    } else {
        reveal_strlit("id");
        reveal_strlit("multipleOf");
        reveal_strlit("$ref");
        assert("$ref"@ != "id"@);
        assert("$ref"@ != "multipleOf"@);
        let uri = documents[j].uri;
        assert(outcome == Ok::<Option<ValidatorView>, SchemaErrorView>(
            Some(ValidatorView::Reference { uri }),
        ));
        assert(seq![members[k].key@].len() == 1);
        assert(joined(seq![members[k].key@]) == "$ref"@);
        assert(last_document(documents, uri, documents.len() as int) == Some(j));
        let resolved = resolve_reference(documents, strict, uri, "$ref"@, depth, state);
        assert(resolved == Err::<CompileState, SchemaErrorView>(compile_cycle(uri, "$ref"@)));
        assert(here == Err::<(Seq<ValidatorView>, CompileState), SchemaErrorView>(
            compile_cycle(uri, "$ref"@),
        ));
    }
}

/// Whatever compiles leaves a registry in which following the references
/// comes to an end and no URI is registered twice: a set of documents whose
/// references run in a circle does not compile.
pub proof fn lemma_compiled_registry_is_well_formed(scope: ScopeView, document: Value)
    ensures
        compile_outcome(scope, document) matches Ok(state) ==> ranked(state.registry) && distinct(
            state.registry,
        ),
{
    let documents = compiled_documents(scope, document);
    let root = documents.len() - 1;
    let idle = CompileState {
        marks: Seq::new(documents.len(), |i: int| Mark::Idle),
        registry: Seq::empty(),
    };
    assert(consistent(documents, idle.marks, idle.registry));
    assert(last_document(documents, documents[root].uri, documents.len() as int) == Some(root));
    lemma_compile_document_consistent(documents, scope.strict, root, root as nat, idle);
}

/// The bound on nesting is never what refuses a document: compiling with
/// room for `extra` levels more gives what [`compile_outcome`] gives.
pub proof fn lemma_nesting_bound_is_enough(scope: ScopeView, document: Value, extra: nat)
    ensures
        ({
            let documents = compiled_documents(scope, document);
            compile_document(
                documents,
                scope.strict,
                documents.len() - 1,
                (documents.len() - 1 + extra) as nat,
                CompileState {
                    marks: Seq::new(documents.len(), |i: int| Mark::Idle),
                    registry: Seq::empty(),
                },
            ) == compile_outcome(scope, document)
        }),
    decreases extra,
{
    if extra > 0 {
        let documents = compiled_documents(scope, document);
        let root = documents.len() - 1;
        let idle = CompileState {
            marks: Seq::new(documents.len(), |i: int| Mark::Idle),
            registry: Seq::empty(),
        };
        lemma_nesting_bound_is_enough(scope, document, (extra - 1) as nat);
        lemma_busy_idle(idle.marks);
        lemma_deeper_document(documents, scope.strict, root, (root + extra - 1) as nat, idle);
    }
}

impl Scope {
    /// A scope that holds nothing and ignores keys that no keyword claims.
    pub fn new() -> (scope: Scope)
        ensures
            scope@ == (ScopeView {
                strict: false,
                sealed: false,
                documents: Seq::empty(),
                registry: Seq::empty(),
            }),
            well_formed(scope@),
    {
        let scope = Scope {
            strict: false,
            sealed: false,
            documents: Vec::new(),
            registry: Vec::new(),
        };
        assert(scope@.documents =~= Seq::<DocumentView>::empty());
        assert(scope@.registry =~= Seq::<RegistrationView>::empty());
        scope
    }

    /// A scope that holds nothing and refuses keys that no keyword claims.
    pub fn strict() -> (scope: Scope)
        ensures
            scope@ == (ScopeView {
                strict: true,
                sealed: false,
                documents: Seq::empty(),
                registry: Seq::empty(),
            }),
            well_formed(scope@),
    {
        let scope = Scope {
            strict: true,
            sealed: false,
            documents: Vec::new(),
            registry: Vec::new(),
        };
        assert(scope@.documents =~= Seq::<DocumentView>::empty());
        assert(scope@.registry =~= Seq::<RegistrationView>::empty());
        scope
    }

    /// Whether compilation is over.
    pub fn is_sealed(&self) -> (sealed: bool)
        ensures
            sealed == self@.sealed,
    {
        self.sealed
    }

    /// Hands the scope a document that references to `uri` are to find. A
    /// sealed scope refuses it and stays as it is.
    pub fn supply(&mut self, uri: String, document: Value) -> (result: Result<(), SchemaError>)
        ensures
            old(self)@.sealed ==> final(self)@ == old(self)@ && (result matches Err(error)
                && error@ == sealed_error()),
            !old(self)@.sealed ==> result is Ok && final(self)@ == (ScopeView {
                documents: old(self)@.documents.push(DocumentView { uri: uri@, body: document }),
                ..old(self)@
            }),
            well_formed(old(self)@) ==> well_formed(final(self)@),
    {
        if self.sealed {
            return Err(
                SchemaError::new(
                    ErrorKind::Malformed,
                    String::new(),
                    "The scope is sealed".to_owned(),
                ),
            );
        }
        let added = Document { uri, body: document };
        self.documents.push(added);
        assert(self@.documents =~= old(self)@.documents.push(added@));
        Ok(())
    }

    /// Compiles `document` and every document that it refers to, registers
    /// their schemas, seals the scope and returns the schema of `document`.
    /// A refusal leaves the scope as it was; a sealed scope refuses every
    /// document.
    pub fn compile_and_return(&mut self, document: Value) -> (result: Result<Schema, SchemaError>)
        ensures
            old(self)@.sealed ==> final(self)@ == old(self)@ && (result matches Err(error)
                && error@ == sealed_error()),
            !old(self)@.sealed ==> match compile_outcome(old(self)@, document) {
                Ok(state) => {
                    &&& result matches Ok(schema)
                    &&& state.registry.len() > 0
                    &&& schema@ == state.registry.last().schema
                    &&& final(self)@ == (ScopeView {
                        strict: old(self)@.strict,
                        sealed: true,
                        documents: compiled_documents(old(self)@, document),
                        registry: state.registry,
                    })
                },
                Err(refusal) => {
                    &&& result matches Err(error)
                    &&& error@ == refusal
                    &&& final(self)@ == old(self)@
                },
            },
            well_formed(old(self)@) ==> well_formed(final(self)@),
            result is Ok ==> well_formed(final(self)@),
    {
        if self.sealed {
            return Err(
                SchemaError::new(
                    ErrorKind::Malformed,
                    String::new(),
                    "The scope is sealed".to_owned(),
                ),
            );
        }
        let uri = match read_id(&document) {
            Some(id) => id,
            None => "anonymous:root".to_owned(),
        };
        let added = Document { uri, body: document };
        self.documents.push(added);
        let ghost documents = compiled_documents(old(self)@, document);
        assert(document_views(self.documents@) =~= documents);
        let root: usize = self.documents.len() - 1;
        let mut marks: Vec<Mark> = Vec::new();
        let mut i: usize = 0;
        while i < self.documents.len()
            invariant
                i <= self.documents.len(),
                marks@.len() == i,
                forall|k: int| 0 <= k < i ==> marks@[k] is Idle,
            decreases self.documents.len() - i,
        {
            marks.push(Mark::Idle);
            i = i + 1;
        }
        let mut registry: Vec<Registration> = Vec::new();
        proof {
            lemma_busy_idle(marks@);
            assert(marks@ =~= Seq::new(documents.len(), |i: int| Mark::Idle));
            assert(registration_views(registry@) =~= Seq::<RegistrationView>::empty());
            lemma_compiled_registry_is_well_formed(old(self)@, document);
        }
        match compile(&self.documents, self.strict, root, Ghost(root as nat), &mut marks, &mut registry) {
            Ok(()) => {
                let schema = registry[registry.len() - 1].schema.duplicate();
                self.sealed = true;
                self.registry = registry;
                Ok(schema)
            },
            Err(error) => {
                self.documents.pop();
                assert(self@.documents =~= old(self)@.documents);
                Err(error)
            },
        }
    }

    /// The compiled schema under `uri`. Looking it up compiles nothing.
    pub fn resolve(&self, uri: &str) -> (found: Option<&Schema>)
        ensures
            match first_registered(self@.registry, uri@, 0) {
                Some(i) => found matches Some(schema) && schema@ == self@.registry[i].schema,
                None => found is None,
            },
    {
        let wanted = uri.to_owned();
        match find_registered(&self.registry, &wanted) {
            Some(i) => Some(&self.registry[i].schema),
            None => None,
        }
    }

    /// The number of compiled schemas.
    pub fn registered_count(&self) -> (count: usize)
        ensures
            count == self@.registry.len(),
    {
        self.registry.len()
    }

    /// The position of the first registration under `uri`.
    pub(crate) fn position(&self, uri: &String) -> (found: Option<usize>)
        ensures
            first_registered(self@.registry, uri@, 0) == (match found {
                Some(i) => Some(i as int),
                None => None,
            }),
            found matches Some(i) ==> i < self@.registry.len(),
    {
        find_registered(&self.registry, uri)
    }

    /// The validators of the registration at `position`.
    pub(crate) fn validators_at(&self, position: usize) -> (validators: &Vec<Validator>)
        requires
            position < self@.registry.len(),
        ensures
            validator_views(validators@) == self@.registry[position as int].schema.validators,
    {
        &self.registry[position].schema.validators
    }
}

} // verus!
