//! The table of shared documents: for each name the current content.
//!
//! A write reaches the table only after its durable copy was written. The
//! table therefore plans a write, the caller makes it durable, and the table
//! commits it with the outcome.
use vstd::prelude::*;
use vstd::string::*;
use crate::protocol::DOCUMENTS_DIR;
use crate::text::{
    ends_with, first_index_of, has_suffix, lemma_first_index_of, lemma_first_index_of_unique,
    str_eq,
};

verus! {

/// What a document's name ends in.
pub const DOCUMENT_SUFFIX: &'static str = ".txt";

/// What a `Document` holds.
pub struct DocumentView {
    pub name: Seq<char>,
    pub content: Seq<char>,
}

/// One shared document.
#[derive(Debug, Clone, PartialEq, Eq)]
pub struct Document {
    pub name: String,
    pub content: String,
}

impl View for Document {
    type V = DocumentView;

    open spec fn view(&self) -> DocumentView {
        DocumentView { name: self.name@, content: self.content@ }
    }
}

impl DeepView for Document {
    type V = DocumentView;

    open spec fn deep_view(&self) -> DocumentView {
        self@
    }
}

/// The names of `docs`, in their order.
pub open spec fn names_of(docs: Seq<DocumentView>) -> Seq<Seq<char>> {
    docs.map_values(|d: DocumentView| d.name)
}

/// Position of the document called `name`, or the length of `docs` where
/// there is none.
pub open spec fn position_of(docs: Seq<DocumentView>, name: Seq<char>) -> int {
    first_index_of(names_of(docs), name)
}

/// Whether a document called `name` is in `docs`.
pub open spec fn has_document(docs: Seq<DocumentView>, name: Seq<char>) -> bool {
    position_of(docs, name) < docs.len()
}

/// The content of the document called `name`.
pub open spec fn content_of(docs: Seq<DocumentView>, name: Seq<char>) -> Option<Seq<char>> {
    if has_document(docs, name) {
        Some(docs[position_of(docs, name)].content)
    } else {
        None
    }
}

/// No two documents of `docs` share a name.
pub open spec fn distinct_names(docs: Seq<DocumentView>) -> bool {
    forall|i: int, j: int| 0 <= i < j < docs.len() ==> docs[i].name != docs[j].name
}

/// The name under which a document asked for as `name` is created: `name`
/// itself where it ends in the suffix, else `name` with the suffix added.
pub open spec fn normalized_name(name: Seq<char>) -> Seq<char> {
    if has_suffix(name, DOCUMENT_SUFFIX@) {
        name
    } else {
        name + DOCUMENT_SUFFIX@
    }
}

/// The name under which a document asked for as `name` is created.
pub fn normalize_name(name: &str) -> (r: String)
    ensures
        r@ == normalized_name(name@),
{
    let mut r = String::from_str(name);
    if !ends_with(name, DOCUMENT_SUFFIX) {
        r.append(DOCUMENT_SUFFIX);
    }
    r
}

/// Whether a file called `file_name` holds a document: the name ends in the
/// suffix and has something before it.
pub open spec fn names_document(file_name: Seq<char>) -> bool {
    has_suffix(file_name, DOCUMENT_SUFFIX@) && file_name.len() > DOCUMENT_SUFFIX@.len()
}

/// Whether a file of the documents directory holds a document.
pub fn is_document_file(file_name: &str) -> (r: bool)
    ensures
        r == names_document(file_name@),
{
    ends_with(file_name, DOCUMENT_SUFFIX) && file_name.unicode_len()
        > DOCUMENT_SUFFIX.unicode_len()
}

/// Where the durable copy of the document `name` lies.
pub fn document_path(name: &str) -> (path: String)
    ensures
        path@ == DOCUMENTS_DIR@ + name@,
{
    let mut path = String::from_str(DOCUMENTS_DIR);
    path.append(name);
    path
}

/// Why the table refused an operation.
#[derive(Debug, Clone, Copy, PartialEq, Eq, Structural)]
pub enum StoreError {
    AlreadyExists,
    NotFound,
    PersistFailed,
}

/// Whether a write adds a document or replaces the content of one.
#[derive(Debug, Clone, Copy, PartialEq, Eq, Structural)]
pub enum WriteKind {
    Create,
    Update,
}

/// What a `PendingWrite` holds.
pub struct WriteView {
    pub kind: WriteKind,
    pub name: Seq<char>,
    pub content: Seq<char>,
}

/// A write that the table has accepted and that is not durable yet.
#[derive(Debug, Clone, PartialEq, Eq)]
pub struct PendingWrite {
    pub kind: WriteKind,
    pub name: String,
    pub content: String,
}

impl View for PendingWrite {
    type V = WriteView;

    open spec fn view(&self) -> WriteView {
        WriteView { kind: self.kind, name: self.name@, content: self.content@ }
    }
}

impl DeepView for PendingWrite {
    type V = WriteView;

    open spec fn deep_view(&self) -> WriteView {
        self@
    }
}

/// The write that creating `name` asks for, or the reason why none is made.
pub open spec fn planned_create(docs: Seq<DocumentView>, name: Seq<char>) -> Result<
    WriteView,
    StoreError,
> {
    if has_document(docs, normalized_name(name)) {
        Err(StoreError::AlreadyExists)
    } else {
        Ok(
            WriteView {
                kind: WriteKind::Create,
                name: normalized_name(name),
                content: Seq::empty(),
            },
        )
    }
}

/// The write that replacing the content of `name` asks for, or the reason why
/// none is made.
pub open spec fn planned_update(
    docs: Seq<DocumentView>,
    name: Seq<char>,
    content: Seq<char>,
) -> Result<WriteView, StoreError> {
    if has_document(docs, name) {
        Ok(WriteView { kind: WriteKind::Update, name, content })
    } else {
        Err(StoreError::NotFound)
    }
}

/// The table after `write` was attempted, and what the table answers.
/// `durable` says whether the durable copy was written. A write that is not
/// durable, or that no longer fits the table, leaves the table as it was.
pub open spec fn committed(docs: Seq<DocumentView>, write: WriteView, durable: bool) -> (
    Seq<DocumentView>,
    Result<(), StoreError>,
) {
    match write.kind {
        WriteKind::Create => {
            if has_document(docs, write.name) {
                (docs, Err(StoreError::AlreadyExists))
            } else if !durable {
                (docs, Err(StoreError::PersistFailed))
            } else {
                (docs.push(DocumentView { name: write.name, content: write.content }), Ok(()))
            }
        },
        WriteKind::Update => {
            if !has_document(docs, write.name) {
                (docs, Err(StoreError::NotFound))
            } else if !durable {
                (docs, Err(StoreError::PersistFailed))
            } else {
                (
                    docs.update(
                        position_of(docs, write.name),
                        DocumentView { name: write.name, content: write.content },
                    ),
                    Ok(()),
                )
            }
        },
    }
}

/// The table after a document was loaded from the durable store: the
/// document replaces one of the same name, or is added.
pub open spec fn loaded(docs: Seq<DocumentView>, name: Seq<char>, content: Seq<char>) -> Seq<
    DocumentView,
> {
    if has_document(docs, name) {
        docs.update(position_of(docs, name), DocumentView { name, content })
    } else {
        docs.push(DocumentView { name, content })
    }
}

/// The table after the creation of `name` was asked for, and the answer:
/// the write is planned, and committed with the outcome of its durable copy.
pub open spec fn created(docs: Seq<DocumentView>, name: Seq<char>, durable: bool) -> (
    Seq<DocumentView>,
    Result<(), StoreError>,
) {
    match planned_create(docs, name) {
        Ok(write) => committed(docs, write, durable),
        Err(e) => (docs, Err(e)),
    }
}

/// The table after new content for `name` was handed in, and the answer.
pub open spec fn updated(
    docs: Seq<DocumentView>,
    name: Seq<char>,
    content: Seq<char>,
    durable: bool,
) -> (Seq<DocumentView>, Result<(), StoreError>) {
    match planned_update(docs, name, content) {
        Ok(write) => committed(docs, write, durable),
        Err(e) => (docs, Err(e)),
    }
}

/// One request to the table, with the outcome that its durable write has
/// where one is made.
pub enum StoreOp {
    Create { name: Seq<char>, durable: bool },
    Update { name: Seq<char>, content: Seq<char>, durable: bool },
}

/// The table after `op`, and the answer to it.
pub open spec fn applied(docs: Seq<DocumentView>, op: StoreOp) -> (
    Seq<DocumentView>,
    Result<(), StoreError>,
) {
    match op {
        StoreOp::Create { name, durable } => created(docs, name, durable),
        StoreOp::Update { name, content, durable } => updated(docs, name, content, durable),
    }
}

/// The table after the requests `ops`, served in their order.
pub open spec fn table_after(docs: Seq<DocumentView>, ops: Seq<StoreOp>) -> Seq<DocumentView>
    decreases ops.len(),
{
    if ops.len() == 0 {
        docs
    } else {
        applied(table_after(docs, ops.drop_last()), ops.last()).0
    }
}

/// The answer to the request at position `i` of `ops`.
pub open spec fn answer_at(docs: Seq<DocumentView>, ops: Seq<StoreOp>, i: int) -> Result<
    (),
    StoreError,
> {
    applied(table_after(docs, ops.take(i)), ops[i]).1
}

/// Where a name stands once one more document is appended.
pub proof fn lemma_position_after_push(docs: Seq<DocumentView>, doc: DocumentView, name: Seq<char>)
    ensures
        has_document(docs, name) ==> position_of(docs.push(doc), name) == position_of(docs, name),
        !has_document(docs, name) && doc.name == name ==> position_of(docs.push(doc), name)
            == docs.len(),
        !has_document(docs, name) && doc.name != name ==> !has_document(docs.push(doc), name),
{
    let names = names_of(docs);
    let more = names_of(docs.push(doc));
    assert(more =~= names.push(doc.name));
    lemma_first_index_of(names, name);
    let k = position_of(docs, name);
    if k < docs.len() {
        lemma_first_index_of_unique(more, name, k);
    } else if doc.name == name {
        lemma_first_index_of_unique(more, name, docs.len() as int);
    } else {
        lemma_first_index_of_unique(more, name, docs.len() as int + 1);
    }
}

/// Replacing the content of a document moves no name.
pub proof fn lemma_position_after_update(
    docs: Seq<DocumentView>,
    k: int,
    content: Seq<char>,
    name: Seq<char>,
)
    requires
        0 <= k < docs.len(),
    ensures
        position_of(docs.update(k, DocumentView { name: docs[k].name, content }), name)
            == position_of(docs, name),
{
    let next = docs.update(k, DocumentView { name: docs[k].name, content });
    assert(names_of(next) =~= names_of(docs));
}

/// A request that the table refuses leaves the table as it was: nothing is
/// in memory that has no durable copy.
pub proof fn lemma_refused_request_changes_nothing(docs: Seq<DocumentView>, op: StoreOp)
    requires
        applied(docs, op).1 is Err,
    ensures
        applied(docs, op).0 == docs,
{
}

/// A request changes at most the document that it names: every other
/// document keeps its place and its content, and no document leaves.
pub proof fn lemma_request_keeps_documents(docs: Seq<DocumentView>, op: StoreOp, name: Seq<char>)
    ensures
        has_document(docs, name) ==> has_document(applied(docs, op).0, name),
        has_document(docs, name) && !(op is Update && op->Update_name == name && applied(
            docs,
            op,
        ).1 is Ok) ==> content_of(applied(docs, op).0, name) == content_of(docs, name),
        op is Update && op->Update_name == name && applied(docs, op).1 is Ok ==> content_of(
            applied(docs, op).0,
            name,
        ) == Some(op->Update_content),
        op is Create && normalized_name(op->Create_name) == name && applied(docs, op).1 is Ok
            ==> has_document(applied(docs, op).0, name),
{
    lemma_first_index_of(names_of(docs), name);
    match op {
        StoreOp::Create { name: n, durable } => {
            let doc = DocumentView { name: normalized_name(n), content: Seq::empty() };
            lemma_position_after_push(docs, doc, name);
        },
        StoreOp::Update { name: n, content, durable } => {
            lemma_first_index_of(names_of(docs), n);
            if has_document(docs, n) {
                let k = position_of(docs, n);
                assert(names_of(docs)[k] == n);
                lemma_position_after_update(docs, k, content, name);
            }
        },
    }
}

/// A document that exists at some point of a run exists at every later
/// point: no request removes one.
pub proof fn lemma_documents_stay(
    docs: Seq<DocumentView>,
    ops: Seq<StoreOp>,
    i: int,
    j: int,
    name: Seq<char>,
)
    requires
        0 <= i <= j <= ops.len(),
        has_document(table_after(docs, ops.take(i)), name),
    ensures
        has_document(table_after(docs, ops.take(j)), name),
    decreases j - i,
{
    if i < j {
        lemma_documents_stay(docs, ops, i, j - 1, name);
        assert(ops.take(j).drop_last() =~= ops.take(j - 1));
        lemma_request_keeps_documents(table_after(docs, ops.take(j - 1)), ops[j - 1], name);
    }
}

/// In any run of requests a name is created at most once: after a creation
/// that succeeded, every later creation whose name normalizes to the same
/// name is answered `AlreadyExists`.
pub proof fn lemma_name_is_created_once(
    docs: Seq<DocumentView>,
    ops: Seq<StoreOp>,
    i: int,
    j: int,
)
    requires
        0 <= i < j < ops.len(),
        ops[i] is Create,
        ops[j] is Create,
        normalized_name(ops[i]->Create_name) == normalized_name(ops[j]->Create_name),
        answer_at(docs, ops, i) is Ok,
    ensures
        answer_at(docs, ops, j) == Err::<(), StoreError>(StoreError::AlreadyExists),
{
    let name = normalized_name(ops[i]->Create_name);
    assert(ops.take(i + 1).drop_last() =~= ops.take(i));
    lemma_request_keeps_documents(table_after(docs, ops.take(i)), ops[i], name);
    lemma_documents_stay(docs, ops, i + 1, j, name);
}

/// The last writer wins: after an update of `name` that succeeded, and any
/// run of further requests of which none is an update of `name` that
/// succeeds, the table holds for `name` the content of that update.
pub proof fn lemma_last_update_wins(docs: Seq<DocumentView>, ops: Seq<StoreOp>, i: int)
    requires
        0 <= i < ops.len(),
        ops[i] is Update,
        answer_at(docs, ops, i) is Ok,
        forall|k: int|
            i < k < ops.len() && ops[k] is Update && ops[k]->Update_name == ops[i]->Update_name
                ==> answer_at(docs, ops, k) is Err,
    ensures
        content_of(table_after(docs, ops), ops[i]->Update_name) == Some(ops[i]->Update_content),
{
    lemma_content_after_update(docs, ops, i, ops.len() as int);
    assert(ops.take(ops.len() as int) =~= ops);
}

/// `lemma_last_update_wins`, at every point `j` of the run after the update.
pub proof fn lemma_content_after_update(docs: Seq<DocumentView>, ops: Seq<StoreOp>, i: int, j: int)
    requires
        0 <= i < j <= ops.len(),
        ops[i] is Update,
        answer_at(docs, ops, i) is Ok,
        forall|k: int|
            i < k < j && ops[k] is Update && ops[k]->Update_name == ops[i]->Update_name
                ==> answer_at(docs, ops, k) is Err,
    ensures
        content_of(table_after(docs, ops.take(j)), ops[i]->Update_name) == Some(
            ops[i]->Update_content,
        ),
    decreases j - i,
{
    let name = ops[i]->Update_name;
    assert(ops.take(j).drop_last() =~= ops.take(j - 1));
    let before = table_after(docs, ops.take(j - 1));
    lemma_request_keeps_documents(before, ops[j - 1], name);
    if j - 1 > i {
        lemma_content_after_update(docs, ops, i, j - 1);
    }
}

/// The documents that the server shares, in the order of their creation.
pub struct DocumentStore {
    docs: Vec<Document>,
}

impl View for DocumentStore {
    type V = Seq<DocumentView>;

    closed spec fn view(&self) -> Seq<DocumentView> {
        self.docs.deep_view()
    }
}

impl DocumentStore {
    #[verifier::type_invariant]
    spec fn names_are_distinct(&self) -> bool {
        distinct_names(self.docs.deep_view())
    }

    /// A table without documents.
    pub fn new() -> (store: Self)
        ensures
            store@ == Seq::<DocumentView>::empty(),
    {
        let docs: Vec<Document> = Vec::new();
        assert(docs.deep_view() =~= Seq::<DocumentView>::empty());
        DocumentStore { docs }
    }

    /// Number of documents.
    pub fn len(&self) -> (n: usize)
        ensures
            n == self@.len(),
    {
        self.docs.len()
    }

    fn find(&self, name: &str) -> (k: usize)
        ensures
            k == position_of(self@, name@),
            k <= self.docs.len(),
            self.docs.len() == self@.len(),
            k < self@.len() ==> self@[k as int].name == name@,
            distinct_names(self@),
    {
        proof {
            use_type_invariant(self);
        }
        let ghost names = names_of(self@);
        let mut k: usize = 0;
        while k < self.docs.len() && !str_eq(self.docs[k].name.as_str(), name)
            invariant
                k <= self.docs.len(),
                names == names_of(self.docs.deep_view()),
                forall|i: int| 0 <= i < k ==> names[i] != name@,
            decreases self.docs.len() - k,
        {
            k += 1;
        }
        proof {
            lemma_first_index_of_unique(names, name@, k as int);
        }
        k
    }

    /// Whether a document called `name` exists.
    pub fn contains(&self, name: &str) -> (r: bool)
        ensures
            r == has_document(self@, name@),
    {
        self.find(name) < self.docs.len()
    }

    /// The content of the document called `name`.
    pub fn get(&self, name: &str) -> (r: Result<&String, StoreError>)
        ensures
            match r {
                Ok(content) => content_of(self@, name@) == Some(content@),
                Err(e) => e == StoreError::NotFound && content_of(self@, name@) is None,
            },
    {
        let k = self.find(name);
        if k < self.docs.len() {
            Ok(&self.docs[k].content)
        } else {
            Err(StoreError::NotFound)
        }
    }

    /// The names of the documents, in the order of their creation.
    pub fn list(&self) -> (names: Vec<String>)
        ensures
            names.deep_view() == names_of(self@),
            names.deep_view().no_duplicates(),
    {
        proof {
            use_type_invariant(self);
        }
        let mut names: Vec<String> = Vec::new();
        let mut i: usize = 0;
        while i < self.docs.len()
            invariant
                i <= self.docs.len(),
                names.deep_view() == names_of(self.docs.deep_view()).take(i as int),
            decreases self.docs.len() - i,
        {
            let ghost before = names.deep_view();
            let name = self.docs[i].name.clone();
            names.push(name);
            assert(names.deep_view() =~= before.push(name@));
            i += 1;
            assert(names.deep_view() =~= names_of(self.docs.deep_view()).take(i as int));
        }
        assert(names.deep_view() =~= names_of(self@));
        names
    }

    /// Plans the creation of a document with empty content. The name is
    /// normalized here, once; every later lookup uses the normalized name.
    pub fn plan_create(&self, name: &str) -> (r: Result<PendingWrite, StoreError>)
        ensures
            match r {
                Ok(write) => planned_create(self@, name@) == Ok::<WriteView, StoreError>(write@),
                Err(e) => planned_create(self@, name@) == Err::<WriteView, StoreError>(e),
            },
    {
        let name = normalize_name(name);
        if self.contains(name.as_str()) {
            Err(StoreError::AlreadyExists)
        } else {
            Ok(PendingWrite { kind: WriteKind::Create, name, content: String::new() })
        }
    }

    /// Plans the replacement of the content of `name`.
    pub fn plan_update(&self, name: &str, content: &str) -> (r: Result<PendingWrite, StoreError>)
        ensures
            match r {
                Ok(write) => planned_update(self@, name@, content@) == Ok::<WriteView, StoreError>(
                    write@,
                ),
                Err(e) => planned_update(self@, name@, content@) == Err::<WriteView, StoreError>(e),
            },
    {
        if self.contains(name) {
            Ok(
                PendingWrite {
                    kind: WriteKind::Update,
                    name: String::from_str(name),
                    content: String::from_str(content),
                },
            )
        } else {
            Err(StoreError::NotFound)
        }
    }

    /// Commits a planned write, given whether its durable copy was written.
    pub fn commit(&mut self, write: PendingWrite, durable: bool) -> (r: Result<(), StoreError>)
        ensures
            final(self)@ == committed(old(self)@, write@, durable).0,
            r == committed(old(self)@, write@, durable).1,
    {
        let k = self.find(write.name.as_str());
        match write.kind {
            WriteKind::Create => {
                if k < self.docs.len() {
                    Err(StoreError::AlreadyExists)
                } else if !durable {
                    Err(StoreError::PersistFailed)
                } else {
                    self.insert_new(write.name, write.content);
                    Ok(())
                }
            },
            WriteKind::Update => {
                if k >= self.docs.len() {
                    Err(StoreError::NotFound)
                } else if !durable {
                    Err(StoreError::PersistFailed)
                } else {
                    self.replace_at(k, write.name, write.content);
                    Ok(())
                }
            },
        }
    }

    /// Takes in a document read from the durable store.
    pub fn load(&mut self, name: String, content: String)
        ensures
            final(self)@ == loaded(old(self)@, name@, content@),
    {
        let k = self.find(name.as_str());
        if k < self.docs.len() {
            self.replace_at(k, name, content);
        } else {
            self.insert_new(name, content);
        }
    }

    fn insert_new(&mut self, name: String, content: String)
        requires
            !has_document(old(self)@, name@),
        ensures
            final(self)@ == old(self)@.push(DocumentView { name: name@, content: content@ }),
    {
        proof {
            use_type_invariant(&*self);
            lemma_first_index_of(names_of(self@), name@);
        }
        let ghost before = self.docs.deep_view();
        let doc = Document { name, content };
        let mut docs: Vec<Document> = Vec::new();
        assert(docs.deep_view() =~= Seq::<DocumentView>::empty());
        core::mem::swap(&mut self.docs, &mut docs);
        docs.push(doc);
        assert(docs.deep_view() =~= before.push(doc@));
        assert(distinct_names(docs.deep_view())) by {
            assert forall|i: int, j: int| 0 <= i < j < before.len() + 1 implies before.push(
                doc@,
            )[i].name != before.push(doc@)[j].name by {
                if j == before.len() {
                    assert(names_of(before)[i] != doc@.name);
                }
            }
        }
        self.docs = docs;
    }

    fn replace_at(&mut self, k: usize, name: String, content: String)
        requires
            k < old(self)@.len(),
            old(self)@[k as int].name == name@,
        ensures
            final(self)@ == old(self)@.update(
                k as int,
                DocumentView { name: name@, content: content@ },
            ),
    {
        proof {
            use_type_invariant(&*self);
        }
        let ghost before = self.docs.deep_view();
        let doc = Document { name, content };
        let mut docs: Vec<Document> = Vec::new();
        assert(docs.deep_view() =~= Seq::<DocumentView>::empty());
        core::mem::swap(&mut self.docs, &mut docs);
        docs.set(k, doc);
        assert(docs.deep_view() =~= before.update(k as int, doc@));
        self.docs = docs;
    }
}

} // verus!
