use vstd::prelude::*;

use tantivy::schema::Value;

use crate::errors::IndexError;
use crate::model::first_display_of;

verus! {

// The tantivy types that the library's values carry.  They are opaque to
// the verifier: everything known about a value of one of these types is
// said by the trusted wrappers below and in `wrappers`.
#[verifier::external_type_specification]
#[verifier::external_body]
pub struct ExSchemaBuilder(tantivy::schema::SchemaBuilder);

#[verifier::external_type_specification]
#[verifier::external_body]
pub struct ExField(tantivy::schema::Field);

#[verifier::external_type_specification]
#[verifier::external_body]
pub struct ExDocument(tantivy::TantivyDocument);

#[verifier::external_type_specification]
#[verifier::external_body]
pub struct ExIndex(tantivy::Index);

/// Holds tantivy's `IndexWriter`.  The writer type is generic over an
/// outside trait, which keeps it from being declared to the verifier
/// directly, so it lives in this opaque handle instead; `writer_pending`
/// names what it has buffered.
#[verifier::external_body]
pub struct WriterHandle {
    pub(crate) inner: tantivy::IndexWriter<tantivy::TantivyDocument>,
}

// The names the contracts speak of: the field names a schema builder has
// accumulated, the numeric id inside a field handle, the (field position,
// text) pairs a document holds, and the documents a writer has buffered
// since its last commit.
pub uninterp spec fn builder_names(b: tantivy::schema::SchemaBuilder) -> Seq<Seq<char>>;

pub uninterp spec fn field_id(f: tantivy::schema::Field) -> nat;

pub uninterp spec fn doc_fields(d: tantivy::TantivyDocument) -> Seq<(nat, Seq<char>)>;

pub uninterp spec fn writer_pending(w: WriterHandle) -> Seq<Seq<(nat, Seq<char>)>>;

/// Whether tantivy's query parser accepts `query` against a schema whose
/// text fields, all with the default tokenizer, are `names`.  Parsing is a
/// function of the query string and those names alone.
pub uninterp spec fn query_parses(names: Seq<Seq<char>>, query: Seq<char>) -> bool;

/// Whether tantivy's query engine considers a document with the given
/// (field position, text) pairs a candidate for `query` — that is, whether
/// the document holds at least one matching query term in the right field.
/// With this crate's schemas (all text fields, default tokenizer, every
/// field a default for unqualified terms) matching is a function of the
/// schema names, the query string and the document's pairs alone.
pub uninterp spec fn query_matches(
    names: Seq<Seq<char>>,
    query: Seq<char>,
    doc: Seq<(nat, Seq<char>)>,
) -> bool;

/// Whether a writer was opened on the given index value: the tie between a
/// writer and the one index its commits publish to.  `writer_open` ensures
/// it for the index it was handed, and the mutating wrappers preserve it.
pub uninterp spec fn writer_matches_index(w: WriterHandle, i: tantivy::Index) -> bool;

/// Relies on tantivy's `Schema::builder`: a fresh builder holds no fields.
#[verifier::external_body]
pub(crate) fn builder_new() -> (b: tantivy::schema::SchemaBuilder)
    ensures
        builder_names(b) == Seq::<Seq<char>>::empty(),
{
    tantivy::schema::Schema::builder()
}

/// Relies on tantivy's `SchemaBuilder::add_text_field` with `TEXT | STORED`:
/// it appends one stored, indexed text field and returns its handle, whose
/// id is the number of fields added before it.  It panics on a name already
/// added, hence the `requires`.
#[verifier::external_body]
pub(crate) fn builder_add_stored_text(b: &mut tantivy::schema::SchemaBuilder, name: &String) -> (f:
    tantivy::schema::Field)
    requires
        !builder_names(*old(b)).contains(name@),
    ensures
        builder_names(*final(b)) == builder_names(*old(b)).push(name@),
        field_id(f) == builder_names(*old(b)).len(),
{
    b.add_text_field(name, tantivy::schema::TEXT | tantivy::schema::STORED)
}

/// Relies on tantivy's `SchemaBuilder::add_text_field` with `TEXT`: as
/// `builder_add_stored_text`, but the field is indexed only, not stored.
#[verifier::external_body]
pub(crate) fn builder_add_text(b: &mut tantivy::schema::SchemaBuilder, name: &String) -> (f:
    tantivy::schema::Field)
    requires
        !builder_names(*old(b)).contains(name@),
    ensures
        builder_names(*final(b)) == builder_names(*old(b)).push(name@),
        field_id(f) == builder_names(*old(b)).len(),
{
    b.add_text_field(name, tantivy::schema::TEXT)
}

/// Relies on tantivy's `SchemaBuilder::build` and `Index::create_in_ram`:
/// the schema keeps the builder's fields and ids, and the new in-memory
/// index starts with no committed documents.  Neither call fails.
#[verifier::external_body]
pub(crate) fn build_in_ram(b: tantivy::schema::SchemaBuilder) -> (i: tantivy::Index) {
    tantivy::Index::create_in_ram(b.build())
}

/// Relies on tantivy's `Index::writer`: on success the single writer is
/// opened with an empty pending buffer; a second live writer or a bad
/// memory budget is reported as an error value, not a panic.
#[verifier::external_body]
pub(crate) fn writer_open(i: &tantivy::Index, budget: usize) -> (r: Result<
    WriterHandle,
    IndexError,
>)
    ensures
        r matches Ok(w) ==> writer_pending(w) == Seq::<Seq<(nat, Seq<char>)>>::empty()
            && writer_matches_index(w, *i),
        r matches Err(e) ==> e == IndexError::WriterError,
{
    match i.writer(budget) {
        Ok(inner) => Ok(WriterHandle { inner }),
        Err(_) => Err(IndexError::WriterError),
    }
}

/// Relies on tantivy's `IndexWriter::add_document`: on success the document
/// joins the writer's pending buffer and stays invisible to searchers until
/// a commit; on failure nothing was enqueued.  The writer stays bound to
/// the index it was opened on.
#[verifier::external_body]
pub(crate) fn writer_add(w: &mut WriterHandle, d: tantivy::TantivyDocument) -> (r: Result<
    (),
    IndexError,
>)
    ensures
        r is Ok ==> writer_pending(*final(w)) == writer_pending(*old(w)).push(doc_fields(d)),
        r is Err ==> writer_pending(*final(w)) == writer_pending(*old(w)),
        r matches Err(e) ==> e == IndexError::WriterError,
        forall|ix: tantivy::Index|
            writer_matches_index(*final(w), ix) == writer_matches_index(*old(w), ix),
{
    match w.inner.add_document(d) {
        Ok(_) => Ok(()),
        Err(_) => Err(IndexError::WriterError),
    }
}

/// Relies on tantivy's `Document::default`: a new document holds no field
/// values.
#[verifier::external_body]
pub(crate) fn doc_new() -> (d: tantivy::TantivyDocument)
    ensures
        doc_fields(d) == Seq::<(nat, Seq<char>)>::empty(),
{
    tantivy::TantivyDocument::default()
}

/// Relies on tantivy's `Document::add_text`: it appends `text` under the
/// given field handle.
#[verifier::external_body]
pub(crate) fn doc_add_text(
    d: &mut tantivy::TantivyDocument,
    handles: &Vec<tantivy::schema::Field>,
    i: usize,
    text: &String,
)
    requires
        i < handles@.len(),
    ensures
        doc_fields(*final(d)) == doc_fields(*old(d)).push((field_id(handles@[i as int]), text@)),
{
    d.add_text(handles[i], text);
}

/// Relies on tantivy's `TantivyDocument::get_first` and `Value::as_str`:
/// the first value stored under the display handle (field id 0), as text.
/// Every value in the documents this crate builds and retrieves is text,
/// so a missing result means the document holds no display pair.
#[verifier::external_body]
pub(crate) fn doc_display_text(
    ds: &Vec<tantivy::TantivyDocument>,
    k: usize,
    handles: &Vec<tantivy::schema::Field>,
) -> (r: Option<String>)
    requires
        k < ds@.len(),
        handles@.len() >= 1,
        field_id(handles@[0]) == 0,
    ensures
        match r {
            Some(t) => first_display_of(doc_fields(ds@[k as int])) == Some(t@),
            None => first_display_of(doc_fields(ds@[k as int])) is None,
        },
{
    ds[k].get_first(handles[0]).and_then(|v| v.as_str()).map(str::to_string)
}

} // verus!
