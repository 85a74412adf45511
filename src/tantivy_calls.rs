//! The trusted boundary with tantivy: declarations of the tantivy types that
//! the engine holds, names for what a schema holds, and one small wrapper per
//! tantivy call. Field handles cross this boundary as their numeric ids.
use vstd::prelude::*;
use tantivy::schema::{Field, Schema, SchemaBuilder, Value, FAST, INDEXED, STORED, TEXT};
use tantivy::collector::TopDocs;
use tantivy::directory::MmapDirectory;
use tantivy::directory::error::OpenDirectoryError;
use tantivy::query::{QueryParser, QueryParserError};
use tantivy::{DocAddress, Index, IndexReader, IndexWriter, ReloadPolicy, Searcher};
use tantivy::{TantivyDocument, TantivyError, Term};

verus! {

#[verifier::external_type_specification]
#[verifier::external_body]
pub struct ExSchemaBuilder(SchemaBuilder);

#[verifier::external_type_specification]
#[verifier::external_body]
pub struct ExSchema(Schema);

#[verifier::external_type_specification]
#[verifier::external_body]
pub struct ExIndex(Index);

/// The index's writer, which buffers added and deleted documents until a commit.
/// tantivy's `IndexWriter` is generic over a document trait that cannot be
/// declared here, so it is held opaque in this struct.
#[verifier::external_body]
pub struct Writer {
    inner: IndexWriter,
}

#[verifier::external_type_specification]
#[verifier::external_body]
pub struct ExIndexReader(IndexReader);

#[verifier::external_type_specification]
#[verifier::external_body]
pub struct ExSearcher(Searcher);

#[verifier::external_type_specification]
#[verifier::external_body]
pub struct ExTantivyDocument(TantivyDocument);

#[verifier::external_type_specification]
#[verifier::external_body]
pub struct ExMmapDirectory(MmapDirectory);

#[verifier::external_type_specification]
#[verifier::external_body]
pub struct ExTantivyError(TantivyError);

#[verifier::external_type_specification]
#[verifier::external_body]
pub struct ExOpenDirectoryError(OpenDirectoryError);

#[verifier::external_type_specification]
#[verifier::external_body]
pub struct ExQueryParserError(QueryParserError);

/// The names of the fields added to a schema builder, in the order added
/// (a field's id is its position).
pub uninterp spec fn builder_field_names(b: SchemaBuilder) -> Seq<Seq<char>>;

/// The names of the fields of a schema, in the order they were added.
pub uninterp spec fn schema_field_names(s: Schema) -> Seq<Seq<char>>;

/// An operation queued in, or sealed by, the index writer.
pub enum WriterOp {
    /// `IndexWriter::add_document` of a document holding these i64 and text
    /// values, each with its field id, in the order they were added.
    Add { ints: Seq<(u32, i64)>, texts: Seq<(u32, Seq<char>)> },
    /// `IndexWriter::delete_term` of the i64 term `value` of field `field`.
    DeleteI64 { field: u32, value: i64 },
}

/// The operations queued in the writer since its last successful commit.
pub uninterp spec fn writer_queued(w: Writer) -> Seq<WriterOp>;

/// The operations that the successful commits of this writer sealed, in order.
pub uninterp spec fn writer_sealed(w: Writer) -> Seq<WriterOp>;

/// The i64 values of a document, with their field ids, in the order added.
pub uninterp spec fn doc_i64_values(d: TantivyDocument) -> Seq<(u32, i64)>;

/// The text values of a document, with their field ids, in the order added.
pub uninterp spec fn doc_text_values(d: TantivyDocument) -> Seq<(u32, Seq<char>)>;

/// The ids of the indexed i64 fields added to a schema builder.
pub uninterp spec fn builder_indexed_i64_fields(b: SchemaBuilder) -> Set<u32>;

/// The ids of the indexed i64 fields of a schema.
pub uninterp spec fn schema_indexed_i64_fields(s: Schema) -> Set<u32>;

/// The names of the fields of an index's schema, in order.
pub uninterp spec fn index_field_names(i: Index) -> Seq<Seq<char>>;

/// The ids of the indexed i64 fields of an index's schema.
pub uninterp spec fn index_indexed_i64_fields(i: Index) -> Set<u32>;

/// The ids of the indexed i64 fields of the schema of the writer's index.
pub uninterp spec fn writer_indexed_i64_fields(w: Writer) -> Set<u32>;

/// The number of segments that a searcher reads.
pub uninterp spec fn searcher_segment_count(s: Searcher) -> nat;

/// The number of document slots (`max_doc`) of a segment of a searcher.
pub uninterp spec fn searcher_max_doc(s: Searcher, segment: u32) -> nat;

/// The hits that searching `text`, parsed over the default `fields` of index
/// `i`, in the generation that searcher `s` reads, yields with at most `limit`
/// kept: (the bits of the score, the segment, the document), in the
/// collector's order.
pub uninterp spec fn search_hits(
    s: Searcher,
    i: Index,
    fields: Seq<u32>,
    text: Seq<char>,
    limit: usize,
) -> Seq<(u32, u32, u32)>;

/// The first i64 value of `field` in the stored document `doc` of `segment`,
/// in the generation that searcher `s` reads.
pub uninterp spec fn stored_i64_of(s: Searcher, segment: u32, doc: u32, field: u32) -> Option<i64>;

/// A name that tantivy's `FieldEntry::new` accepts without panicking.
pub open spec fn accepted_field_name(n: Seq<char>) -> bool {
    n.len() > 0 && n[0] != '-'
}

/// Relies on `Schema::builder`: a new builder holds no field.
#[verifier::external_body]
pub(crate) fn schema_builder() -> (r: SchemaBuilder)
    ensures
        builder_field_names(r) == Seq::<Seq<char>>::empty(),
        builder_indexed_i64_fields(r) == Set::<u32>::empty(),
{
    Schema::builder()
}

/// Relies on `SchemaBuilder::add_i64_field`: the field, stored, indexed and
/// fast, is appended and its id is its position; it panics on a name already present or one that
/// `FieldEntry::new` rejects.
#[verifier::external_body]
pub(crate) fn add_key_field(b: &mut SchemaBuilder, name: &str) -> (r: u32)
    requires
        accepted_field_name(name@),
        !builder_field_names(*old(b)).contains(name@),
        builder_field_names(*old(b)).len() < u32::MAX,
    ensures
        builder_field_names(*final(b)) == builder_field_names(*old(b)).push(name@),
        r == builder_field_names(*old(b)).len(),
        builder_indexed_i64_fields(*final(b)) == builder_indexed_i64_fields(*old(b)).insert(r),
{
    b.add_i64_field(name, STORED | INDEXED | FAST).field_id()
}

/// Relies on `SchemaBuilder::add_text_field`: the field is appended and its id
/// is its position; it panics on a name already present or one that
/// `FieldEntry::new` rejects.
#[verifier::external_body]
pub(crate) fn add_text_field(b: &mut SchemaBuilder, name: &str) -> (r: u32)
    requires
        accepted_field_name(name@),
        !builder_field_names(*old(b)).contains(name@),
        builder_field_names(*old(b)).len() < u32::MAX,
    ensures
        builder_field_names(*final(b)) == builder_field_names(*old(b)).push(name@),
        r == builder_field_names(*old(b)).len(),
        builder_indexed_i64_fields(*final(b)) == builder_indexed_i64_fields(*old(b)),
{
    b.add_text_field(name, TEXT).field_id()
}

/// Relies on `SchemaBuilder::build`: the schema keeps the builder's fields.
#[verifier::external_body]
pub(crate) fn build_schema(b: SchemaBuilder) -> (r: Schema)
    ensures
        schema_field_names(r) == builder_field_names(b),
        schema_indexed_i64_fields(r) == builder_indexed_i64_fields(b),
{
    b.build()
}

/// Relies on `Schema::get_field`: the id of the field of that name, if any.
#[verifier::external_body]
pub(crate) fn get_field(s: &Schema, name: &str) -> (r: Option<u32>)
    ensures
        r is Some <==> schema_field_names(*s).contains(name@),
        r is Some ==> r->0 < schema_field_names(*s).len() && schema_field_names(*s)[r->0 as int]
            == name@,
{
    s.get_field(name).ok().map(|f| f.field_id())
}

/// Relies on `MmapDirectory::open`: opens an existing directory.
#[verifier::external_body]
pub(crate) fn open_directory(path: &str) -> (r: Result<MmapDirectory, OpenDirectoryError>) {
    MmapDirectory::open(path)
}

/// Relies on `Index::open_or_create`: creates the index, or opens the one
/// found in the directory when its schema equals the given one.
#[verifier::external_body]
pub(crate) fn open_or_create_index(dir: MmapDirectory, schema: &Schema) -> (r: Result<
    Index,
    TantivyError,
>)
    ensures
        r is Ok ==> index_field_names(r->Ok_0) == schema_field_names(*schema)
            && index_indexed_i64_fields(r->Ok_0) == schema_indexed_i64_fields(*schema),
{
    Index::open_or_create(dir, schema.clone())
}

/// Relies on the variants of `TantivyError`: whether the error is a schema error,
/// which `Index::open_or_create` returns for a schema that does not match.
#[verifier::external_body]
pub(crate) fn is_schema_error(e: &TantivyError) -> (r: bool) {
    matches!(e, TantivyError::SchemaError(_))
}

/// Relies on `Index::writer`: the single writer of the index, with nothing
/// queued and nothing committed yet.
#[verifier::external_body]
pub(crate) fn open_writer(index: &Index, budget: usize) -> (r: Result<Writer, TantivyError>)
    ensures
        r is Ok ==> writer_queued(r->Ok_0) == Seq::<WriterOp>::empty() && writer_sealed(r->Ok_0)
            == Seq::<WriterOp>::empty() && writer_indexed_i64_fields(r->Ok_0)
            == index_indexed_i64_fields(*index),
{
    index.writer(budget).map(|inner| Writer { inner })
}

/// Relies on `Index::reader_builder`: a reader that also reloads on commit.
#[verifier::external_body]
pub(crate) fn open_reader(index: &Index) -> (r: Result<IndexReader, TantivyError>) {
    index.reader_builder().reload_policy(ReloadPolicy::OnCommitWithDelay).try_into()
}

/// Relies on `TantivyDocument::default`: an empty document.
#[verifier::external_body]
pub(crate) fn new_document() -> (r: TantivyDocument)
    ensures
        doc_i64_values(r) == Seq::<(u32, i64)>::empty(),
        doc_text_values(r) == Seq::<(u32, Seq<char>)>::empty(),
{
    TantivyDocument::default()
}

/// Relies on `TantivyDocument::add_i64`: appends the value.
#[verifier::external_body]
pub(crate) fn document_add_i64(d: &mut TantivyDocument, field: u32, value: i64)
    ensures
        doc_i64_values(*final(d)) == doc_i64_values(*old(d)).push((field, value)),
        doc_text_values(*final(d)) == doc_text_values(*old(d)),
{
    d.add_i64(Field::from_field_id(field), value)
}

/// Relies on `TantivyDocument::add_text`: appends the text.
#[verifier::external_body]
pub(crate) fn document_add_text(d: &mut TantivyDocument, field: u32, text: &str)
    ensures
        doc_text_values(*final(d)) == doc_text_values(*old(d)).push((field, text@)),
        doc_i64_values(*final(d)) == doc_i64_values(*old(d)),
{
    d.add_text(Field::from_field_id(field), text)
}

/// Relies on `IndexWriter::delete_term`: queues the deletion of the documents
/// whose i64 field holds `value`. The field must be an indexed i64 field of the
/// schema: past the schema the call panics, and on a field that is not indexed
/// it queues nothing.
#[verifier::external_body]
pub(crate) fn writer_delete_i64(w: &mut Writer, field: u32, value: i64)
    requires
        writer_indexed_i64_fields(*old(w)).contains(field),
    ensures
        writer_indexed_i64_fields(*final(w)) == writer_indexed_i64_fields(*old(w)),
        writer_queued(*final(w)) == writer_queued(*old(w)).push(
            WriterOp::DeleteI64 { field, value },
        ),
        writer_sealed(*final(w)) == writer_sealed(*old(w)),
{
    w.inner.delete_term(Term::from_field_i64(Field::from_field_id(field), value));
}

/// Relies on `IndexWriter::add_document`: queues the document; it seals
/// nothing, and when the send to the indexing workers fails nothing is queued.
#[verifier::external_body]
pub(crate) fn writer_add_document(w: &mut Writer, d: TantivyDocument) -> (r: Result<
    (),
    TantivyError,
>)
    ensures
        writer_indexed_i64_fields(*final(w)) == writer_indexed_i64_fields(*old(w)),
        r is Ok ==> writer_queued(*final(w)) == writer_queued(*old(w)).push(
            WriterOp::Add { ints: doc_i64_values(d), texts: doc_text_values(d) },
        ),
        r is Err ==> writer_queued(*final(w)) == writer_queued(*old(w)),
        writer_sealed(*final(w)) == writer_sealed(*old(w)),
{
    w.inner.add_document(d).map(|_| ())
}

/// Relies on `IndexWriter::commit`: on success the queued operations are
/// sealed, after those of the earlier commits, and nothing stays queued.
#[verifier::external_body]
pub(crate) fn writer_commit(w: &mut Writer) -> (r: Result<(), TantivyError>)
    ensures
        writer_indexed_i64_fields(*final(w)) == writer_indexed_i64_fields(*old(w)),
        r is Ok ==> writer_sealed(*final(w)) == writer_sealed(*old(w)) + writer_queued(*old(w))
            && writer_queued(*final(w)) == Seq::<WriterOp>::empty(),
{
    w.inner.commit().map(|_| ())
}

/// Relies on `IndexReader::reload`: the reader moves to the last commit.
#[verifier::external_body]
pub(crate) fn reader_reload(reader: &IndexReader) -> (r: Result<(), TantivyError>) {
    reader.reload()
}

/// Relies on `IndexReader::searcher`: a searcher over the reader's generation.
#[verifier::external_body]
pub(crate) fn reader_searcher(reader: &IndexReader) -> (r: Searcher) {
    reader.searcher()
}

/// Relies on `QueryParser::for_index` and `QueryParser::parse_query` over the
/// given default fields, then on `Searcher::search` with `TopDocs::with_limit`,
/// which keeps at most `limit` hits; it panics on a limit of 0, and on one so
/// large that the collector's buffer of twice the limit cannot be allocated.
/// Each hit lies in a segment of the searcher, below that segment's
/// `max_doc`. The default fields must be fields of the schema. The parsed query
/// is a trait object, which cannot cross into verified code, so parsing and
/// searching share this wrapper. The outer error is the parser's, the inner one
/// the search's. Each hit is (the bits of its score, its segment, its document).
#[verifier::external_body]
pub(crate) fn search_top(
    searcher: &Searcher,
    index: &Index,
    fields: &Vec<u32>,
    text: &str,
    limit: usize,
) -> (r: Result<Result<Vec<(u32, u32, u32)>, TantivyError>, QueryParserError>)
    requires
        1 <= limit <= u32::MAX as usize,
        forall|i: int| 0 <= i < fields@.len() ==> (#[trigger] fields@[i]) < index_field_names(*index).len(),
    ensures
        r matches Ok(Ok(hits)) ==> hits@ == search_hits(*searcher, *index, fields@, text@, limit),
        r matches Ok(Ok(hits)) ==> hits@.len() <= limit && forall|i: int|
            0 <= i < hits@.len() ==> (#[trigger] hits@[i]).1 < searcher_segment_count(*searcher)
                && hits@[i].2 < searcher_max_doc(*searcher, hits@[i].1),
{
    let fields: Vec<Field> = fields.iter().map(|f| Field::from_field_id(*f)).collect();
    let query = QueryParser::for_index(index, fields).parse_query(text)?;
    Ok(searcher.search(&query, &TopDocs::with_limit(limit)).map(|hits| {
        hits.into_iter().map(|(s, a)| (s.to_bits(), a.segment_ord, a.doc_id)).collect()
    }))
}

/// Relies on `Searcher::num_docs`: the number of live documents the searcher sees.
#[verifier::external_body]
pub(crate) fn searcher_num_docs(searcher: &Searcher) -> (r: u64) {
    searcher.num_docs()
}

/// Relies on `Searcher::doc` and `TantivyDocument::get_first`: the first i64
/// value that the stored document holds in `field`, if any. A segment past the
/// searcher's panics.
#[verifier::external_body]
pub(crate) fn stored_i64(searcher: &Searcher, segment: u32, doc: u32, field: u32) -> (r: Result<
    Option<i64>,
    TantivyError,
>)
    requires
        segment < searcher_segment_count(*searcher),
        doc < searcher_max_doc(*searcher, segment),
    ensures
        r is Ok ==> r->Ok_0 == stored_i64_of(*searcher, segment, doc, field),
{
    let d: TantivyDocument = searcher.doc(DocAddress::new(segment, doc))?;
    Ok(d.get_first(Field::from_field_id(field)).and_then(|v| v.as_i64()))
}

} // verus!
