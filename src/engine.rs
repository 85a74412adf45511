//! The index handle: schema, writer and reader of one tantivy index. Its
//! contracts speak of the mutations that the writer holds, read as additions
//! and deletions by id.
use vstd::prelude::*;
use tantivy::schema::Schema;
use tantivy::{Index, IndexReader, Searcher};
use crate::model::{
    apply_mutations, lemma_delete_absent_is_noop, lemma_last_write_wins, DocText, FtError, Mutation,
};
use crate::schema::{
    id_field_name, names_of, valid_field_names, validate_field_names, ID_FIELD_NAME,
};
use crate::ranking::{is_top_ranked, rank_hits, sorted_by_rank, IdScore};
use crate::tantivy_calls::{
    add_key_field, add_text_field, build_schema, builder_field_names, document_add_i64,
    document_add_text, get_field, is_schema_error, new_document, open_directory,
    open_or_create_index, open_reader, open_writer, reader_reload, reader_searcher,
    schema_builder, schema_field_names, search_top, stored_i64, writer_add_document,
    writer_commit, writer_delete_i64, writer_queued, writer_sealed, doc_i64_values,
    doc_text_values, searcher_num_docs, Writer, WriterOp, builder_indexed_i64_fields,
    schema_indexed_i64_fields, index_field_names, writer_indexed_i64_fields, searcher_segment_count,
    searcher_max_doc, search_hits, stored_i64_of,
};

verus! {

/// The memory budget handed to the index writer, in bytes.
pub const WRITER_MEMORY_BUDGET: usize = 50_000_000;

/// Options of a query: the largest number of results wanted.
pub struct QueryOptions {
    pub top_n: usize,
}

/// An open full-text index.
///
/// The schema holds the key field `id` (id 0) and one text field per name
/// given at creation (ids 1, 2, ...). Its view is the mutations that the
/// writer has queued since the last commit, and those that its commits sealed,
/// in order.
pub struct FTIndex {
    schema: Schema,
    index: Index,
    writer: Writer,
    reader: IndexReader,
    id_field: u32,
    fields: Vec<u32>,
    field_names: Vec<String>,
}

/// The mutation that a writer operation stands for, given the names of the
/// text fields (text field `k` has id `k + 1`; the key field has id 0).
pub open spec fn as_mutation(op: WriterOp, names: Seq<Seq<char>>) -> Mutation {
    match op {
        WriterOp::Add { ints, texts } => Mutation::Add {
            id: ints[0].1,
            text: texts.map_values(|p: (u32, Seq<char>)| (names[p.0 - 1], p.1)),
        },
        WriterOp::DeleteI64 { field, value } => Mutation::Delete { id: value },
    }
}

/// A deletion of an id directly followed by an addition of a document with
/// that id: how one add of the index, which replaces the document, reaches
/// the writer.
pub open spec fn replaces(d: WriterOp, a: WriterOp) -> bool {
    match (d, a) {
        (WriterOp::DeleteI64 { field, value }, WriterOp::Add { ints, texts }) => ints.len() > 0
            && ints[0].1 == value,
        _ => false,
    }
}

/// The mutations that a sequence of writer operations stands for: each
/// replacing pair is one `Add`, any other operation one mutation.
pub open spec fn as_mutations(ops: Seq<WriterOp>, names: Seq<Seq<char>>) -> Seq<Mutation>
    decreases ops.len(),
{
    if ops.len() == 0 {
        Seq::empty()
    } else if ops.len() >= 2 && replaces(ops[ops.len() - 2], ops.last()) {
        as_mutations(ops.drop_last().drop_last(), names).push(as_mutation(ops.last(), names))
    } else {
        as_mutations(ops.drop_last(), names).push(as_mutation(ops.last(), names))
    }
}

/// A sequence of writer operations that does not open with an addition.
pub open spec fn opens_without_add(q: Seq<WriterOp>) -> bool {
    q.len() == 0 || !(q[0] is Add)
}

proof fn lemma_as_mutations_append(s: Seq<WriterOp>, q: Seq<WriterOp>, names: Seq<Seq<char>>)
    requires
        opens_without_add(q),
    ensures
        as_mutations(s + q, names) == as_mutations(s, names) + as_mutations(q, names),
    decreases q.len(),
{
    if q.len() == 0 {
        assert(s + q =~= s);
        assert(as_mutations(s, names) + as_mutations(q, names) =~= as_mutations(s, names));
    } else if q.len() == 1 {
        assert((s + q).drop_last() =~= s);
        assert((s + q).last() == q[0]);
        assert(q.drop_last() =~= Seq::<WriterOp>::empty());
        assert(as_mutations(q.drop_last(), names) =~= Seq::<Mutation>::empty());
        assert(as_mutations(s, names) + as_mutations(q, names) =~= as_mutations(s, names).push(
            as_mutation(q[0], names),
        ));
    } else {
        let sq = s + q;
        assert(sq[sq.len() - 2] == q[q.len() - 2]);
        assert(sq.last() == q.last());
        if replaces(q[q.len() - 2], q.last()) {
            let q2 = q.drop_last().drop_last();
            assert(sq.drop_last().drop_last() =~= s + q2);
            if q2.len() > 0 {
                assert(q2[0] == q[0]);
            }
            lemma_as_mutations_append(s, q2, names);
            assert(as_mutations(s, names) + as_mutations(q, names) =~= (as_mutations(s, names)
                + as_mutations(q2, names)).push(as_mutation(q.last(), names)));
        } else {
            let q1 = q.drop_last();
            assert(sq.drop_last() =~= s + q1);
            assert(q1[0] == q[0]);
            lemma_as_mutations_append(s, q1, names);
            assert(as_mutations(s, names) + as_mutations(q, names) =~= (as_mutations(s, names)
                + as_mutations(q1, names)).push(as_mutation(q.last(), names)));
        }
    }
}

/// The document text made of parallel lists of field names and values.
pub open spec fn doc_text(names: Seq<Seq<char>>, values: Seq<Seq<char>>) -> DocText {
    Seq::new(names.len(), |i: int| (names[i], values[i]))
}

impl FTIndex {
    /// The names of the text fields, in schema order.
    pub closed spec fn text_fields(&self) -> Seq<Seq<char>> {
        names_of(self.field_names@)
    }

    /// The mutations queued in the writer since its last commit.
    pub closed spec fn pending(&self) -> Seq<Mutation> {
        as_mutations(writer_queued(self.writer), names_of(self.field_names@))
    }

    /// The mutations sealed by the commits of this handle's writer.
    pub closed spec fn committed(&self) -> Seq<Mutation> {
        as_mutations(writer_sealed(self.writer), names_of(self.field_names@))
    }

    /// The names of all fields of the schema: the key field, then the text
    /// fields.
    pub closed spec fn schema_fields(&self) -> Seq<Seq<char>> {
        schema_field_names(self.schema)
    }

    /// The ids of the indexed i64 fields of the schema.
    pub closed spec fn indexed_i64_fields(&self) -> Set<u32> {
        schema_indexed_i64_fields(self.schema)
    }

    /// The tantivy index behind this handle.
    pub closed spec fn index_handle(&self) -> Index {
        self.index
    }

    pub closed spec fn wf(&self) -> bool {
        &&& self.schema_fields() == seq![id_field_name()] + self.text_fields()
        &&& self.indexed_i64_fields() == set![0u32]
        &&& index_field_names(self.index) == schema_field_names(self.schema)
        &&& writer_indexed_i64_fields(self.writer) == set![0u32]
        &&& opens_without_add(writer_queued(self.writer))
        &&& valid_field_names(names_of(self.field_names@))
        &&& schema_field_names(self.schema) == seq![id_field_name()] + names_of(
            self.field_names@,
        )
        &&& self.id_field == 0
        &&& self.fields@.len() == self.field_names@.len()
        &&& forall|i: int| 0 <= i < self.fields@.len() ==> #[trigger] self.fields@[i] == i + 1
    }

    /// The id of the text field called `name`, or `None` when `name` is not a
    /// text field of the schema (the key field is not one).
    fn text_field_id(&self, name: &String) -> (r: Option<u32>)
        requires
            self.wf(),
        ensures
            r is Some <==> self.text_fields().contains(name@),
            r is Some ==> 1 <= r->0 <= self.text_fields().len() && self.text_fields()[r->0 - 1]
                == name@,
    {
        let ghost tf = self.text_fields();
        let ghost sf = schema_field_names(self.schema);
        assert(sf[0] == id_field_name());
        assert forall|i: int| 0 <= i < tf.len() implies sf[i + 1] == #[trigger] tf[i] by {}
        match get_field(&self.schema, name.as_str()) {
            None => {
                proof {
                    if tf.contains(name@) {
                        let i = choose|i: int| 0 <= i < tf.len() && tf[i] == name@;
                        assert(sf[i + 1] == name@);
                    }
                }
                None
            },
            Some(f) => {
                if f == self.id_field {
                    proof {
                        if tf.contains(name@) {
                            let i = choose|i: int| 0 <= i < tf.len() && tf[i] == name@;
                            assert(tf[i] != id_field_name());
                        }
                    }
                    None
                } else {
                    let ghost i = f - 1;
                    assert(tf[i] == name@);
                    assert(self.fields@[i] == f);
                    Some(f)
                }
            },
        }
    }
}

/// Builds the schema for `properties`, then opens the index in the existing
/// directory `path`, or creates it there.
pub fn new_ftindex(path: &String, properties: &Vec<String>) -> (r: Result<Box<FTIndex>, FtError>)
    requires
        properties.len() < u32::MAX - 1,
    ensures
        !valid_field_names(names_of(properties@)) ==> r == Err::<Box<FTIndex>, FtError>(
            FtError::SchemaMismatch,
        ),
        r is Err ==> r->Err_0 == FtError::SchemaMismatch || r->Err_0 == FtError::IOError,
        r is Ok ==> ({
            let ft = r->Ok_0;
            &&& ft.wf()
            &&& ft.text_fields() == names_of(properties@)
            &&& ft.pending() == Seq::<Mutation>::empty()
            &&& ft.committed() == Seq::<Mutation>::empty()
            &&& ft.schema_fields() == seq![id_field_name()] + names_of(properties@)
            &&& ft.indexed_i64_fields() == set![0u32]
        }),
{
    validate_field_names(properties)?;
    let ghost ns = names_of(properties@);
    let mut builder = schema_builder();
    proof {
        reveal_strlit("id");
        assert(ID_FIELD_NAME@ =~= id_field_name());
    }
    let id_field = add_key_field(&mut builder, ID_FIELD_NAME);
    assert(builder_indexed_i64_fields(builder) =~= set![0u32]);
    let mut fields: Vec<u32> = Vec::new();
    let mut field_names: Vec<String> = Vec::new();
    assert(builder_field_names(builder) =~= seq![id_field_name()] + names_of(field_names@));
    assert(names_of(field_names@) =~= ns.subrange(0, 0));
    let mut i: usize = 0;
    while i < properties.len()
        invariant
            0 <= i <= properties.len() < u32::MAX - 1,
            ns == names_of(properties@),
            valid_field_names(ns),
            id_field == 0,
            builder_field_names(builder) == seq![id_field_name()] + names_of(field_names@),
            builder_indexed_i64_fields(builder) == set![0u32],
            names_of(field_names@) == ns.subrange(0, i as int),
            fields@.len() == i,
            forall|k: int| 0 <= k < i ==> #[trigger] fields@[k] == k + 1,
        decreases properties.len() - i,
    {
        let name = properties[i].clone();
        let ghost before = builder_field_names(builder);
        assert(ns[i as int] == name@);
        proof {
            if before.contains(name@) {
                let k = choose|k: int| 0 <= k < before.len() && before[k] == name@;
                if k > 0 {
                    assert(ns[k - 1] == name@);
                }
            }
        }
        let f = add_text_field(&mut builder, name.as_str());
        fields.push(f);
        field_names.push(name);
        proof {
            assert(names_of(field_names@) =~= ns.subrange(0, i + 1));
            assert(builder_field_names(builder) =~= seq![id_field_name()] + names_of(
                field_names@,
            ));
        }
        i += 1;
    }
    assert(ns.subrange(0, i as int) == ns);
    let schema = build_schema(builder);
    let dir = match open_directory(path.as_str()) {
        Ok(d) => d,
        Err(_) => {
            return Err(FtError::IOError);
        },
    };
    let index = match open_or_create_index(dir, &schema) {
        Ok(x) => x,
        Err(e) => {
            return Err(
                if is_schema_error(&e) {
                    FtError::SchemaMismatch
                } else {
                    FtError::IOError
                },
            );
        },
    };
    let writer = match open_writer(&index, WRITER_MEMORY_BUDGET) {
        Ok(w) => w,
        Err(_) => {
            return Err(FtError::IOError);
        },
    };
    let reader = match open_reader(&index) {
        Ok(rd) => rd,
        Err(_) => {
            return Err(FtError::IOError);
        },
    };
    Ok(
        Box::new(
            FTIndex {
                schema,
                index,
                writer,
                reader,
                id_field,
                fields,
                field_names,
            },
        ),
    )
}

/// What `ft_add_document` does: `post` is `pre` after adding document `id`
/// whose field `fields[k]` holds `values[k]`, and `r` is what it returned.
pub open spec fn add_outcome(
    pre: FTIndex,
    post: FTIndex,
    id: i64,
    fields: Seq<Seq<char>>,
    values: Seq<Seq<char>>,
    r: Result<(), FtError>,
) -> bool {
    &&& post.wf()
    &&& post.text_fields() == pre.text_fields()
    &&& post.committed() == pre.committed()
    &&& (r == Err::<(), FtError>(FtError::UnknownField) <==> exists|k: int|
        0 <= k < fields.len() && !pre.text_fields().contains(#[trigger] fields[k]))
    &&& (r == Err::<(), FtError>(FtError::UnknownField) ==> post.pending() == pre.pending())
    &&& (r is Ok ==> post.pending() == pre.pending().push(
        Mutation::Add { id, text: doc_text(fields, values) },
    ))
    &&& (r is Err ==> r->Err_0 == FtError::UnknownField || r->Err_0 == FtError::IOError)
    &&& (r == Err::<(), FtError>(FtError::IOError) ==> post.pending() == pre.pending().push(
        Mutation::Delete { id },
    ))
}

/// What `ft_delete_document` does: it queues the deletion and always succeeds.
pub open spec fn delete_outcome(pre: FTIndex, post: FTIndex, id: i64, r: Result<(), FtError>) -> bool {
    &&& post.wf()
    &&& post.text_fields() == pre.text_fields()
    &&& post.committed() == pre.committed()
    &&& post.pending() == pre.pending().push(Mutation::Delete { id })
    &&& r is Ok
}

/// What `ft_commit` does: on success, and when only the reload failed
/// (`IOError`), the pending mutations were sealed after the committed ones.
/// On `CommitError` tantivy leaves the writer's state open, so the handle is
/// no longer well formed: the index must be opened afresh.
pub open spec fn commit_outcome(pre: FTIndex, post: FTIndex, r: Result<(), FtError>) -> bool {
    &&& (r != Err::<(), FtError>(FtError::CommitError) ==> post.wf())
    &&& post.text_fields() == pre.text_fields()
    &&& (r is Ok || r == Err::<(), FtError>(FtError::IOError) ==> post.committed()
        == pre.committed() + pre.pending() && post.pending() == Seq::<Mutation>::empty())
    &&& (r is Err ==> r->Err_0 == FtError::CommitError || r->Err_0 == FtError::IOError)
}

/// The ids of `n` text fields: 1 to `n`.
pub open spec fn text_field_ids(n: nat) -> Seq<u32> {
    Seq::new(n, |i: int| (i + 1) as u32)
}

/// Search hits with the id that each hit's stored document holds in the key
/// field (id 0).
pub open spec fn hits_with_ids(s: Searcher, hits: Seq<(u32, u32, u32)>) -> Seq<IdScore> {
    hits.map_values(
        |h: (u32, u32, u32)| IdScore { id: stored_i64_of(s, h.1, h.2, 0u32)->0, score_bits: h.0 },
    )
}

/// `r` is the ranked cut at `top_n` of the hits that searching `query` over
/// every text field of `ft`'s index yields in some generation, each hit's
/// document holding an id.
pub open spec fn ranks_search_of(r: Seq<IdScore>, ft: FTIndex, query: Seq<char>, top_n: usize) -> bool {
    exists|s: Searcher, limit: usize|
        {
            let hits = search_hits(s, ft.index_handle(), text_field_ids(ft.text_fields().len()), query, limit);
            &&& forall|i: int| 0 <= i < hits.len() ==> (#[trigger] stored_i64_of(s, hits[i].1, hits[i].2, 0u32)) is Some
            &&& #[trigger] is_top_ranked(r, hits_with_ids(s, search_hits(s, ft.index_handle(), text_field_ids(ft.text_fields().len()), query, limit)), top_n as int)
        }
}

/// What `ft_query` does: it changes nothing in the model, rejects the empty
/// query, and returns a ranked list of at most `top_n` hits.
pub open spec fn query_outcome(
    pre: FTIndex,
    post: FTIndex,
    query: Seq<char>,
    top_n: usize,
    r: Result<Vec<IdScore>, FtError>,
) -> bool {
    &&& post.wf()
    &&& post.text_fields() == pre.text_fields()
    &&& post.pending() == pre.pending()
    &&& post.committed() == pre.committed()
    &&& (query.len() == 0 ==> r == Err::<Vec<IdScore>, FtError>(FtError::QueryParseError))
    &&& (r is Ok ==> r->Ok_0@.len() <= top_n && sorted_by_rank(r->Ok_0@))
    &&& (r is Ok ==> ranks_search_of(r->Ok_0@, pre, query, top_n))
    &&& (r is Err ==> r->Err_0 == FtError::QueryParseError || r->Err_0 == FtError::IOError)
}

/// Deleting an id that is live in no document, then committing, never fails
/// before the commit and leaves the live documents, over any earlier
/// generation `base`, exactly as the mutations before the delete left them.
pub proof fn law_delete_absent_then_commit(
    base: Map<i64, DocText>,
    a: FTIndex,
    b: FTIndex,
    c: FTIndex,
    id: i64,
    r_delete: Result<(), FtError>,
    r_commit: Result<(), FtError>,
)
    requires
        delete_outcome(a, b, id, r_delete),
        commit_outcome(b, c, r_commit),
        r_commit is Ok,
        !apply_mutations(base, a.committed() + a.pending()).contains_key(id),
    ensures
        r_delete is Ok,
        apply_mutations(base, c.committed()) == apply_mutations(base, a.committed() + a.pending()),
{
    assert(c.committed() =~= (a.committed() + a.pending()).push(Mutation::Delete { id }));
    lemma_delete_absent_is_noop(base, a.committed() + a.pending(), id);
}

/// Last write wins through the handle: a delete of `id`, then a successful add
/// of `id`, then a successful commit leave `id` live with the added text.
pub proof fn law_delete_add_commit(
    base: Map<i64, DocText>,
    a: FTIndex,
    b: FTIndex,
    c: FTIndex,
    d: FTIndex,
    id: i64,
    fields: Seq<Seq<char>>,
    values: Seq<Seq<char>>,
    r_delete: Result<(), FtError>,
    r_commit: Result<(), FtError>,
)
    requires
        delete_outcome(a, b, id, r_delete),
        add_outcome(b, c, id, fields, values, Ok(())),
        commit_outcome(c, d, r_commit),
        r_commit is Ok,
    ensures
        apply_mutations(base, d.committed()).contains_key(id),
        apply_mutations(base, d.committed())[id] == doc_text(fields, values),
{
    let text = doc_text(fields, values);
    let before = a.committed() + a.pending();
    assert(d.committed() =~= before.push(Mutation::Delete { id }).push(Mutation::Add { id, text }));
    lemma_last_write_wins(base, before, id, text);
}

/// Queues the document `id` with the given text: `fields[k]` holds
/// `valus[k]`. A document already stored under `id` is replaced: a deletion of
/// `id` is queued first, so that ids stay unique among live documents. When a
/// name is not a text field of the schema, nothing is queued.
pub fn ft_add_document(ft: &mut FTIndex, id: i64, fields: &Vec<String>, valus: &Vec<String>) -> (r:
    Result<(), FtError>)
    requires
        old(ft).wf(),
        fields.len() == valus.len(),
    ensures
        add_outcome(*old(ft), *final(ft), id, names_of(fields@), names_of(valus@), r),
{
    let ghost tf = ft.text_fields();
    let ghost fnames = names_of(fields@);
    let ghost vnames = names_of(valus@);
    let mut ids: Vec<u32> = Vec::new();
    let mut k: usize = 0;
    while k < fields.len()
        invariant
            ft.wf(),
            0 <= k <= fields.len(),
            ids@.len() == k,
            tf == ft.text_fields(),
            fnames == names_of(fields@),
            forall|a: int| 0 <= a < k ==> tf.contains(#[trigger] fnames[a]),
            forall|a: int|
                0 <= a < k ==> 1 <= #[trigger] ids@[a] <= tf.len() && tf[ids@[a] - 1] == fnames[a],
            *ft == *old(ft),
        decreases fields.len() - k,
    {
        assert(fnames[k as int] == fields@[k as int]@);
        match ft.text_field_id(&fields[k]) {
            Some(f) => ids.push(f),
            None => {
                return Err(FtError::UnknownField);
            },
        }
        k += 1;
    }
    let mut doc = new_document();
    document_add_i64(&mut doc, ft.id_field, id);
    let mut k: usize = 0;
    while k < ids.len()
        invariant
            0 <= k <= ids.len() == fields.len() == valus.len(),
            vnames == names_of(valus@),
            doc_i64_values(doc) == seq![(0u32, id)],
            doc_text_values(doc).len() == k,
            forall|a: int| 0 <= a < k ==> #[trigger] doc_text_values(doc)[a] == (ids@[a], vnames[a]),
        decreases ids.len() - k,
    {
        document_add_text(&mut doc, ids[k], valus[k].as_str());
        k += 1;
    }
    let ghost texts = doc_text_values(doc);
    let ghost old_queued = writer_queued(ft.writer);
    writer_delete_i64(&mut ft.writer, ft.id_field, id);
    match writer_add_document(&mut ft.writer, doc) {
        Ok(()) => {
            proof {
                let add = WriterOp::Add { ints: seq![(0u32, id)], texts };
                let del = WriterOp::DeleteI64 { field: 0, value: id };
                assert(writer_queued(ft.writer) == old_queued.push(del).push(add));
                assert(replaces(del, add));
                assert(writer_queued(ft.writer).drop_last().drop_last() =~= old_queued);
                assert(texts.map_values(|p: (u32, Seq<char>)| (tf[p.0 - 1], p.1)) =~= doc_text(
                    fnames,
                    vnames,
                ));
                assert(as_mutation(add, tf) == Mutation::Add { id, text: doc_text(fnames, vnames) });
                assert(ft.pending() =~= old(ft).pending().push(
                    Mutation::Add { id, text: doc_text(fnames, vnames) },
                ));
                assert(ft.committed() =~= old(ft).committed());
            }
            Ok(())
        },
        Err(_) => {
            assert(writer_queued(ft.writer).drop_last() =~= old_queued);
            assert(ft.pending() =~= old(ft).pending().push(Mutation::Delete { id }));
            assert(ft.committed() =~= old(ft).committed());
            Err(FtError::IOError)
        },
    }
}

/// Queues the deletion of the document `id`. Deleting an id that no live
/// document has is no error: it changes nothing at commit.
pub fn ft_delete_document(ft: &mut FTIndex, id: i64) -> (r: Result<(), FtError>)
    requires
        old(ft).wf(),
    ensures
        delete_outcome(*old(ft), *final(ft), id, r),
{
    let ghost q = writer_queued(ft.writer);
    writer_delete_i64(&mut ft.writer, ft.id_field, id);
    assert(writer_queued(ft.writer).drop_last() =~= q);
    assert(ft.pending() =~= old(ft).pending().push(Mutation::Delete { id }));
    assert(ft.committed() =~= old(ft).committed());
    Ok(())
}

/// Seals the queued mutations into a new generation and makes it the one that
/// queries see. On `IOError` the mutations were sealed but the reader could
/// not move to them.
pub fn ft_commit(ft: &mut FTIndex) -> (r: Result<(), FtError>)
    requires
        old(ft).wf(),
    ensures
        commit_outcome(*old(ft), *final(ft), r),
{
    let ghost sealed = writer_sealed(ft.writer);
    let ghost q = writer_queued(ft.writer);
    if writer_commit(&mut ft.writer).is_err() {
        return Err(FtError::CommitError);
    }
    proof {
        lemma_as_mutations_append(sealed, q, ft.text_fields());
    }
    assert(ft.committed() =~= old(ft).committed() + old(ft).pending());
    assert(ft.pending() =~= Seq::<Mutation>::empty());
    if reader_reload(&ft.reader).is_err() {
        return Err(FtError::IOError);
    }
    Ok(())
}

/// Runs `query` against every text field of the last generation the reader
/// moved to, and returns at most `options.top_n` of its matches: the first
/// ones by descending score bits and then ascending id. The empty query is a parse error, not a query that
/// matches everything.
pub fn ft_query(ft: &mut FTIndex, query: &String, options: &QueryOptions) -> (r: Result<
    Vec<IdScore>,
    FtError,
>)
    requires
        old(ft).wf(),
        options.top_n >= 1,
    ensures
        query_outcome(*old(ft), *final(ft), query@, options.top_n, r),
{
    if query.as_str().is_empty() {
        return Err(FtError::QueryParseError);
    }
    let searcher = reader_searcher(&ft.reader);
    // Every match is fetched, so that the cut at `top_n` follows the rank
    // order, ties included, rather than the order of tantivy's collector.
    let n_docs = searcher_num_docs(&searcher);
    let limit: usize = if n_docs == 0 {
        1
    } else if n_docs > u32::MAX as u64 {
        u32::MAX as usize
    } else {
        n_docs as usize
    };
    proof {
        assert(ft.fields@ =~= text_field_ids(ft.text_fields().len()));
    }
    let hits = match search_top(&searcher, &ft.index, &ft.fields, query.as_str(), limit) {
        Ok(Ok(hits)) => hits,
        Ok(Err(_)) => {
            return Err(FtError::IOError);
        },
        Err(_) => {
            return Err(FtError::QueryParseError);
        },
    };
    let mut found: Vec<IdScore> = Vec::new();
    let mut k: usize = 0;
    while k < hits.len()
        invariant
            0 <= k <= hits.len(),
            found@.len() == k,
            found@ == hits_with_ids(searcher, hits@.subrange(0, k as int)),
            forall|i: int|
                0 <= i < k ==> (#[trigger] stored_i64_of(searcher, hits@[i].1, hits@[i].2, 0u32)) is Some,
            forall|i: int|
                0 <= i < hits@.len() ==> (#[trigger] hits@[i]).1 < searcher_segment_count(searcher)
                    && hits@[i].2 < searcher_max_doc(searcher, hits@[i].1),
            options.top_n > 0,
            *ft == *old(ft),
            ft.wf(),
            query@.len() > 0,
        decreases hits.len() - k,
    {
        let (score_bits, segment, doc) = hits[k];
        match stored_i64(&searcher, segment, doc, ft.id_field) {
            Ok(Some(id)) => {
                found.push(IdScore { id, score_bits });
                assert(found@ =~= hits_with_ids(searcher, hits@.subrange(0, k + 1)));
            },
            _ => {
                return Err(FtError::IOError);
            },
        }
        k += 1;
    }
    let ranked = rank_hits(&found, options.top_n);
    proof {
        assert(hits@.subrange(0, hits@.len() as int) == hits@);
        assert(hits@ == search_hits(searcher, ft.index_handle(), text_field_ids(ft.text_fields().len()), query@, limit));
        assert(is_top_ranked(ranked@, hits_with_ids(searcher, search_hits(searcher, ft.index_handle(), text_field_ids(ft.text_fields().len()), query@, limit)), options.top_n as int));
    }
    Ok(ranked)
}

} // verus!
