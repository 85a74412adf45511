use vstd::prelude::*;

verus! {

/// The errors that the engine reports.
#[derive(Debug, Clone, Copy, PartialEq, Eq, Structural)]
pub enum FtError {
    /// The storage behind the index cannot be created, opened or read.
    IOError,
    /// The field names are not a valid schema, or differ from the schema on disk.
    SchemaMismatch,
    /// A mutation names a field that is not a text field of the schema.
    UnknownField,
    /// Sealing the buffered mutations into a new generation failed.
    CommitError,
    /// The query text is not a well-formed query.
    QueryParseError,
    /// The handle names no open index.
    UnknownHandle,
}

/// The text content of a document: (field name, value) pairs in the order given.
pub type DocText = Seq<(Seq<char>, Seq<char>)>;

/// A buffered operation on the index.
pub enum Mutation {
    Add { id: i64, text: DocText },
    Delete { id: i64 },
}

/// The live documents that result from applying `ops`, in order, to `live`.
/// An add replaces any document with the same id; a delete of an absent id
/// changes nothing.
pub open spec fn apply_mutations(live: Map<i64, DocText>, ops: Seq<Mutation>) -> Map<i64, DocText>
    decreases ops.len(),
{
    if ops.len() == 0 {
        live
    } else {
        let before = apply_mutations(live, ops.drop_last());
        match ops.last() {
            Mutation::Add { id, text } => before.insert(id, text),
            Mutation::Delete { id } => before.remove(id),
        }
    }
}

/// Deleting an id that is not live, then committing, leaves the live documents
/// (and so the set of live ids) exactly as they were.
pub proof fn lemma_delete_absent_is_noop(live: Map<i64, DocText>, ops: Seq<Mutation>, id: i64)
    requires
        !apply_mutations(live, ops).contains_key(id),
    ensures
        apply_mutations(live, ops.push(Mutation::Delete { id })) == apply_mutations(live, ops),
        apply_mutations(live, ops.push(Mutation::Delete { id })).dom() == apply_mutations(
            live,
            ops,
        ).dom(),
{
    let ops2 = ops.push(Mutation::Delete { id });
    assert(ops2.drop_last() == ops);
    assert(apply_mutations(live, ops).remove(id) =~= apply_mutations(live, ops));
}

/// Last write wins: after any buffered operations, a delete of `id` followed by
/// an add of `id` leaves `id` live with exactly the added text, and every other
/// id as the earlier operations left it.
pub proof fn lemma_last_write_wins(
    live: Map<i64, DocText>,
    ops: Seq<Mutation>,
    id: i64,
    text: DocText,
)
    ensures
        ({
            let after = apply_mutations(
                live,
                ops.push(Mutation::Delete { id }).push(Mutation::Add { id, text }),
            );
            &&& after.contains_key(id)
            &&& after[id] == text
            &&& forall|k: i64|
                k != id ==> (after.contains_key(k) == apply_mutations(live, ops).contains_key(k)
                    && (after.contains_key(k) ==> after[k] == apply_mutations(live, ops)[k]))
        }),
{
    let ops1 = ops.push(Mutation::Delete { id });
    let ops2 = ops1.push(Mutation::Add { id, text });
    assert(ops2.drop_last() == ops1);
    assert(ops1.drop_last() == ops);
    let before = apply_mutations(live, ops);
    assert(apply_mutations(live, ops1) == before.remove(id));
    assert(apply_mutations(live, ops2) == before.remove(id).insert(id, text));
}

/// The id that a mutation is about.
pub open spec fn mutation_id(m: Mutation) -> i64 {
    match m {
        Mutation::Add { id, .. } => id,
        Mutation::Delete { id } => id,
    }
}

/// A document that was added is live, with the added text, once the
/// mutations are applied, as long as no later mutation is about the same id.
pub proof fn lemma_committed_add_is_live(
    live: Map<i64, DocText>,
    before: Seq<Mutation>,
    id: i64,
    text: DocText,
    after: Seq<Mutation>,
)
    requires
        forall|i: int| 0 <= i < after.len() ==> mutation_id(#[trigger] after[i]) != id,
    ensures
        apply_mutations(live, before.push(Mutation::Add { id, text }) + after).contains_key(id),
        apply_mutations(live, before.push(Mutation::Add { id, text }) + after)[id] == text,
    decreases after.len(),
{
    let head = before.push(Mutation::Add { id, text });
    if after.len() == 0 {
        assert(head + after == head);
        assert(head.drop_last() == before);
    } else {
        let shorter = after.drop_last();
        assert forall|i: int| 0 <= i < shorter.len() implies mutation_id(#[trigger] shorter[i]) != id by {
            assert(shorter[i] == after[i]);
        }
        lemma_committed_add_is_live(live, before, id, text, shorter);
        assert((head + after).drop_last() == head + shorter);
        assert((head + after).last() == after.last());
        assert(mutation_id(after[after.len() - 1]) != id);
    }
}

} // verus!
