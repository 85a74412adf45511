use vstd::prelude::*;

use crate::model::FtError;

verus! {

/// The name of the integer key field that every schema holds.
pub const ID_FIELD_NAME: &'static str = "id";

pub open spec fn id_field_name() -> Seq<char> {
    seq!['i', 'd']
}

/// The names of a list of strings, as character sequences.
pub open spec fn names_of(v: Seq<String>) -> Seq<Seq<char>> {
    v.map_values(|s: String| s@)
}

/// A name that a text field may take: not empty, not starting with '-', and
/// not the name of the key field.
pub open spec fn valid_text_field_name(n: Seq<char>) -> bool {
    &&& n.len() > 0
    &&& n[0] != '-'
    &&& n != id_field_name()
}

/// A list of text field names that makes a schema: at least one name, each
/// valid, no two equal.
pub open spec fn valid_field_names(ns: Seq<Seq<char>>) -> bool {
    &&& ns.len() > 0
    &&& forall|i: int| 0 <= i < ns.len() ==> valid_text_field_name(#[trigger] ns[i])
    &&& forall|i: int, j: int| 0 <= i < j < ns.len() ==> ns[i] != ns[j]
}

fn starts_with_dash(s: &String) -> (r: bool)
    ensures
        r == (s@.len() > 0 && s@[0] == '-'),
{
    broadcast use vstd::string::axiom_spec_iter, vstd::string::next_postcondition;

    let mut it = s.as_str().chars();
    match it.next() {
        Some(c) => c == '-',
        None => false,
    }
}

fn is_valid_text_field_name(s: &String) -> (r: bool)
    ensures
        r == valid_text_field_name(s@),
{
    let id = ID_FIELD_NAME.to_string();
    proof {
        reveal_strlit("id");
        assert(id@ =~= id_field_name());
    }
    if s.as_str().is_empty() {
        return false;
    }
    !starts_with_dash(s) && *s != id
}

/// Checks that `names` can serve as the text fields of a schema.
pub fn validate_field_names(names: &Vec<String>) -> (r: Result<(), FtError>)
    ensures
        r is Ok <==> valid_field_names(names_of(names@)),
        r is Err ==> r == Err::<(), FtError>(FtError::SchemaMismatch),
{
    let ghost ns = names_of(names@);
    if names.len() == 0 {
        return Err(FtError::SchemaMismatch);
    }
    let mut i: usize = 0;
    while i < names.len()
        invariant
            0 <= i <= names.len(),
            ns == names_of(names@),
            forall|a: int| 0 <= a < i ==> valid_text_field_name(#[trigger] ns[a]),
            forall|a: int, b: int| 0 <= a < b < ns.len() && a < i ==> ns[a] != ns[b],
        decreases names.len() - i,
    {
        assert(ns[i as int] == names@[i as int]@);
        if !is_valid_text_field_name(&names[i]) {
            return Err(FtError::SchemaMismatch);
        }
        let mut j: usize = i + 1;
        while j < names.len()
            invariant
                i < j <= names.len(),
                ns == names_of(names@),
                forall|b: int| i < b < j ==> ns[i as int] != #[trigger] ns[b],
            decreases names.len() - j,
        {
            assert(ns[j as int] == names@[j as int]@);
            if names[i] == names[j] {
                assert(!(ns[i as int] != ns[j as int]));
                return Err(FtError::SchemaMismatch);
            }
            j += 1;
        }
        i += 1;
    }
    Ok(())
}

} // verus!
