//! A plain tree representation of JSON documents.
//!
//! Persisted state and configuration arrive from disk as JSON. The engine
//! interprets documents through this tree, so that schema detection and
//! migration are ordinary verified code; the caller turns raw text into a
//! tree (and back) at the boundary.

use vstd::prelude::*;

use crate::strutil;

verus! {

/// One JSON value. Numbers the engine cares about are unsigned integers;
/// anything else a document may hold (floats, huge numbers) is represented as
/// `Unsupported`, which matches no schema.
#[derive(Debug)]
pub enum JsonValue {
    Null,
    Bool(bool),
    Int(u64),
    Str(String),
    Arr(Vec<JsonValue>),
    Obj(Vec<(String, JsonValue)>),
    Unsupported,
}

/// The value under the first field named `key`, if any.
pub open spec fn obj_lookup(fields: Seq<(String, JsonValue)>, key: Seq<char>) -> Option<
    JsonValue,
>
    decreases fields.len(),
{
    if fields.len() == 0 {
        None
    } else if fields[0].0@ == key {
        Some(fields[0].1)
    } else {
        obj_lookup(fields.skip(1), key)
    }
}

pub proof fn lemma_obj_lookup_skip(fields: Seq<(String, JsonValue)>, key: Seq<char>, i: int)
    requires
        0 <= i <= fields.len(),
        forall|j: int| 0 <= j < i ==> (#[trigger] fields[j]).0@ != key,
    ensures
        obj_lookup(fields, key) == obj_lookup(fields.skip(i), key),
    decreases i,
{
    if i == 0 {
        assert(fields.skip(0) =~= fields);
    } else {
        lemma_obj_lookup_skip(fields, key, i - 1);
        let rest = fields.skip(i - 1);
        assert(rest.len() > 0);
        assert(rest[0] == fields[i - 1]);
        assert(fields[i - 1].0@ != key);
        assert(obj_lookup(rest, key) == obj_lookup(rest.skip(1), key));
        assert(rest.skip(1) =~= fields.skip(i));
    }
}


/// Finds the first field named `key`.
pub fn obj_get<'a>(fields: &'a Vec<(String, JsonValue)>, key: &str) -> (r: Option<
    &'a JsonValue,
>)
    ensures
        match r {
            Some(v) => obj_lookup(fields@, key@) == Some(*v),
            None => obj_lookup(fields@, key@) is None,
        },
{
    let mut i: usize = 0;
    while i < fields.len()
        invariant
            i <= fields.len(),
            forall|j: int| 0 <= j < i ==> (#[trigger] fields@[j]).0@ != key@,
        decreases fields.len() - i,
    {
        if strutil::str_eq(fields[i].0.as_str(), key) {
            proof {
                lemma_obj_lookup_skip(fields@, key@, i as int);
                assert(fields@.skip(i as int)[0] == fields@[i as int]);
            }
            return Some(&fields[i].1);
        }
        i += 1;
    }
    proof {
        lemma_obj_lookup_skip(fields@, key@, fields@.len() as int);
        assert(fields@.skip(fields@.len() as int).len() == 0);
    }
    None
}

} // verus!
