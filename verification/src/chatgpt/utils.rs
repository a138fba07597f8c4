//! Merging JSON objects.
use crate::foreign::{
    entries_view, json_entries, json_entries_of, json_is_object, json_set, json_value_is_object,
    json_with_field,
};
use serde_json::Value;
use vstd::prelude::*;

verus! {

/// `v` with the fields of `entries` set in turn, later ones over earlier ones.
pub open spec fn json_with_fields(v: Value, entries: Seq<(Seq<char>, Value)>) -> Value
    decreases entries.len(),
{
    if entries.len() == 0 {
        v
    } else {
        json_with_field(
            json_with_fields(v, entries.drop_last()),
            entries.last().0,
            entries.last().1,
        )
    }
}

/// `into` merged with `from`: when both are JSON objects, each entry of `from`
/// set in `into`; otherwise `into` unchanged.
pub open spec fn json_merged(into: Value, from: Value) -> Value {
    if json_value_is_object(into) && json_value_is_object(from) {
        json_with_fields(into, json_entries_of(from))
    } else {
        into
    }
}

/// Copies each entry of `from` into `into` when both are JSON objects.
pub fn merge_json(into: &mut Value, from: &Value)
    ensures
        *final(into) == json_merged(*old(into), *from),
        json_value_is_object(*old(into)) ==> json_value_is_object(*final(into)),
{
    if !json_is_object(&*into) {
        return;
    }
    match json_entries(from) {
        None => {},
        Some(entries) => {
            let ghost start = *into;
            let ghost e = entries_view(entries@);
            let mut i: usize = 0;
            assert(e.take(0) =~= Seq::<(Seq<char>, Value)>::empty());
            while i < entries.len()
                invariant
                    i <= entries@.len(),
                    e == entries_view(entries@),
                    json_value_is_object(*into),
                    *into == json_with_fields(start, e.take(i as int)),
                decreases entries@.len() - i,
            {
                let (key, value) = &entries[i];
                json_set(into, key.as_str(), value.clone());
                proof {
                    assert(e.take(i + 1).drop_last() =~= e.take(i as int));
                    assert(e.take(i + 1).last() == e[i as int]);
                }
                i = i + 1;
            }
            assert(e.take(entries@.len() as int) =~= e);
        },
    }
}

} // verus!
