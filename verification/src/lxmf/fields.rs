//! Which of a message's fields carry the app's custom type and data. Fields
//! the app does not model are passed over.

use vstd::prelude::*;

verus! {

/// The position of the last field with this id, if any.
pub open spec fn last_with(ids: Seq<u8>, id: u8) -> Option<int> {
    if exists|i: int| 0 <= i < ids.len() && ids[i] == id {
        Some(choose|i: int| 0 <= i < ids.len() && ids[i] == id && forall|j: int| i < j < ids.len() ==> ids[j] != id)
    } else {
        None
    }
}

/// The last field with `id`: where a message carries a field twice, the later
/// one is what it says.
fn last_field(ids: &Vec<u8>, id: u8) -> (res: Option<usize>)
    ensures
        match res {
            Some(i) => i < ids@.len() && ids@[i as int] == id && forall|j: int| i < j < ids@.len() ==> ids@[j] != id,
            None => forall|j: int| 0 <= j < ids@.len() ==> ids@[j] != id,
        },
{
    let mut found: Option<usize> = None;
    let mut i: usize = 0;
    while i < ids.len()
        invariant
            0 <= i <= ids@.len(),
            match found {
                Some(k) => k < i && ids@[k as int] == id && forall|j: int| k < j < i ==> ids@[j] != id,
                None => forall|j: int| 0 <= j < i ==> ids@[j] != id,
            },
        decreases ids@.len() - i,
    {
        if ids[i] == id {
            found = Some(i);
        }
        i += 1;
    }
    found
}

/// Where the custom type and the custom data stand among fields with these
/// ids: the last field of each id, or none.
pub fn custom_fields(ids: &Vec<u8>, type_id: u8, data_id: u8) -> (res: (Option<usize>, Option<usize>))
    ensures
        res.0 matches Some(i) ==> last_with(ids@, type_id) == Some(i as int),
        res.0 is None ==> last_with(ids@, type_id) is None,
        res.1 matches Some(i) ==> last_with(ids@, data_id) == Some(i as int),
        res.1 is None ==> last_with(ids@, data_id) is None,
{
    let t = last_field(ids, type_id);
    let d = last_field(ids, data_id);
    proof {
        lemma_last(ids@, type_id, t);
        lemma_last(ids@, data_id, d);
    }
    (t, d)
}

proof fn lemma_last(ids: Seq<u8>, id: u8, found: Option<usize>)
    requires
        match found {
            Some(i) => i < ids.len() && ids[i as int] == id && forall|j: int| i < j < ids.len() ==> ids[j] != id,
            None => forall|j: int| 0 <= j < ids.len() ==> ids[j] != id,
        },
    ensures
        found matches Some(i) ==> last_with(ids, id) == Some(i as int),
        found is None ==> last_with(ids, id) is None,
{
    if let Some(i) = found {
        assert(ids[i as int] == id);
        let c = choose|c: int| 0 <= c < ids.len() && ids[c] == id && forall|j: int| c < j < ids.len() ==> ids[j] != id;
        if c < i {
            assert(ids[i as int] != id);
        } else if c > i {
            assert(ids[c] != id);
        }
    }
}

} // verus!
