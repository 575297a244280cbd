use vstd::prelude::*;

verus! {

/// A member of a JSON object of the click file: its key, and the small
/// numbers of the array it holds, or `None` where it holds `null`.
pub type Entry = (String, Option<Vec<u8>>);

/// Mathematical model of [`Entry`].
pub type EntryView = (Seq<char>, Option<Seq<u8>>);

/// The model of a member.
pub open spec fn entry_view(entry: Entry) -> EntryView {
    (
        entry.0@,
        match entry.1 {
            Some(values) => Some(values@),
            None => None,
        },
    )
}

/// The models of the members, in the same order.
pub open spec fn entries_view(entries: Seq<Entry>) -> Seq<EntryView> {
    entries.map_values(|entry: Entry| entry_view(entry))
}

/// The models of the objects, in the same order.
pub open spec fn objects_view(objects: Seq<Vec<Entry>>) -> Seq<Seq<EntryView>> {
    objects.map_values(|object: Vec<Entry>| entries_view(object@))
}

/// The error type of `serde_json`.
#[verifier::external_type_specification]
#[verifier::external_body]
pub struct ExJsonError(serde_json::Error);

/// What `serde_json::from_str` reads from `text` as an array of objects
/// whose members hold arrays of numbers from 0 to 255 or `null`: for
/// each object its members in the order of their keys; `None` where
/// the text is no such array. The members of an object are collected
/// in a map, so of several members with one key only the last is kept:
/// an object that repeats a key is read as if it held that last member
/// once.
pub uninterp spec fn json_objects(text: Seq<char>) -> Option<Seq<Seq<EntryView>>>;

/// What `serde_json::to_string` writes for the array that holds one
/// object per member of `members`, with that member alone; `None`
/// where it fails.
pub uninterp spec fn json_text(members: Seq<EntryView>) -> Option<Seq<char>>;

/// `serde_json::from_str`, at the type of an array of objects whose
/// members hold arrays of numbers from 0 to 255 or `null`. The result
/// depends on the text alone and is the one that [`json_objects`] names;
/// a key that an object repeats comes out once, with its last value.
#[verifier::external_body]
pub(crate) fn parse_objects(text: &str) -> (r: Result<Vec<Vec<Entry>>, serde_json::Error>)
    ensures
        match r {
            Ok(objects) => json_objects(text@) == Some(objects_view(objects@)),
            Err(_) => json_objects(text@) is None,
        },
{
    let parsed: Vec<std::collections::BTreeMap<String, Option<Vec<u8>>>> = serde_json::from_str(
        text,
    )?;
    Ok(parsed.into_iter().map(|object| object.into_iter().collect()).collect())
}

/// `serde_json::to_string`, on the array that holds one object per
/// member of `members`, with that member alone. The result depends on
/// the members alone and is the one that [`json_text`] names.
#[verifier::external_body]
pub(crate) fn write_objects(members: &Vec<Entry>) -> (r: Result<String, serde_json::Error>)
    ensures
        match r {
            Ok(text) => json_text(entries_view(members@)) == Some(text@),
            Err(_) => json_text(entries_view(members@)) is None,
        },
{
    let objects: Vec<std::collections::BTreeMap<&String, &Option<Vec<u8>>>> = members.iter().map(
        |member| std::collections::BTreeMap::from([(&member.0, &member.1)]),
    ).collect();
    serde_json::to_string(&objects)
}

} // verus!
