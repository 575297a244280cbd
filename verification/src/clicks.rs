use vstd::prelude::*;
use vstd::string::*;

use crate::error::Failure;
use crate::grid::all_valid;
use crate::grid::Grid;
use crate::json::entries_view;
use crate::json::entry_view;
use crate::json::json_objects;
use crate::json::json_text;
use crate::json::objects_view;
use crate::json::parse_objects;
use crate::json::write_objects;
use crate::json::Entry;
use crate::json::EntryView;
use crate::text::str_eq;

verus! {

/// The member that stands for `cell` in the click file: the name of the
/// region as key, with the indices of the cell; the craft output has
/// none and holds `null`.
pub open spec fn record_of(cell: Grid) -> EntryView {
    match cell {
        Grid::Table(x, y) => ("Table"@, Some(seq![x, y])),
        Grid::Craft => ("Craft"@, None),
        Grid::Inv(x, y) => ("Inv"@, Some(seq![x, y])),
        Grid::Hotbar(x) => ("Hotbar"@, Some(seq![x])),
    }
}

/// The members that stand for `cells`, in the same order.
pub open spec fn encode(cells: Seq<Grid>) -> Seq<EntryView> {
    cells.map_values(|cell: Grid| record_of(cell))
}

/// The cell that the key and the indices of a member describe, whether
/// or not it lies inside its region.
pub open spec fn shape_of(member: EntryView) -> Option<Grid> {
    if member.0 == "Table"@ {
        match member.1 {
            Some(v) if v.len() == 2 => Some(Grid::Table(v[0], v[1])),
            _ => None,
        }
    } else if member.0 == "Craft"@ {
        match member.1 {
            None => Some(Grid::Craft),
            _ => None,
        }
    } else if member.0 == "Inv"@ {
        match member.1 {
            Some(v) if v.len() == 2 => Some(Grid::Inv(v[0], v[1])),
            _ => None,
        }
    } else if member.0 == "Hotbar"@ {
        match member.1 {
            Some(v) if v.len() == 1 => Some(Grid::Hotbar(v[0])),
            _ => None,
        }
    } else {
        None
    }
}

/// The cell that a member stands for: its key names a region, it holds
/// as many indices as the region asks for, and the indices lie inside
/// the region.
pub open spec fn cell_of(member: EntryView) -> Option<Grid> {
    match shape_of(member) {
        Some(cell) if cell.wf() => Some(cell),
        _ => None,
    }
}

/// The cell that an object of the click file stands for: the object
/// has one member, and that member stands for a cell.
pub open spec fn object_cell(object: Seq<EntryView>) -> Option<Grid> {
    if object.len() == 1 {
        cell_of(object[0])
    } else {
        None
    }
}

/// The click sequence that the parsed click file holds: every object
/// has to stand for a cell, else the file is malformed, as is one that
/// could not be parsed.
pub open spec fn decode(parsed: Option<Seq<Seq<EntryView>>>) -> Result<Seq<Grid>, Failure> {
    match parsed {
        Some(objects) => if forall|i: int|
            0 <= i < objects.len() ==> object_cell(#[trigger] objects[i]) is Some {
            Ok(objects.map_values(|object: Seq<EntryView>| object_cell(object)->0))
        } else {
            Err(Failure::Serialization)
        },
        None => Err(Failure::Serialization),
    }
}

/// The member that stands for `cell` in the click file.
pub fn to_entry(cell: Grid) -> (entry: Entry)
    ensures
        entry_view(entry) == record_of(cell),
{
    let mut indices: Vec<u8> = Vec::new();
    match cell {
        Grid::Table(x, y) => {
            indices.push(x);
            indices.push(y);
            assert(indices@ =~= seq![x, y]);
            (String::from_str("Table"), Some(indices))
        },
        Grid::Craft => (String::from_str("Craft"), None),
        Grid::Inv(x, y) => {
            indices.push(x);
            indices.push(y);
            assert(indices@ =~= seq![x, y]);
            (String::from_str("Inv"), Some(indices))
        },
        Grid::Hotbar(x) => {
            indices.push(x);
            assert(indices@ =~= seq![x]);
            (String::from_str("Hotbar"), Some(indices))
        },
    }
}

/// The cell that a member stands for, if it stands for one.
pub fn from_entry(entry: &Entry) -> (r: Option<Grid>)
    ensures
        r == cell_of(entry_view(*entry)),
{
    let key = entry.0.as_str();
    let cell = if str_eq(key, "Table") {
        match &entry.1 {
            Some(v) if v.len() == 2 => Grid::Table(v[0], v[1]),
            _ => {
                return None;
            },
        }
    } else if str_eq(key, "Craft") {
        match &entry.1 {
            None => Grid::Craft,
            _ => {
                return None;
            },
        }
    } else if str_eq(key, "Inv") {
        match &entry.1 {
            Some(v) if v.len() == 2 => Grid::Inv(v[0], v[1]),
            _ => {
                return None;
            },
        }
    } else if str_eq(key, "Hotbar") {
        match &entry.1 {
            Some(v) if v.len() == 1 => Grid::Hotbar(v[0]),
            _ => {
                return None;
            },
        }
    } else {
        return None;
    };
    if cell.is_valid() {
        Some(cell)
    } else {
        None
    }
}

/// The click sequence that parsed objects hold, or the error for a
/// malformed file where one of them stands for no cell.
pub fn decode_objects(objects: &Vec<Vec<Entry>>) -> (r: Result<Vec<Grid>, Failure>)
    ensures
        match r {
            Ok(cells) => decode(Some(objects_view(objects@))) == Ok::<Seq<Grid>, Failure>(cells@)
                && all_valid(cells@),
            Err(e) => decode(Some(objects_view(objects@))) == Err::<Seq<Grid>, Failure>(e),
        },
{
    let ghost views = objects_view(objects@);
    let mut cells: Vec<Grid> = Vec::new();
    let mut i: usize = 0;
    while i < objects.len()
        invariant
            i <= objects.len(),
            views == objects_view(objects@),
            cells@.len() == i,
            forall|k: int| 0 <= k < i ==> object_cell(#[trigger] views[k]) == Some(cells@[k]),
            all_valid(cells@),
        decreases objects.len() - i,
    {
        let object = &objects[i];
        assert(views[i as int] == entries_view(object@));
        if object.len() != 1 {
            return Err(Failure::Serialization);
        }
        assert(entries_view(object@)[0] == entry_view(object@[0]));
        match from_entry(&object[0]) {
            Some(cell) => {
                cells.push(cell);
            },
            None => {
                return Err(Failure::Serialization);
            },
        }
        i += 1;
    }
    assert(cells@ =~= views.map_values(|object: Seq<EntryView>| object_cell(object)->0));
    Ok(cells)
}

/// Reads a click sequence from the text of a click file: a JSON array
/// with one object per cell, `{"Table":[x,y]}`, `{"Craft":null}`,
/// `{"Inv":[x,y]}` or `{"Hotbar":[x]}`. An object that repeats its key
/// is read with the last of the repeated members alone.
pub fn load_clicks(text: &str) -> (r: Result<Vec<Grid>, Failure>)
    ensures
        match r {
            Ok(cells) => decode(json_objects(text@)) == Ok::<Seq<Grid>, Failure>(cells@) && all_valid(
                cells@,
            ),
            Err(e) => decode(json_objects(text@)) == Err::<Seq<Grid>, Failure>(e),
        },
{
    match parse_objects(text) {
        Ok(objects) => decode_objects(&objects),
        Err(_) => Err(Failure::Serialization),
    }
}

/// The members that stand for `cells` in the click file.
pub fn encode_cells(cells: &Vec<Grid>) -> (members: Vec<Entry>)
    ensures
        entries_view(members@) == encode(cells@),
{
    let mut members: Vec<Entry> = Vec::new();
    let mut i: usize = 0;
    while i < cells.len()
        invariant
            i <= cells.len(),
            entries_view(members@) == encode(cells@.take(i as int)),
        decreases cells.len() - i,
    {
        let ghost before = members@;
        let member = to_entry(cells[i]);
        members.push(member);
        proof {
            assert(cells@.take(i + 1) =~= cells@.take(i as int).push(cells@[i as int]));
            assert(entries_view(members@) =~= entries_view(before).push(entry_view(member)));
            assert(encode(cells@.take(i + 1)) =~= encode(cells@.take(i as int)).push(
                record_of(cells@[i as int]),
            ));
        }
        i += 1;
    }
    assert(cells@.take(i as int) =~= cells@);
    members
}

/// Writes a click sequence as the text of a click file.
pub fn save_clicks(cells: &Vec<Grid>) -> (r: Result<String, Failure>)
    ensures
        match r {
            Ok(text) => json_text(encode(cells@)) == Some(text@),
            Err(e) => e == Failure::Serialization && json_text(encode(cells@)) is None,
        },
{
    let members = encode_cells(cells);
    match write_objects(&members) {
        Ok(text) => Ok(text),
        Err(_) => Err(Failure::Serialization),
    }
}

/// The objects of the click file that `cells` are written to: one
/// object per cell, with the member of the cell alone.
pub open spec fn written(cells: Seq<Grid>) -> Seq<Seq<EntryView>> {
    cells.map_values(|cell: Grid| seq![record_of(cell)])
}

/// A sequence of cells that lie inside their regions is read back from
/// the objects that it is written to.
pub proof fn lemma_written_is_read_back(cells: Seq<Grid>)
    requires
        all_valid(cells),
    ensures
        decode(Some(written(cells))) == Ok::<Seq<Grid>, Failure>(cells),
{
    reveal_strlit("Table");
    reveal_strlit("Craft");
    reveal_strlit("Inv");
    reveal_strlit("Hotbar");
    let objects = written(cells);
    assert forall|i: int| 0 <= i < objects.len() implies object_cell(#[trigger] objects[i])
        == Some(cells[i]) by {
        let cell = cells[i];
        assert(cell.wf());
        assert(objects[i] == seq![record_of(cell)]);
        assert("Table"@ != "Craft"@ && "Table"@ != "Inv"@ && "Table"@ != "Hotbar"@) by {
            assert("Table"@[0] == 'T' && "Craft"@[0] == 'C' && "Inv"@[0] == 'I' && "Hotbar"@[0]
                == 'H');
        }
        assert("Craft"@ != "Inv"@ && "Craft"@ != "Hotbar"@ && "Inv"@ != "Hotbar"@) by {
            assert("Craft"@[0] == 'C' && "Inv"@[0] == 'I' && "Hotbar"@[0] == 'H');
        }
        assert(shape_of(record_of(cell)) == Some(cell));
    }
    assert(objects.map_values(|object: Seq<EntryView>| object_cell(object)->0) =~= cells);
}

/// Whatever a click file holds, the cells that are read from it lie
/// inside their regions, and there is one cell per object.
pub proof fn lemma_read_cells_are_valid(parsed: Option<Seq<Seq<EntryView>>>)
    ensures
        decode(parsed) matches Ok(cells) ==> all_valid(cells) && cells.len() == parsed->0.len(),
{
}

} // verus!
