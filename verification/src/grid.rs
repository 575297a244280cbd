use vstd::prelude::*;

use crate::coord::Coord;
use crate::error::Failure;
use crate::error::ValidationError;
use crate::io::Action;

verus! {

/// Edge length of a cell in pixels, the same in every region.
pub const CELL_SIZE: i32 = 54;

/// One of the four fixed screen zones that hold clickable cells.
#[derive(Clone, Copy, Debug, PartialEq, Eq, Structural)]
pub enum Region {
    /// The crafting table, 3 by 3 cells.
    Table,
    /// The single craft output cell.
    Craft,
    /// The inventory, 9 by 3 cells.
    Inv,
    /// The hotbar, 9 by 1 cells.
    Hotbar,
}

/// A cell of one of the regions, with its indices inside the region.
#[derive(Clone, Copy, Debug, PartialEq, Eq, Structural)]
pub enum Grid {
    Table(u8, u8),
    Craft,
    Inv(u8, u8),
    Hotbar(u8),
}

impl Region {
    /// Pixel position of the region's top left corner.
    pub open spec fn spec_origin(self) -> Coord {
        match self {
            Region::Table => Coord(783, 339),
            Region::Craft => Coord(1065, 393),
            Region::Inv => Coord(717, 540),
            Region::Hotbar => Coord(717, 714),
        }
    }

    /// Number of cells along each axis.
    pub open spec fn spec_dims(self) -> (u8, u8) {
        match self {
            Region::Table => (3, 3),
            Region::Craft => (1, 1),
            Region::Inv => (9, 3),
            Region::Hotbar => (9, 1),
        }
    }

    /// First pixel position beyond the region in both axes.
    pub open spec fn spec_end(self) -> Coord {
        Coord(
            (self.spec_origin().0 + CELL_SIZE * self.spec_dims().0) as i32,
            (self.spec_origin().1 + CELL_SIZE * self.spec_dims().1) as i32,
        )
    }

    /// Whether `p` lies in the region's half-open rectangle.
    pub open spec fn contains(self, p: Coord) -> bool {
        p.contained(self.spec_origin(), self.spec_end())
    }

    /// Whether `p` lies on the one pixel wide frame around the region:
    /// one unit before the lower bound or exactly at the upper bound in
    /// at least one axis.
    pub open spec fn on_frame(self, p: Coord) -> bool {
        let o = self.spec_origin();
        let e = self.spec_end();
        &&& o.0 - 1 <= p.0 <= e.0
        &&& o.1 - 1 <= p.1 <= e.1
        &&& (p.0 == o.0 - 1 || p.0 == e.0 || p.1 == o.1 - 1 || p.1 == e.1)
    }

    /// Pixel position of the region's top left corner.
    pub fn origin(&self) -> (r: Coord)
        ensures
            r == self.spec_origin(),
    {
        match self {
            Region::Table => Coord(783, 339),
            Region::Craft => Coord(1065, 393),
            Region::Inv => Coord(717, 540),
            Region::Hotbar => Coord(717, 714),
        }
    }

    /// Number of cells along each axis.
    pub fn dims(&self) -> (r: (u8, u8))
        ensures
            r == self.spec_dims(),
    {
        match self {
            Region::Table => (3, 3),
            Region::Craft => (1, 1),
            Region::Inv => (9, 3),
            Region::Hotbar => (9, 1),
        }
    }

    /// First pixel position beyond the region in both axes.
    pub fn end(&self) -> (r: Coord)
        ensures
            r == self.spec_end(),
    {
        let (w, h) = self.dims();
        assert(w <= 9 && h <= 3 && CELL_SIZE == 54);
        assert(0 <= CELL_SIZE * (w as i32) <= 54 * 9 && 0 <= CELL_SIZE * (h as i32) <= 54 * 3);
        self.origin().add(Coord(CELL_SIZE, CELL_SIZE).emul(w as i32, h as i32))
    }
}

impl Grid {
    /// The region the cell belongs to.
    pub open spec fn region(self) -> Region {
        match self {
            Grid::Table(_, _) => Region::Table,
            Grid::Craft => Region::Craft,
            Grid::Inv(_, _) => Region::Inv,
            Grid::Hotbar(_) => Region::Hotbar,
        }
    }

    /// Column and row of the cell inside its region.
    pub open spec fn indices(self) -> (u8, u8) {
        match self {
            Grid::Table(x, y) => (x, y),
            Grid::Craft => (0, 0),
            Grid::Inv(x, y) => (x, y),
            Grid::Hotbar(x) => (x, 0),
        }
    }

    /// The cell of `region` in column `x` and row `y`.
    pub open spec fn cell(region: Region, x: u8, y: u8) -> Grid {
        match region {
            Region::Table => Grid::Table(x, y),
            Region::Craft => Grid::Craft,
            Region::Inv => Grid::Inv(x, y),
            Region::Hotbar => Grid::Hotbar(x),
        }
    }

    /// The indices lie inside the region's cell count.
    pub open spec fn wf(self) -> bool {
        &&& self.indices().0 < self.region().spec_dims().0
        &&& self.indices().1 < self.region().spec_dims().1
    }

    /// Pixel position of the middle of the cell.
    pub open spec fn center(self) -> Coord {
        let o = self.region().spec_origin();
        Coord(
            (o.0 + CELL_SIZE * self.indices().0 + CELL_SIZE / 2) as i32,
            (o.1 + CELL_SIZE * self.indices().1 + CELL_SIZE / 2) as i32,
        )
    }

    /// The cell of `region` that `p` falls into, for `p` inside the region.
    pub open spec fn cell_at(region: Region, p: Coord) -> Grid {
        let o = region.spec_origin();
        Grid::cell(region, ((p.0 - o.0) / (CELL_SIZE as int)) as u8, ((p.1 - o.1) / (CELL_SIZE as int)) as u8)
    }

    /// The cell that holds `p`: the regions are tried in the order table,
    /// craft output, inventory, hotbar, and the first that contains `p`
    /// decides.
    pub open spec fn locate(p: Coord) -> Option<Grid> {
        if Region::Table.contains(p) {
            Some(Grid::cell_at(Region::Table, p))
        } else if Region::Craft.contains(p) {
            Some(Grid::cell_at(Region::Craft, p))
        } else if Region::Inv.contains(p) {
            Some(Grid::cell_at(Region::Inv, p))
        } else if Region::Hotbar.contains(p) {
            Some(Grid::cell_at(Region::Hotbar, p))
        } else {
            None
        }
    }

    /// Whether the indices lie inside the region's cell count.
    pub fn is_valid(&self) -> (r: bool)
        ensures
            r == self.wf(),
    {
        match self {
            Grid::Table(x, y) => *x < 3 && *y < 3,
            Grid::Craft => true,
            Grid::Inv(x, y) => *x < 9 && *y < 3,
            Grid::Hotbar(x) => *x < 9,
        }
    }

    /// Pixel position of the middle of the cell.
    pub fn to_coord(&self) -> (r: Coord)
        ensures
            r == self.center(),
    {
        let (origin, x, y) = match self {
            Grid::Table(x, y) => (Region::Table.origin(), *x, *y),
            Grid::Craft => (Region::Craft.origin(), 0u8, 0u8),
            Grid::Inv(x, y) => (Region::Inv.origin(), *x, *y),
            Grid::Hotbar(x) => (Region::Hotbar.origin(), *x, 0u8),
        };
        let size = Coord(CELL_SIZE, CELL_SIZE);
        assert(size.0 == 54 && size.1 == 54);
        assert(0 <= size.0 * (x as i32) <= 54 * 255 && 0 <= size.1 * (y as i32) <= 54 * 255);
        origin.add(size.emul(x as i32, y as i32)).add(size.div(2))
    }

    /// The cell that holds `p`, or `NotOnGrid` where no region contains it.
    pub fn from_coord(p: &Coord) -> (r: Result<Grid, Failure>)
        ensures
            r == match Grid::locate(*p) {
                Some(cell) => Ok::<Grid, Failure>(cell),
                None => Err::<Grid, Failure>(Failure::Validation(ValidationError::NotOnGrid)),
            },
            r matches Ok(cell) ==> cell.wf(),
    {
        let size = Coord(CELL_SIZE, CELL_SIZE);
        if p.is_contained(Region::Table.origin(), Region::Table.end()) {
            let Coord(x, y) = p.sub(Region::Table.origin()).ediv(size);
            Ok(Grid::Table(x as u8, y as u8))
        } else if p.is_contained(Region::Craft.origin(), Region::Craft.end()) {
            Ok(Grid::Craft)
        } else if p.is_contained(Region::Inv.origin(), Region::Inv.end()) {
            let Coord(x, y) = p.sub(Region::Inv.origin()).ediv(size);
            Ok(Grid::Inv(x as u8, y as u8))
        } else if p.is_contained(Region::Hotbar.origin(), Region::Hotbar.end()) {
            let Coord(x, _) = p.sub(Region::Hotbar.origin()).ediv(size);
            Ok(Grid::Hotbar(x as u8))
        } else {
            Err(Failure::Validation(ValidationError::NotOnGrid))
        }
    }

    /// The driver call that puts the cursor on the middle of the cell.
    pub fn set_cursor(&self) -> (r: Action)
        ensures
            r == Action::SetCursor(self.center().0, self.center().1),
    {
        let Coord(x, y) = self.to_coord();
        Action::SetCursor(x, y)
    }
}

/// Whether every cell of the sequence lies inside its region.
pub open spec fn all_valid(cells: Seq<Grid>) -> bool {
    forall|i: int| 0 <= i < cells.len() ==> (#[trigger] cells[i]).wf()
}

impl<'a> TryFrom<&'a Coord> for Grid {
    type Error = Failure;

    fn try_from(value: &'a Coord) -> (r: Result<Self, Self::Error>) {
        Grid::from_coord(value)
    }
}

impl<'a> vstd::std_specs::convert::TryFromSpecImpl<&'a Coord> for Grid {
    open spec fn obeys_try_from_spec() -> bool {
        true
    }

    open spec fn try_from_spec(v: &'a Coord) -> Result<Self, Self::Error> {
        match Grid::locate(*v) {
            Some(cell) => Ok(cell),
            None => Err(Failure::Validation(ValidationError::NotOnGrid)),
        }
    }
}

impl<'a> From<&'a Grid> for Coord {
    fn from(value: &'a Grid) -> (r: Self) {
        value.to_coord()
    }
}

impl<'a> vstd::std_specs::convert::FromSpecImpl<&'a Grid> for Coord {
    open spec fn obeys_from_spec() -> bool {
        true
    }

    open spec fn from_spec(v: &'a Grid) -> Self {
        v.center()
    }
}

/// Mapping a valid cell to its pixel position and back gives the cell
/// again.
pub proof fn lemma_round_trip(cell: Grid)
    requires
        cell.wf(),
    ensures
        Grid::locate(cell.center()) == Some(cell),
{
}

/// The lower bound of a region belongs to it and maps to its first cell;
/// a point one unit before the lower bound, or exactly at the upper
/// bound, belongs to no region.
pub proof fn lemma_region_bounds(region: Region, p: Coord)
    ensures
        Grid::locate(region.spec_origin()) == Some(Grid::cell(region, 0, 0)),
        region.on_frame(p) ==> Grid::locate(p) is None,
{
}

} // verus!
