//! The cells shared values live in.
//!
//! Capturing a variable moves its value into a cell, and every holder names
//! the cell by number. A cell being written through is locked, and a second
//! writer is refused rather than let in.
use vstd::prelude::*;

use crate::value::{clone_value, copied, unit, AccessMode, Data, Datum, Dynamic, Union};

verus! {

/// One shared value and whether a writer holds it.
#[derive(Debug)]
pub struct Cell {
    pub value: Dynamic,
    pub locked: bool,
}

/// The model of a [`Cell`].
#[verifier::ext_equal]
pub struct CellView {
    pub value: Datum,
    pub locked: bool,
}

impl Cell {
    pub open spec fn view(self) -> CellView {
        CellView { value: self.value@, locked: self.locked }
    }
}

pub open spec fn cell_views(cells: Seq<Cell>) -> Seq<CellView> {
    Seq::new(cells.len(), |i: int| cells[i]@)
}

/// Every cell of a run.
#[derive(Debug)]
pub struct Heap {
    pub cells: Vec<Cell>,
}

/// What is readable in a cell: nothing but unit while a writer holds it.
pub open spec fn readable(heap: Seq<CellView>, cell: usize) -> Datum {
    if cell < heap.len() && !heap[cell as int].locked {
        heap[cell as int].value
    } else {
        unit()
    }
}

/// A value read out: what a shared cell holds, or the value itself.
pub open spec fn flattened(heap: Seq<CellView>, d: Datum) -> Datum {
    match d.data {
        Data::Shared(cell) => copied(readable(heap, cell)),
        _ => d,
    }
}

/// A copy of a value with any shared cell read out.
pub open spec fn flat_copy(heap: Seq<CellView>, d: Datum) -> Datum {
    match d.data {
        Data::Shared(cell) => copied(readable(heap, cell)),
        _ => copied(d),
    }
}

/// Whether a value refuses to be written: its own mark, or its cell's.
pub open spec fn read_only(heap: Seq<CellView>, d: Datum) -> bool {
    d.mode == AccessMode::ReadOnly || match d.data {
        Data::Shared(cell) => readable(heap, cell).mode == AccessMode::ReadOnly,
        _ => false,
    }
}

/// Whether a writer can be let into a cell.
pub open spec fn lockable(heap: Seq<CellView>, cell: usize) -> bool {
    cell < heap.len() && !heap[cell as int].locked
}

/// The heap with a cell's value lent out to a writer.
pub open spec fn lent(heap: Seq<CellView>, cell: usize) -> Seq<CellView> {
    heap.update(cell as int, CellView { value: unit(), locked: true })
}

/// The heap with a writer's value back in its cell.
pub open spec fn settled(heap: Seq<CellView>, cell: usize, value: Datum) -> Seq<CellView> {
    if cell < heap.len() {
        heap.update(cell as int, CellView { value, locked: false })
    } else {
        heap
    }
}

impl Heap {
    pub closed spec fn view(self) -> Seq<CellView> {
        cell_views(self.cells@)
    }

    /// No cells.
    pub fn new() -> (heap: Heap)
        ensures
            heap@ == Seq::<CellView>::empty(),
    {
        let heap = Heap { cells: Vec::new() };
        assert(heap@ =~= Seq::<CellView>::empty());
        heap
    }

    /// A heap of these cells.
    pub fn of(cells: Vec<Cell>) -> (heap: Heap)
        ensures
            heap@ == cell_views(cells@),
    {
        Heap { cells }
    }

    /// How many cells there are.
    pub fn len(&self) -> (n: usize)
        ensures
            n == self@.len(),
    {
        self.cells.len()
    }

    /// Whether nothing can be read out of a cell now.
    pub fn is_shut(&self, cell: usize) -> (r: bool)
        ensures
            r == (cell >= self@.len() || self@[cell as int].locked),
    {
        cell >= self.cells.len() || self.cells[cell].locked
    }

    /// A copy of what a cell holds.
    pub fn read(&self, cell: usize) -> (value: Dynamic)
        ensures
            value@ == copied(readable(self@, cell)),
    {
        broadcast use crate::value::copied_of_composite;

        if cell < self.cells.len() && !self.cells[cell].locked {
            clone_value(&self.cells[cell].value)
        } else {
            Dynamic::unit()
        }
    }

    /// Read a value out of any cell it is in.
    pub fn flatten(&self, value: Dynamic) -> (out: Dynamic)
        ensures
            out@ == flattened(self@, value@),
    {
        match value.value {
            Union::Shared(cell) => self.read(cell),
            _ => value,
        }
    }

    /// Copy a value, reading it out of any cell it is in.
    pub fn flatten_clone_value(&self, value: &Dynamic) -> (out: Dynamic)
        ensures
            out@ == flat_copy(self@, value@),
    {
        match value.value {
            Union::Shared(cell) => self.read(cell),
            _ => clone_value(value),
        }
    }

    /// Whether a value refuses to be written.
    pub fn is_read_only(&self, value: &Dynamic) -> (r: bool)
        ensures
            r == read_only(self@, value@),
    {
        if matches!(value.mode, AccessMode::ReadOnly) {
            return true;
        }
        match value.value {
            Union::Shared(cell) => {
                if cell < self.cells.len() && !self.cells[cell].locked {
                    matches!(self.cells[cell].value.mode, AccessMode::ReadOnly)
                } else {
                    false
                }
            },
            _ => false,
        }
    }

    /// Whether a cell holds a map, and no writer has it.
    pub fn holds_map(&self, cell: usize) -> (r: bool)
        ensures
            r == (lockable(self@, cell) && self@[cell as int].value.data is Dict),
    {
        broadcast use crate::value::view_of_composite;

        cell < self.cells.len() && !self.cells[cell].locked && matches!(
            self.cells[cell].value.value,
            Union::Dict(_)
        )
    }

    /// Move a value into a new cell, and name the cell.
    pub fn share(&mut self, value: Dynamic) -> (out: Dynamic)
        ensures
            old(self)@.len() < usize::MAX ==> out@ == (Datum {
                data: Data::Shared(old(self)@.len() as usize),
                tag: value@.tag,
                mode: value@.mode,
            }) && final(self)@ == old(self)@.push(CellView { value: value@, locked: false }),
            old(self)@.len() >= usize::MAX ==> out@ == value@ && final(self)@ == old(self)@,
    {
        let cell: usize = self.cells.len();
        if cell == usize::MAX {
            return value;
        }
        let (tag, mode) = (value.tag, value.mode);
        self.cells.push(Cell { value, locked: false });
        assert(self@ =~= old(self)@.push(CellView { value: value@, locked: false }));
        Dynamic { value: Union::Shared(cell), tag, mode }
    }

    /// Lend a cell's value out to a writer, unless one has it already.
    pub fn lock(&mut self, cell: usize) -> (value: Option<Dynamic>)
        ensures
            lockable(old(self)@, cell) ==> value is Some
                && value->0@ == old(self)@[cell as int].value
                    && final(self)@ == lent(old(self)@, cell),
            !lockable(old(self)@, cell) ==> value is None && final(self)@ == old(self)@,
    {
        if cell < self.cells.len() && !self.cells[cell].locked {
            let mut held = Cell { value: Dynamic::unit(), locked: true };
            core::mem::swap(&mut self.cells[cell], &mut held);
            assert(self@ =~= lent(old(self)@, cell));
            Some(held.value)
        } else {
            None
        }
    }

    /// Put a writer's value back and let the next writer in.
    pub fn unlock(&mut self, cell: usize, value: Dynamic)
        ensures
            final(self)@ == settled(old(self)@, cell, value@),
    {
        if cell < self.cells.len() {
            self.cells.set(cell, Cell { value, locked: false });
        }
        assert(self@ =~= settled(old(self)@, cell, value@));
    }
}

/// Lending a cell out and putting a value back leaves that value in it and
/// every other cell alone.
pub proof fn lock_then_unlock(heap: Seq<CellView>, cell: usize, value: Datum)
    requires
        lockable(heap, cell),
    ensures
        settled(lent(heap, cell), cell, value) == heap.update(
            cell as int,
            CellView { value, locked: false },
        ),
        readable(settled(lent(heap, cell), cell, value), cell) == value,
        !lockable(lent(heap, cell), cell),
{
    assert(settled(lent(heap, cell), cell, value) =~= heap.update(
        cell as int,
        CellView { value, locked: false },
    ));
}

} // verus!
