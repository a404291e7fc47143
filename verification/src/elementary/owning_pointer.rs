//! Memory for a run of elements that belongs to the one who asked for it.

use vstd::prelude::*;

verus! {

/// Representation of a pointer which owns its memory: a run of cells, each
/// of which holds nothing until it is written.
#[derive(Debug)]
pub struct OwningPointer<T> {
    cells: Vec<Option<T>>,
}

impl<T> View for OwningPointer<T> {
    type V = Seq<Option<T>>;

    /// What each cell holds.
    closed spec fn view(&self) -> Seq<Option<T>> {
        self.cells@
    }
}

/// The number of cells that are set up for a request of `number_of_elements`.
pub open spec fn allocated_elements(number_of_elements: usize) -> nat {
    if number_of_elements == 0 {
        1
    } else {
        number_of_elements as nat
    }
}

impl<T> OwningPointer<T> {
    /// Allocates memory for `number_of_elements` values of T. If the
    /// `number_of_elements` is zero it still allocates memory for one
    /// element.
    pub fn new_with_alloc(number_of_elements: usize) -> (pointer: OwningPointer<T>)
        ensures
            pointer@.len() == allocated_elements(number_of_elements),
            forall|i: int| 0 <= i < pointer@.len() ==> pointer@[i].is_none(),
    {
        let mut number_of_elements: usize = number_of_elements;
        if number_of_elements == 0 {
            number_of_elements = 1;
        }
        let mut cells: Vec<Option<T>> = Vec::new();
        let mut i: usize = 0;
        while i < number_of_elements
            invariant
                i <= number_of_elements,
                cells.len() == i,
                forall|k: int| 0 <= k < cells.len() ==> cells[k].is_none(),
            decreases number_of_elements - i,
        {
            cells.push(None);
            i += 1;
        }
        Self { cells }
    }

    /// The number of cells.
    pub fn len(&self) -> (len: usize)
        ensures
            len == self@.len(),
    {
        self.cells.len()
    }

    /// Stores `value` in the cell at `index`.
    pub fn write(&mut self, index: usize, value: T)
        requires
            index < old(self)@.len(),
        ensures
            final(self)@ == old(self)@.update(index as int, Some(value)),
    {
        self.cells[index] = Some(value);
    }

    /// The content of the cell at `index`, if it was written.
    pub fn read(&self, index: usize) -> (value: Option<&T>)
        requires
            index < self@.len(),
        ensures
            value.is_some() == self@[index as int].is_some(),
            value.is_some() ==> Some(*value.unwrap()) == self@[index as int],
    {
        self.cells[index].as_ref()
    }
}

} // verus!
