//! A cell that is written once and read from then on.
//!
//! The cell starts empty or populated. An empty cell can be populated once;
//! a populated cell never changes again. A program keeps such a cell for a
//! value that is set up when it starts and read from anywhere after that.
//!
//! The view of a cell is what it holds: `None` while it is empty.

use vstd::prelude::*;

verus! {

/// A cell that can be written to once. After that, the cell is readonly.
pub struct DynamicReadOnlyCell<T> {
    data: Option<T>,
}

impl<T> View for DynamicReadOnlyCell<T> {
    type V = Option<T>;

    closed spec fn view(&self) -> Option<T> {
        self.data
    }
}

impl<T> DynamicReadOnlyCell<T> {
    /// Creates a new unpopulated cell
    pub fn new() -> (cell: Self)
        ensures
            cell@ is None,
    {
        DynamicReadOnlyCell { data: None }
    }

    /// Creates a new cell that is already populated
    pub fn from(data: T) -> (cell: Self)
        ensures
            cell@ == Some(data),
    {
        DynamicReadOnlyCell { data: Some(data) }
    }

    /// Whether the cell is populated.
    pub fn is_populated(&self) -> (populated: bool)
        ensures
            populated == (self@ is Some),
    {
        self.data.is_some()
    }

    /// Populates the cell with data. The cell must not be populated yet.
    pub fn set(&mut self, data: T)
        requires
            old(self)@ is None,
        ensures
            final(self)@ == Some(data),
    {
        self.data = Some(data);
    }

    /// Gets a reference to the data from the cell, which must be populated.
    pub fn get_ref(&self) -> (data: &T)
        requires
            self@ is Some,
        ensures
            *data == self@.unwrap(),
    {
        self.data.as_ref().unwrap()
    }

    /// Gets a reference to the data from the cell.
    /// Returns Some(T) if the cell is populated.
    /// Returns None if the cell is not populated.
    pub fn try_get_ref(&self) -> (data: Option<&T>)
        ensures
            match data {
                Some(data) => self@ == Some(*data),
                None => self@ is None,
            },
    {
        self.data.as_ref()
    }
}

impl<T: Copy> DynamicReadOnlyCell<T> {
    /// Gets a copy of the data from the cell, which must be populated.
    pub fn get(&self) -> (data: T)
        requires
            self@ is Some,
        ensures
            data == self@.unwrap(),
    {
        *self.get_ref()
    }

    /// Gets a copy of the data from the cell.
    /// Returns Some(T) if the cell is populated.
    /// Returns None if the cell is not populated.
    pub fn try_get(&self) -> (data: Option<T>)
        ensures
            data == self@,
    {
        match self.try_get_ref() {
            Some(data) => Some(*data),
            None => None,
        }
    }
}

} // verus!
