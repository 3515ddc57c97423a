use vstd::prelude::*;

verus! {

/// Generic page envelope: the ordered window of records for one page,
/// together with the total number of records matching the same filter
/// across all pages.
pub struct PaginatedData<T> {
    pub data: Vec<T>,
    pub count: usize,
}

impl<T> PaginatedData<T> {
    /// The envelope invariant: the window never exceeds the requested page
    /// size, and never holds more records than match in total.
    pub open spec fn wf(self, per_page: int) -> bool {
        self.data@.len() <= per_page && self.data@.len() <= self.count
    }
}

} // verus!
