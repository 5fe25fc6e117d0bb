use vstd::prelude::*;

verus! {

/// The two independent rotation thresholds of one pipeline, with their row
/// counters.  Reaching `rows_per_row_group` flushes the accumulated group;
/// reaching `rows_per_file` additionally closes the file.  Between calls
/// both counters sit strictly below their thresholds.
#[derive(Debug)]
pub struct RotationPolicy {
    rows_per_row_group: usize,
    rows_per_file: usize,
    rows_in_group: usize,
    rows_in_file: usize,
}

impl RotationPolicy {
    /// Rows per row group.
    pub closed spec fn group_threshold(&self) -> int {
        self.rows_per_row_group as int
    }

    /// Rows per file.
    pub closed spec fn file_threshold(&self) -> int {
        self.rows_per_file as int
    }

    /// Rows counted toward the current row group.
    pub closed spec fn group_count(&self) -> int {
        self.rows_in_group as int
    }

    /// Rows counted toward the current file.
    pub closed spec fn file_count(&self) -> int {
        self.rows_in_file as int
    }

    pub open spec fn wf(&self) -> bool {
        &&& 1 <= self.group_threshold() <= usize::MAX as int
        &&& 1 <= self.file_threshold() <= usize::MAX as int
        &&& 0 <= self.group_count() < self.group_threshold()
        &&& 0 <= self.file_count() < self.file_threshold()
        &&& self.group_count() <= self.file_count()
    }

    /// A fresh policy with both counters at zero.
    pub fn new(rows_per_row_group: usize, rows_per_file: usize) -> (p: Self)
        requires
            1 <= rows_per_row_group,
            1 <= rows_per_file,
        ensures
            p.wf(),
            p.group_threshold() == rows_per_row_group as int,
            p.file_threshold() == rows_per_file as int,
            p.group_count() == 0,
            p.file_count() == 0,
    {
        RotationPolicy { rows_per_row_group, rows_per_file, rows_in_group: 0, rows_in_file: 0 }
    }

    /// Rows counted toward the current file.
    pub fn current_file_rows(&self) -> (n: usize)
        ensures
            n as int == self.file_count(),
    {
        self.rows_in_file
    }

    /// Counts one pushed row.  The first component says the row group must
    /// be flushed now; the second says the file must additionally be
    /// closed.  A flushed group resets the group counter, a closed file the
    /// file counter.
    pub fn note_push(&mut self) -> (r: (bool, bool))
        requires
            old(self).wf(),
        ensures
            final(self).wf(),
            final(self).group_threshold() == old(self).group_threshold(),
            final(self).file_threshold() == old(self).file_threshold(),
            r.1 ==> r.0,
            r.0 == (old(self).group_count() + 1 == old(self).group_threshold() || old(
                self,
            ).file_count() + 1 == old(self).file_threshold()),
            r.1 == (old(self).file_count() + 1 == old(self).file_threshold()),
            final(self).group_count() == if r.0 {
                0int
            } else {
                old(self).group_count() + 1
            },
            final(self).file_count() == if r.1 {
                0int
            } else {
                old(self).file_count() + 1
            },
    {
        self.rows_in_group = self.rows_in_group + 1;
        self.rows_in_file = self.rows_in_file + 1;
        let file_full = self.rows_in_file == self.rows_per_file;
        let group_full = self.rows_in_group == self.rows_per_row_group || file_full;
        if group_full {
            self.rows_in_group = 0;
        }
        if file_full {
            self.rows_in_file = 0;
        }
        (group_full, file_full)
    }

    /// Resets both counters: the drain at end of input has flushed the
    /// partial group and closed the file.
    pub fn reset(&mut self)
        requires
            old(self).wf(),
        ensures
            final(self).wf(),
            final(self).group_threshold() == old(self).group_threshold(),
            final(self).file_threshold() == old(self).file_threshold(),
            final(self).group_count() == 0,
            final(self).file_count() == 0,
    {
        self.rows_in_group = 0;
        self.rows_in_file = 0;
    }
}

} // verus!
