//! Paged reading of the change log.
//!
//! A page is filled from the rows of one query until the buffered rows
//! exceed [`CHANGE_BUFFER_SIZE`] bytes and the next row belongs to a later
//! commit; a commit is never split over two pages. The iterator hands the
//! rows of a page out one by one and asks for the next page while there is
//! one.
use crate::value::Changeset;
use std::collections::VecDeque;
use vstd::prelude::*;

verus! {

/// Byte budget of one page of changes.
pub const CHANGE_BUFFER_SIZE: usize = 1_000_000;

/// The bytes that the rows `rows` count for when buffered.
pub open spec fn total_size(rows: Seq<Changeset>) -> nat
    decreases rows.len(),
{
    if rows.len() == 0 {
        0
    } else {
        total_size(rows.drop_last()) + rows.last().spec_size()
    }
}

/// Whether a page that holds `rows`, read past version `cursor`, still takes
/// the row `next`: it does unless the page is over budget and `next` starts
/// a later commit than the last row taken.
pub open spec fn takes(rows: Seq<Changeset>, cursor: i64, next: Changeset) -> bool {
    !(total_size(rows) > CHANGE_BUFFER_SIZE && next.spec_db_version() > last_version(
        rows,
        cursor,
    ))
}

/// The version of the last row of `rows`, or `cursor` where there is none.
pub open spec fn last_version(rows: Seq<Changeset>, cursor: i64) -> i64 {
    if rows.len() == 0 {
        cursor
    } else {
        rows.last().spec_db_version()
    }
}

/// One page of changes being filled from the rows of a query.
pub struct ChangePage {
    rows: Vec<Changeset>,
    size: usize,
    cursor: i64,
    db_version: i64,
    has_next_page: bool,
}

impl ChangePage {
    pub closed spec fn spec_rows(&self) -> Seq<Changeset> {
        self.rows@
    }

    /// The version past which the query reads.
    pub closed spec fn spec_cursor(&self) -> i64 {
        self.cursor
    }

    /// Whether a row was turned away, so that a further page follows.
    pub closed spec fn spec_has_next_page(&self) -> bool {
        self.has_next_page
    }

    pub closed spec fn wf(&self) -> bool {
        &&& self.size == if total_size(self.rows@) > usize::MAX {
            usize::MAX as nat
        } else {
            total_size(self.rows@)
        }
        &&& self.db_version == last_version(self.rows@, self.cursor)
        &&& self.has_next_page ==> total_size(self.rows@) > CHANGE_BUFFER_SIZE
    }

    /// A row is turned away only from a page over budget, so an empty page
    /// has no next page.
    pub proof fn lemma_empty_has_no_next(&self)
        requires
            self.wf(),
        ensures
            self.spec_rows().len() == 0 ==> !self.spec_has_next_page(),
    {
    }

    /// An empty page of the changes after version `cursor`.
    pub fn new(cursor: i64) -> (r: ChangePage)
        ensures
            r.wf(),
            r.spec_rows() == Seq::<Changeset>::empty(),
            r.spec_cursor() == cursor,
            !r.spec_has_next_page(),
    {
        ChangePage {
            rows: Vec::new(),
            size: 0,
            cursor,
            db_version: cursor,
            has_next_page: false,
        }
    }

    /// Offers the next row of the query. The row is taken, and `true`
    /// returned, unless the page is over budget and the row starts a later
    /// commit; then the page is closed and another one follows.
    pub fn offer(&mut self, changeset: Changeset) -> (taken: bool)
        requires
            old(self).wf(),
            !old(self).spec_has_next_page(),
        ensures
            final(self).wf(),
            final(self).spec_cursor() == old(self).spec_cursor(),
            taken == takes(old(self).spec_rows(), old(self).spec_cursor(), changeset),
            taken ==> final(self).spec_rows() == old(self).spec_rows().push(changeset)
                && !final(self).spec_has_next_page(),
            !taken ==> final(self).spec_rows() == old(self).spec_rows()
                && final(self).spec_has_next_page(),
    {
        if self.size > CHANGE_BUFFER_SIZE && changeset.db_version() > self.db_version {
            self.has_next_page = true;
            return false;
        }
        let ghost before = self.rows@;
        self.db_version = changeset.db_version();
        self.size = self.size.saturating_add(changeset.size());
        self.rows.push(changeset);
        proof {
            assert(self.rows@.drop_last() == before);
        }
        true
    }

    /// The rows taken, whether another page follows, and the version to read
    /// past next: that of the last row taken, else the cursor.
    pub fn finish(self) -> (r: (Vec<Changeset>, bool, i64))
        requires
            self.wf(),
        ensures
            r.0@ == self.spec_rows(),
            r.1 == self.spec_has_next_page(),
            r.2 == last_version(self.spec_rows(), self.spec_cursor()),
    {
        (self.rows, self.has_next_page, self.db_version)
    }
}

/// What the iterator of changes does next.
pub enum IterStep {
    /// Hand out this row.
    Yield(Changeset),
    /// Read the next page and pass it to [`ChangesIter::load`].
    Load,
    /// No rows are left.
    Done,
}

/// Hands out the rows of the pages of a change read, one by one.
pub struct ChangesIter {
    current_page: VecDeque<Changeset>,
    has_next_page: bool,
}

impl ChangesIter {
    /// The rows of the current page that were not handed out yet.
    pub closed spec fn remaining(&self) -> Seq<Changeset> {
        self.current_page@
    }

    pub closed spec fn spec_has_next_page(&self) -> bool {
        self.has_next_page
    }

    /// An iterator that has not read its first page yet.
    pub fn new() -> (r: ChangesIter)
        ensures
            r.remaining() == Seq::<Changeset>::empty(),
            r.spec_has_next_page(),
    {
        ChangesIter { current_page: VecDeque::new(), has_next_page: true }
    }

    pub fn next_step(&mut self) -> (r: IterStep)
        ensures
            old(self).remaining().len() > 0 ==> r == IterStep::Yield(old(self).remaining()[0])
                && final(self).remaining() == old(self).remaining().drop_first()
                && final(self).spec_has_next_page() == old(self).spec_has_next_page(),
            old(self).remaining().len() == 0 ==> final(self).remaining() == old(self).remaining()
                && final(self).spec_has_next_page() == old(self).spec_has_next_page() && (if old(
                self,
            ).spec_has_next_page() {
                r is Load
            } else {
                r is Done
            }),
    {
        match self.current_page.pop_front() {
            Some(changeset) => IterStep::Yield(changeset),
            None => {
                if self.has_next_page {
                    IterStep::Load
                } else {
                    IterStep::Done
                }
            },
        }
    }

    /// Ends the iteration after a page could not be read: the error is the
    /// last item, and no row follows it.
    pub fn fail(&mut self)
        ensures
            final(self).remaining() == Seq::<Changeset>::empty(),
            !final(self).spec_has_next_page(),
    {
        self.current_page = VecDeque::new();
        self.has_next_page = false;
    }

    /// Takes the next page and whether one follows it. An empty page ends
    /// the iteration.
    pub fn load(&mut self, page: Vec<Changeset>, has_next_page: bool)
        requires
            old(self).remaining().len() == 0,
        ensures
            final(self).remaining() == page@,
            final(self).spec_has_next_page() == (has_next_page && page@.len() > 0),
    {
        let mut page = page;
        let ghost all = page@;
        let mut rows: VecDeque<Changeset> = VecDeque::new();
        while page.len() > 0
            invariant
                page@ + rows@ == all,
            decreases page@.len(),
        {
            let ghost before = rows@;
            match page.pop() {
                Some(changeset) => {
                    rows.push_front(changeset);
                    proof {
                        assert(page@ + rows@ =~= all);
                    }
                },
                None => {},
            }
        }
        assert(rows@ =~= all);
        self.has_next_page = has_next_page && rows.len() > 0;
        self.current_page = rows;
    }
}

} // verus!
