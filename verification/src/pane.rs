//! A windowed list with one highlighted row.

use vstd::prelude::*;

verus! {

/// Number of rows the panel shows at once.
pub const PAGE_SIZE: usize = 8;

/// A step of the highlight.
#[derive(Clone, Copy, Debug, PartialEq, Eq, Structural)]
pub enum Move {
    Up,
    Down,
}

/// Mathematical model of a pane: the rows in display order, the index of the
/// first visible row and the position of the highlight inside the window.
pub struct PaneView<Row> {
    pub items: Seq<Row>,
    pub start: nat,
    pub selected: nat,
}

impl<Row> PaneView<Row> {
    /// The window never runs past the list and the highlight sits on a row.
    pub open spec fn wf(self) -> bool {
        if self.items.len() == 0 {
            self.start == 0 && self.selected == 0
        } else {
            &&& self.selected < PAGE_SIZE
            &&& self.selected < self.items.len()
            &&& self.start + self.selected < self.items.len()
            &&& if self.items.len() > PAGE_SIZE {
                self.start + PAGE_SIZE <= self.items.len()
            } else {
                self.start == 0
            }
        }
    }

    /// The pane as it is right after its rows were set.
    pub open spec fn fresh(items: Seq<Row>) -> Self {
        PaneView { items, start: 0, selected: 0 }
    }

    /// Index into `items` of the highlighted row.
    pub open spec fn current_index(self) -> nat {
        self.start + self.selected
    }

    /// Number of rows inside the window.
    pub open spec fn visible_count(self) -> nat {
        if self.items.len() - self.start < PAGE_SIZE {
            (self.items.len() - self.start) as nat
        } else {
            PAGE_SIZE as nat
        }
    }

    /// The rows inside the window, top to bottom.
    pub open spec fn window(self) -> Seq<Row> {
        self.items.subrange(self.start as int, (self.start + self.visible_count()) as int)
    }

    /// One step towards the end of the list: the highlight moves while it can,
    /// then the window scrolls, and at the last row nothing changes.
    pub open spec fn moved_down(self) -> Self {
        if self.selected + 1 < PAGE_SIZE && self.start + self.selected + 1 < self.items.len() {
            PaneView { selected: self.selected + 1, ..self }
        } else if self.start + PAGE_SIZE < self.items.len() {
            PaneView { start: self.start + 1, ..self }
        } else {
            self
        }
    }

    /// One step towards the head of the list, the mirror image of `moved_down`.
    pub open spec fn moved_up(self) -> Self {
        if self.selected > 0 {
            PaneView { selected: (self.selected - 1) as nat, ..self }
        } else if self.start > 0 {
            PaneView { start: (self.start - 1) as nat, ..self }
        } else {
            self
        }
    }

    /// The pane after one step.
    pub open spec fn moved(self, step: Move) -> Self {
        match step {
            Move::Up => self.moved_up(),
            Move::Down => self.moved_down(),
        }
    }

    /// The pane after a sequence of steps, taken first to last.
    pub open spec fn after(self, steps: Seq<Move>) -> Self
        decreases steps.len(),
    {
        if steps.len() == 0 {
            self
        } else {
            self.moved(steps[0]).after(steps.drop_first())
        }
    }
}

/// Whatever steps are taken, in whatever order, the rows stay as they are
/// and the pane stays well formed. For a list of `N > 0` rows this means
/// `selected < min(PAGE_SIZE, N)`, `start <= max(0, N - PAGE_SIZE)` and
/// `start + selected < N`.
pub proof fn lemma_steps_keep_bounds<Row>(pane: PaneView<Row>, steps: Seq<Move>)
    requires
        pane.wf(),
    ensures
        pane.after(steps).items == pane.items,
        pane.after(steps).wf(),
        pane.items.len() > 0 ==> {
            let n = pane.items.len() as int;
            let p = pane.after(steps);
            &&& p.selected < n
            &&& p.selected < PAGE_SIZE
            &&& p.start <= if n > PAGE_SIZE {
                n - PAGE_SIZE
            } else {
                0
            }
            &&& p.start + p.selected < n
        },
    decreases steps.len(),
{
    if steps.len() > 0 {
        lemma_steps_keep_bounds(pane.moved(steps[0]), steps.drop_first());
    }
}

/// A list of rows of which at most `PAGE_SIZE` are visible, one of them
/// highlighted.
#[derive(Debug)]
pub struct Pane<Row> {
    items: Vec<Row>,
    start: usize,
    selected: usize,
}

impl<Row> View for Pane<Row> {
    type V = PaneView<Row>;

    closed spec fn view(&self) -> PaneView<Row> {
        PaneView { items: self.items@, start: self.start as nat, selected: self.selected as nat }
    }
}

impl<Row> Pane<Row> {
    #[verifier::type_invariant]
    spec fn inv(self) -> bool {
        self@.wf()
    }

    /// A pane over `items` with the window and the highlight at the top.
    pub fn new(items: Vec<Row>) -> (pane: Self)
        ensures
            pane@ == PaneView::fresh(items@),
            pane@.wf(),
    {
        Pane { items, start: 0, selected: 0 }
    }

    /// Replaces the rows and puts the window and the highlight back at the top.
    pub fn reset(&mut self, items: Vec<Row>)
        ensures
            final(self)@ == PaneView::fresh(items@),
            final(self)@.wf(),
    {
        *self = Pane::new(items);
    }

    /// Number of rows in the list.
    pub fn len(&self) -> (n: usize)
        ensures
            n == self@.items.len(),
    {
        self.items.len()
    }

    /// Whether the list has no rows.
    pub fn is_empty(&self) -> (b: bool)
        ensures
            b == (self@.items.len() == 0),
    {
        self.items.len() == 0
    }

    /// Index of the first visible row.
    pub fn start(&self) -> (s: usize)
        ensures
            s == self@.start,
            self@.wf(),
    {
        proof {
            use_type_invariant(self);
        }
        self.start
    }

    /// Position of the highlight inside the window.
    pub fn selected(&self) -> (s: usize)
        ensures
            s == self@.selected,
            self@.wf(),
    {
        proof {
            use_type_invariant(self);
        }
        self.selected
    }

    /// Number of rows inside the window.
    pub fn visible_count(&self) -> (n: usize)
        ensures
            n == self@.visible_count(),
            n <= PAGE_SIZE,
            self@.wf(),
    {
        proof {
            use_type_invariant(self);
        }
        let rest = self.items.len() - self.start;
        if rest < PAGE_SIZE {
            rest
        } else {
            PAGE_SIZE
        }
    }

    /// The row with the given index in the list.
    pub fn get(&self, index: usize) -> (row: &Row)
        requires
            index < self@.items.len(),
        ensures
            *row == self@.items[index as int],
    {
        &self.items[index]
    }

    /// The row at `position` of the window.
    pub fn visible(&self, position: usize) -> (row: &Row)
        requires
            position < self@.visible_count(),
        ensures
            *row == self@.window()[position as int],
            *row == self@.items[self@.start + position],
    {
        proof {
            use_type_invariant(self);
            assert(self.items.len() == self.items@.len());
        }
        &self.items[self.start + position]
    }

    /// The highlighted row.
    pub fn current(&self) -> (row: &Row)
        requires
            self@.items.len() > 0,
        ensures
            *row == self@.items[self@.current_index() as int],
    {
        &self.items[self.current_index()]
    }

    /// Index of the highlighted row in the list.
    pub fn current_index(&self) -> (i: usize)
        requires
            self@.items.len() > 0,
        ensures
            i == self@.current_index(),
            i < self@.items.len(),
    {
        proof {
            use_type_invariant(self);
            assert(self.items.len() == self.items@.len());
        }
        self.start + self.selected
    }

    /// Moves one row down.
    pub fn move_down(&mut self)
        ensures
            final(self)@ == old(self)@.moved_down(),
            final(self)@.wf(),
    {
        proof {
            use_type_invariant(&*self);
        }
        let n = self.items.len();
        if self.selected < PAGE_SIZE - 1 && self.start + self.selected + 1 < n {
            self.selected = self.selected + 1;
        } else if n > PAGE_SIZE && self.start < n - PAGE_SIZE {
            self.start = self.start + 1;
        }
    }

    /// Takes one step.
    pub fn step(&mut self, step: Move)
        ensures
            final(self)@ == old(self)@.moved(step),
            final(self)@.wf(),
    {
        match step {
            Move::Up => self.move_up(),
            Move::Down => self.move_down(),
        }
    }

    /// Moves one row up.
    pub fn move_up(&mut self)
        ensures
            final(self)@ == old(self)@.moved_up(),
            final(self)@.wf(),
    {
        proof {
            use_type_invariant(&*self);
        }
        if self.selected > 0 {
            self.selected = self.selected - 1;
        } else if self.start > 0 {
            self.start = self.start - 1;
        }
    }
}

} // verus!
