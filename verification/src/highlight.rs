//! Cells marked for highlighting on the field, read by the host's rendering.

use vstd::prelude::*;

use crate::field::Cell;

verus! {

/// The list of currently highlighted cells.
pub struct HighlightComponent {
    highlight_list: Vec<Cell>,
}

impl View for HighlightComponent {
    type V = Seq<Cell>;

    closed spec fn view(&self) -> Seq<Cell> {
        self.highlight_list@
    }
}

impl HighlightComponent {
    pub fn new() -> (r: HighlightComponent)
        ensures
            r@ == Seq::<Cell>::empty(),
    {
        HighlightComponent { highlight_list: Vec::new() }
    }

    /// Whether a cell is currently highlighted.
    pub fn is_highlighted(&self, pos: &Cell) -> (r: bool)
        ensures
            r == self@.contains(*pos),
    {
        let mut k: usize = 0;
        while k < self.highlight_list.len()
            invariant
                k <= self@.len(),
                forall|m: int| 0 <= m < k ==> self@[m] != *pos,
            decreases self@.len() - k,
        {
            let c = self.highlight_list[k];
            if c.i == pos.i && c.j == pos.j {
                return true;
            }
            k = k + 1;
        }
        false
    }

    pub fn clear_highlight(&mut self)
        ensures
            final(self)@ == Seq::<Cell>::empty(),
    {
        self.highlight_list.clear();
    }

    /// The highlighted cells, in the order they were marked.
    pub fn highlighted(&self) -> (r: Vec<Cell>)
        ensures
            r@ == self@,
    {
        let mut out: Vec<Cell> = Vec::new();
        let mut k: usize = 0;
        while k < self.highlight_list.len()
            invariant
                k <= self@.len(),
                out@ == self@.take(k as int),
            decreases self@.len() - k,
        {
            out.push(self.highlight_list[k]);
            proof {
                assert(self@.take(k + 1) =~= self@.take(k as int).push(self@[k as int]));
            }
            k = k + 1;
        }
        proof {
            assert(self@.take(self@.len() as int) =~= self@);
        }
        out
    }

    pub fn highlight(&mut self, pos: Cell)
        ensures
            final(self)@ == old(self)@.push(pos),
    {
        self.highlight_list.push(pos);
    }
}

} // verus!
