use vstd::prelude::*;
use crate::board::Tile;

verus! {

/// The tiles currently selected, in the order they were picked: none, one, or
/// (only until the pair is resolved) two tiles on distinct cells.
pub struct SelectedTiles {
    tiles: Vec<Tile>,
}

impl View for SelectedTiles {
    type V = Seq<Tile>;

    closed spec fn view(&self) -> Seq<Tile> {
        self.tiles@
    }
}

impl SelectedTiles {
    pub open spec fn wf(&self) -> bool {
        &&& self@.len() <= 2
        &&& self@.len() == 2 ==> self@[0].pos() != self@[1].pos()
    }

    pub fn new() -> (s: SelectedTiles)
        ensures
            s@ == Seq::<Tile>::empty(),
            s.wf(),
    {
        SelectedTiles { tiles: Vec::new() }
    }

    pub fn len(&self) -> (n: usize)
        ensures
            n == self@.len(),
    {
        self.tiles.len()
    }

    pub fn get(&self, i: usize) -> (t: Tile)
        requires
            i < self@.len(),
        ensures
            t == self@[i as int],
    {
        self.tiles[i]
    }

    pub fn clear(&mut self)
        ensures
            final(self)@ == Seq::<Tile>::empty(),
            final(self).wf(),
    {
        self.tiles.clear();
    }

    /// Applies a tile activation: with nothing selected the tile becomes
    /// selected; activating the one selected tile again deselects it; any
    /// other tile joins it as the second of a pair. Returns whether a pair is
    /// now selected and awaits resolution.
    pub fn activate(&mut self, tile: Tile) -> (paired: bool)
        requires
            old(self)@.len() <= 1,
        ensures
            final(self).wf(),
            old(self)@.len() == 0 ==> final(self)@ == seq![tile],
            old(self)@.len() == 1 && old(self)@[0].pos() == tile.pos() ==> final(self)@
                == Seq::<Tile>::empty(),
            old(self)@.len() == 1 && old(self)@[0].pos() != tile.pos() ==> final(self)@ == seq![
                old(self)@[0],
                tile,
            ],
            paired == (final(self)@.len() == 2),
    {
        if self.tiles.len() == 0 {
            self.tiles.push(tile);
            assert(self.tiles@ =~= seq![tile]);
            return false;
        }
        let first = self.tiles[0];
        if first.row == tile.row && first.col == tile.col {
            self.tiles.clear();
            return false;
        }
        self.tiles.push(tile);
        assert(self.tiles@ =~= seq![first, tile]);
        true
    }
}

} // verus!
