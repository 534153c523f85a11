//! Fonts: providers of one stencil per character.

use crate::canvas::Stencil;
use vstd::prelude::*;

verus! {

/// A fixed-size font. Every character has a stencil of `W` columns and `H`
/// rows; characters the font does not know share its blank stencil.
pub trait Font<const W: usize, const H: usize> {
    /// The stencil the font holds for `c`.
    spec fn glyph(&self, c: char) -> Stencil<W, H>;

    /// The stencil to draw for `c`: the same one each time.
    fn stencil_for(&self, c: char) -> (stencil: &Stencil<W, H>)
        ensures
            *stencil == self.glyph(c),
    ;
}

/// A font that is lent is still that font.
impl<const W: usize, const H: usize, F: Font<W, H>> Font<W, H> for &F {
    open spec fn glyph(&self, c: char) -> Stencil<W, H> {
        (**self).glyph(c)
    }

    fn stencil_for(&self, c: char) -> (stencil: &Stencil<W, H>) {
        (**self).stencil_for(c)
    }
}

/// The cell grids of the stencils that `font` holds for `chars`, in order.
pub open spec fn glyphs_of<const W: usize, const H: usize, F: Font<W, H>>(
    font: F,
    chars: Seq<char>,
) -> Seq<Seq<Seq<u8>>> {
    Seq::new(chars.len(), |i: int| font.glyph(chars[i])@)
}

/// The stencil that a table holds for `c`: that of the last entry for `c`,
/// or `blank` where there is none.
pub open spec fn looked_up<const W: usize, const H: usize>(
    table: Seq<(char, Stencil<W, H>)>,
    blank: Stencil<W, H>,
    c: char,
) -> Stencil<W, H>
    decreases table.len(),
{
    if table.len() == 0 {
        blank
    } else if table.last().0 == c {
        table.last().1
    } else {
        looked_up(table.drop_last(), blank, c)
    }
}

/// A font that is a table of characters and their stencils. A character
/// that is not in the table has the blank stencil.
pub struct TableFont<const W: usize, const H: usize> {
    table: Vec<(char, Stencil<W, H>)>,
    blank: Stencil<W, H>,
}

impl<const W: usize, const H: usize> TableFont<W, H> {
    /// A font in which every character has the stencil `blank`.
    pub fn new(blank: Stencil<W, H>) -> (font: Self)
        ensures
            forall|c: char| #[trigger] font.glyph(c) == blank,
    {
        TableFont { table: Vec::new(), blank }
    }

    /// Gives the character `c` the stencil `stencil`, in place of the one
    /// it had.
    pub fn add(&mut self, c: char, stencil: Stencil<W, H>)
        ensures
            forall|other: char| #[trigger]
                final(self).glyph(other) == if other == c {
                    stencil
                } else {
                    old(self).glyph(other)
                },
    {
        self.table.push((c, stencil));
        assert(self.table@.drop_last() =~= old(self).table@);
    }
}

impl<const W: usize, const H: usize> Font<W, H> for TableFont<W, H> {
    closed spec fn glyph(&self, c: char) -> Stencil<W, H> {
        looked_up(self.table@, self.blank, c)
    }

    fn stencil_for(&self, c: char) -> (stencil: &Stencil<W, H>) {
        let mut idx = self.table.len();
        assert(self.table@.take(idx as int) =~= self.table@);
        while idx > 0
            invariant
                idx <= self.table.len(),
                looked_up(self.table@, self.blank, c) == looked_up(
                    self.table@.take(idx as int),
                    self.blank,
                    c,
                ),
            decreases idx,
        {
            idx -= 1;
            assert(self.table@.take(idx + 1).drop_last() =~= self.table@.take(idx as int));
            if self.table[idx].0 == c {
                return &self.table[idx].1;
            }
        }
        &self.blank
    }
}

} // verus!
