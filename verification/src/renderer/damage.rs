//! Which rows have changed since they were last drawn.

use vstd::prelude::*;

use crate::vt::{row_changed, Screen, ScreenModel};

verus! {

/// What was last drawn, by the counts of changes.
#[derive(Debug, PartialEq, Eq)]
pub struct DamageTracker {
    last_generation: u64,
    row_generations: Vec<u64>,
}

/// The same as a mathematical value.
pub ghost struct DamageModel {
    pub last_generation: u64,
    pub row_generations: Seq<u64>,
}

impl View for DamageTracker {
    type V = DamageModel;

    closed spec fn view(&self) -> DamageModel {
        DamageModel {
            last_generation: self.last_generation,
            row_generations: self.row_generations@,
        }
    }
}

/// Numbers cut or filled up with zeros to a length.
pub open spec fn resized(s: Seq<u64>, n: nat) -> Seq<u64> {
    Seq::new(
        n,
        |i: int|
            if i < s.len() {
                s[i]
            } else {
                0
            },
    )
}

/// Whether a row is to be drawn again.
pub open spec fn is_dirty(d: DamageModel, screen: ScreenModel, row: int) -> bool {
    row >= d.row_generations.len() || row_changed(screen, row, d.row_generations[row])
}

/// The rows from `from` on that are to be drawn again.
pub open spec fn dirty_from(d: DamageModel, screen: ScreenModel, from: int) -> Seq<usize>
    decreases screen.lines.len() - from,
{
    if from >= screen.lines.len() {
        Seq::empty()
    } else if is_dirty(d, screen, from) {
        seq![from as usize] + dirty_from(d, screen, from + 1)
    } else {
        dirty_from(d, screen, from + 1)
    }
}

/// Everything was drawn.
pub open spec fn clean_for(screen: ScreenModel) -> DamageModel {
    DamageModel {
        last_generation: screen.generation,
        row_generations: Seq::new(screen.lines.len(), |i: int| screen.generation),
    }
}

/// Whether anything is to be drawn again.
pub open spec fn any_damage(d: DamageModel, screen: ScreenModel) -> bool {
    d.row_generations.len() != screen.lines.len() || screen.generation != d.last_generation
}

/// Right after everything was drawn, nothing is to be drawn again, as long as
/// no row changed later than the screen.
pub proof fn law_clean_after_drawing(screen: ScreenModel)
    requires
        screen.row_generations.len() == screen.lines.len(),
        forall|r: int|
            0 <= r < screen.row_generations.len() ==> #[trigger] screen.row_generations[r]
                <= screen.generation,
    ensures
        !any_damage(clean_for(screen), screen),
        dirty_from(clean_for(screen), screen, 0) == Seq::<usize>::empty(),
{
    lemma_clean_from(screen, 0);
}

proof fn lemma_clean_from(screen: ScreenModel, from: int)
    requires
        0 <= from,
        screen.row_generations.len() == screen.lines.len(),
        forall|r: int|
            0 <= r < screen.row_generations.len() ==> #[trigger] screen.row_generations[r]
                <= screen.generation,
    ensures
        dirty_from(clean_for(screen), screen, from) == Seq::<usize>::empty(),
    decreases screen.lines.len() - from,
{
    if from < screen.lines.len() {
        assert(screen.row_generations[from] <= screen.generation);
        lemma_clean_from(screen, from + 1);
    }
}

impl DamageTracker {
    /// Nothing of so many rows was drawn yet.
    pub fn new(rows: usize) -> (d: DamageTracker)
        ensures
            d@ == (DamageModel {
                last_generation: 0,
                row_generations: Seq::new(rows as nat, |i: int| 0u64),
            }),
    {
        let mut d = DamageTracker { last_generation: 0, row_generations: Vec::new() };
        d.resize(rows);
        assert(d@.row_generations =~= Seq::new(rows as nat, |i: int| 0u64));
        d
    }

    /// Whether anything is to be drawn again: the screen changed, or its height
    /// did.
    pub fn needs_full_redraw(&self, screen: &Screen) -> (b: bool)
        ensures
            b == any_damage(self@, screen@),
    {
        self.row_generations.len() != screen.rows() || screen.generation() != self.last_generation
    }

    /// The rows that are to be drawn again.
    pub fn dirty_rows(&self, screen: &Screen) -> (rows: Vec<usize>)
        ensures
            rows@ == dirty_from(self@, screen@, 0),
    {
        let mut rows: Vec<usize> = Vec::new();
        let ghost all = dirty_from(self@, screen@, 0);
        assert(rows@ + all =~= all);
        let n: usize = screen.rows();
        let mut row: usize = 0;
        while row < n
            invariant
                row <= n,
                n == screen@.lines.len(),
                rows@ + dirty_from(self@, screen@, row as int) == all,
            decreases n - row,
        {
            let ghost before = rows@;
            let ghost from = dirty_from(self@, screen@, row as int);
            let dirty = if row >= self.row_generations.len() {
                true
            } else {
                screen.row_dirty_since(row, self.row_generations[row])
            };
            if dirty {
                rows.push(row);
            }
            row = row + 1;
            assert(rows@ + dirty_from(self@, screen@, row as int) =~= before + from);
        }
        assert(rows@ =~= all);
        rows
    }

    /// Takes that everything was drawn.
    pub fn mark_clean(&mut self, screen: &Screen)
        ensures
            final(self)@ == clean_for(screen@),
    {
        let gen: u64 = screen.generation();
        let n: usize = screen.rows();
        let mut row_generations: Vec<u64> = Vec::new();
        while row_generations.len() < n
            invariant
                row_generations@.len() <= n,
                forall|j: int| 0 <= j < row_generations@.len() ==> row_generations@[j] == gen,
            decreases n - row_generations@.len(),
        {
            row_generations.push(gen);
        }
        self.last_generation = gen;
        self.row_generations = row_generations;
        assert(self@.row_generations =~= clean_for(screen@).row_generations);
    }

    /// Takes another number of rows. New ones were never drawn.
    pub fn resize(&mut self, rows: usize)
        ensures
            final(self)@ == (DamageModel {
                row_generations: resized(old(self)@.row_generations, rows as nat),
                ..old(self)@
            }),
    {
        let mut row_generations: Vec<u64> = Vec::new();
        while row_generations.len() < rows
            invariant
                row_generations@.len() <= rows,
                *self == *old(self),
                forall|j: int|
                    0 <= j < row_generations@.len() ==> row_generations@[j] == resized(
                        old(self)@.row_generations,
                        rows as nat,
                    )[j],
            decreases rows - row_generations@.len(),
        {
            let i: usize = row_generations.len();
            let g: u64 = if i < self.row_generations.len() {
                self.row_generations[i]
            } else {
                0
            };
            row_generations.push(g);
        }
        self.row_generations = row_generations;
        assert(self@.row_generations =~= resized(old(self)@.row_generations, rows as nat));
    }
}

} // verus!
