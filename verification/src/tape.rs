//! The tape: sparse, unbounded, bidirectional storage with blank-default
//! reads.  Only cells that have ever been written are stored; reading any
//! other position yields the blank symbol without storing it.  The stored
//! cells are modelled as a `Map` from position to symbol, together with the
//! extent (the least and greatest written positions, `(0, 0)` while nothing
//! is written).

use vstd::prelude::*;
use std::collections::HashMap;

verus! {

broadcast use vstd::std_specs::hash::group_hash_axioms;

/// The mathematical content of a tape: its written cells and its extent.
#[verifier::ext_equal]
pub ghost struct TapeModel {
    pub cells: Map<i32, char>,
    pub lo: int,
    pub hi: int,
}

/// Well-formedness: the extent brackets exactly the written positions, and
/// sits at the origin while nothing is written.
pub open spec fn tape_model_wf(t: TapeModel) -> bool {
    &&& t.cells.dom().finite()
    &&& i32::MIN <= t.lo <= i32::MAX
    &&& i32::MIN <= t.hi <= i32::MAX
    &&& t.lo <= t.hi
    &&& (t.cells.dom().is_empty() ==> t.lo == 0 && t.hi == 0)
    &&& (!t.cells.dom().is_empty() ==> t.cells.contains_key(t.lo as i32)
        && t.cells.contains_key(t.hi as i32))
    &&& (forall|k: i32| t.cells.contains_key(k) ==> t.lo <= k <= t.hi)
}

/// The symbol at `pos`: the stored one if the cell was ever written, else
/// the blank symbol.
pub open spec fn tape_read(t: TapeModel, pos: int, blank: char) -> char {
    if i32::MIN <= pos <= i32::MAX && t.cells.contains_key(pos as i32) {
        t.cells[pos as i32]
    } else {
        blank
    }
}

/// The tape after writing `c` at `pos`: the cell is stored (also when `c`
/// is the blank symbol) and the extent widens just enough to cover `pos`.
pub open spec fn tape_write(t: TapeModel, pos: int, c: char) -> TapeModel
    recommends
        i32::MIN <= pos <= i32::MAX,
{
    TapeModel {
        cells: t.cells.insert(pos as i32, c),
        lo: if t.cells.dom().is_empty() {
            pos
        } else if pos < t.lo {
            pos
        } else {
            t.lo
        },
        hi: if t.cells.dom().is_empty() {
            pos
        } else if pos > t.hi {
            pos
        } else {
            t.hi
        },
    }
}

/// The symbols at every position of the extent, blank-substituted where a
/// position was never written.
pub open spec fn spec_render(t: TapeModel, blank: char) -> Seq<char> {
    Seq::new((t.hi - t.lo + 1) as nat, |i: int| tape_read(t, t.lo + i, blank))
}

/// Blank-default law: a position never written reads as the blank symbol.
pub proof fn lemma_read_unwritten(t: TapeModel, pos: int, blank: char)
    requires
        i32::MIN <= pos <= i32::MAX ==> !t.cells.contains_key(pos as i32),
    ensures
        tape_read(t, pos, blank) == blank,
{
}

/// Write-then-read law: reading the position just written yields exactly the
/// written symbol, and every other position is unaffected by the write.
pub proof fn lemma_write_read(t: TapeModel, pos: int, c: char, other: int, blank: char)
    requires
        i32::MIN <= pos <= i32::MAX,
        i32::MIN <= other <= i32::MAX,
    ensures
        tape_read(tape_write(t, pos, c), pos, blank) == c,
        other != pos ==> tape_read(tape_write(t, pos, c), other, blank) == tape_read(
            t,
            other,
            blank,
        ),
{
}

/// Extent law: once something is written, further writes never shrink the
/// extent, and writing at a position already inside the extent leaves it
/// unchanged.  (The very first write moves the extent away from its `(0, 0)`
/// empty-tape convention, so nothing is claimed for the empty tape.)
pub proof fn lemma_extent_monotone(t: TapeModel, pos: int, c: char)
    requires
        tape_model_wf(t),
        i32::MIN <= pos <= i32::MAX,
    ensures
        tape_model_wf(tape_write(t, pos, c)),
        !t.cells.dom().is_empty() ==> tape_write(t, pos, c).lo <= t.lo,
        !t.cells.dom().is_empty() ==> tape_write(t, pos, c).hi >= t.hi,
        !t.cells.dom().is_empty() && t.lo <= pos <= t.hi ==> tape_write(t, pos, c).lo == t.lo
            && tape_write(t, pos, c).hi == t.hi,
{
    let t2 = tape_write(t, pos, c);
    assert(t2.cells.contains_key(pos as i32));
    assert(!t2.cells.dom().is_empty());
    if !t.cells.dom().is_empty() {
        assert(t2.cells.contains_key(t.lo as i32));
        assert(t2.cells.contains_key(t.hi as i32));
    }
}

/// The tape as stored: a hash map of written cells plus the cached extent.
pub struct Tape {
    cells: HashMap<i32, char>,
    min_pos: i32,
    max_pos: i32,
}

impl View for Tape {
    type V = TapeModel;

    closed spec fn view(&self) -> TapeModel {
        TapeModel { cells: self.cells@, lo: self.min_pos as int, hi: self.max_pos as int }
    }
}

impl Tape {
    /// The representation invariant, stated of the model.
    pub open spec fn wf(&self) -> bool {
        tape_model_wf(self@)
    }

    /// A tape with nothing written and extent `(0, 0)`.
    pub fn new() -> (t: Tape)
        ensures
            t.wf(),
            t@.cells == Map::<i32, char>::empty(),
            t@.lo == 0,
            t@.hi == 0,
    {
        let t = Tape { cells: HashMap::new(), min_pos: 0, max_pos: 0 };
        proof {
            assert(t@.cells.dom() =~= Set::<i32>::empty());
        }
        t
    }

    /// Reads the symbol at `pos`, substituting `blank` for a cell that was
    /// never written.  Never fails and never stores anything.
    pub fn read(&self, pos: i32, blank: char) -> (c: char)
        ensures
            c == tape_read(self@, pos as int, blank),
    {
        match self.cells.get(&pos) {
            Some(sym) => *sym,
            None => blank,
        }
    }

    /// Writes `c` at `pos`, storing the cell and widening the extent just
    /// enough to cover `pos`.
    pub fn write(&mut self, pos: i32, c: char)
        requires
            old(self).wf(),
        ensures
            final(self).wf(),
            final(self)@ == tape_write(old(self)@, pos as int, c),
    {
        proof {
            lemma_extent_monotone(self@, pos as int, c);
        }
        let was_empty: bool = self.cells.is_empty();
        self.cells.insert(pos, c);
        if was_empty {
            self.min_pos = pos;
            self.max_pos = pos;
        } else {
            if pos < self.min_pos {
                self.min_pos = pos;
            }
            if pos > self.max_pos {
                self.max_pos = pos;
            }
        }
    }

    /// The number of cells ever written.
    pub fn len(&self) -> (n: usize)
        ensures
            n == self@.cells.len(),
    {
        self.cells.len()
    }

    /// The extent: the least and greatest written positions, `(0, 0)` while
    /// the tape has no written cell.
    pub fn extent(&self) -> (r: (i32, i32))
        ensures
            r.0 == self@.lo,
            r.1 == self@.hi,
    {
        (self.min_pos, self.max_pos)
    }

    /// Renders the extent as a string, one symbol per position, with
    /// `blank` standing in for unwritten positions.
    pub fn render(&self, blank: char) -> (s: String)
        requires
            self.wf(),
        ensures
            s@ == spec_render(self@, blank),
    {
        let mut s: String = String::new();
        let hi: i64 = self.max_pos as i64;
        let mut p: i64 = self.min_pos as i64;
        while p <= hi
            invariant
                self.wf(),
                hi == self@.hi,
                self@.lo <= p <= hi + 1,
                s@.len() == p - self@.lo,
                forall|i: int|
                    0 <= i < s@.len() ==> s@[i] == tape_read(self@, self@.lo + i, blank),
            decreases hi + 1 - p,
        {
            let c: char = self.read(p as i32, blank);
            s.push(c);
            p += 1;
        }
        proof {
            assert(s@ =~= spec_render(self@, blank));
        }
        s
    }
}

} // verus!
