//! The piece catalog, rotation, and the "bag of seven" piece sequencer.
use vstd::prelude::*;

use macroquad::rand::ChooseRandom;

verus! {

/// A piece as a 4x4 occupancy matrix indexed `[row][column]`; a nonzero entry
/// is a filled cell.
pub type TetrominoShape = [[u8; 4]; 4];

/// The seven pieces in their spawn orientation: I, O, S, Z, J, L, T.
pub const SHAPES: [TetrominoShape; 7] = [
    [[0, 0, 0, 0], [1, 1, 1, 1], [0, 0, 0, 0], [0, 0, 0, 0]],
    [[0, 1, 1, 0], [0, 1, 1, 0], [0, 0, 0, 0], [0, 0, 0, 0]],
    [[0, 1, 1, 0], [1, 1, 0, 0], [0, 0, 0, 0], [0, 0, 0, 0]],
    [[1, 1, 0, 0], [0, 1, 1, 0], [0, 0, 0, 0], [0, 0, 0, 0]],
    [[1, 0, 0, 0], [1, 1, 1, 0], [0, 0, 0, 0], [0, 0, 0, 0]],
    [[0, 0, 1, 0], [1, 1, 1, 0], [0, 0, 0, 0], [0, 0, 0, 0]],
    [[0, 1, 0, 0], [1, 1, 1, 0], [0, 0, 0, 0], [0, 0, 0, 0]],
];

/// Whether cell `(r, c)` of the 4x4 matrix `shape` is filled.
pub open spec fn is_filled(shape: TetrominoShape, r: int, c: int) -> bool {
    shape[r][c] != 0
}

/// Whether `shape` has at least one filled cell.
pub open spec fn has_filled_cell(shape: TetrominoShape) -> bool {
    exists|r: int, c: int| 0 <= r < 4 && 0 <= c < 4 && #[trigger] is_filled(shape, r, c)
}

/// Whether `turned` is `shape` turned a quarter clockwise: the cell at row `r`,
/// column `c` moves to row `c`, column `3 - r`.
pub open spec fn is_rotation_of(turned: TetrominoShape, shape: TetrominoShape) -> bool {
    forall|r: int, c: int| 0 <= r < 4 && 0 <= c < 4 ==> turned[c][3 - r] == #[trigger] shape[r][c]
}

/// Every piece of the catalog has a filled cell.
pub proof fn lemma_catalog_filled(kind: int)
    requires
        0 <= kind < 7,
    ensures
        has_filled_cell(SHAPES[kind]),
{
    assert(is_filled(SHAPES[kind], 1, 1));
}

/// Returns `shape` turned a quarter clockwise within its 4x4 box.
pub fn rotate(shape: &TetrominoShape) -> (r: TetrominoShape)
    ensures
        is_rotation_of(r, *shape),
{
    let mut new_shape = [[0u8; 4]; 4];
    let mut y: usize = 0;
    while y < 4
        invariant
            y <= 4,
            forall|r: int, c: int| 0 <= r < y && 0 <= c < 4 ==> #[trigger] new_shape[c][3 - r] == shape[r][c],
        decreases 4 - y,
    {
        let mut x: usize = 0;
        while x < 4
            invariant
                y < 4,
                x <= 4,
                forall|r: int, c: int|
                    ((0 <= r < y && 0 <= c < 4) || (r == y && 0 <= c < x)) ==> #[trigger] new_shape[c][3
                        - r] == shape[r][c],
            decreases 4 - x,
        {
            new_shape[x][3 - y] = shape[y][x];
            x += 1;
        }
        y += 1;
    }
    new_shape
}

/// Four quarter turns bring a shape back to itself: four calls of `rotate`,
/// each on the result of the one before, return the shape they started from.
pub proof fn lemma_rotate_four_times(
    s0: TetrominoShape,
    s1: TetrominoShape,
    s2: TetrominoShape,
    s3: TetrominoShape,
    s4: TetrominoShape,
)
    requires
        is_rotation_of(s1, s0),
        is_rotation_of(s2, s1),
        is_rotation_of(s3, s2),
        is_rotation_of(s4, s3),
    ensures
        s4 == s0,
{
    assert forall|r: int| 0 <= r < 4 implies s4[r] =~= s0[r] by {
        assert forall|c: int| 0 <= c < 4 implies s4[r][c] == s0[r][c] by {
            assert(s4[r][c] == s3[3 - c][r]);
            assert(s3[3 - c][r] == s2[3 - r][3 - c]);
            assert(s2[3 - r][3 - c] == s1[c][3 - r]);
            assert(s1[c][3 - r] == s0[r][c]);
        }
    }
    assert(s4 =~= s0);
}


/// The seven piece kinds, each once.
pub open spec fn all_kinds() -> Seq<usize> {
    seq![0, 1, 2, 3, 4, 5, 6]
}

/// Relies on `ChooseRandom::shuffle` of macroquad (quad-rand's Fisher-Yates
/// pass, which only swaps elements): the result holds the same elements, in an
/// order that depends on the random generator.
#[verifier::external_body]
fn shuffle_pieces(v: &mut Vec<usize>)
    ensures
        final(v)@.to_multiset() == old(v)@.to_multiset(),
{
    v.shuffle();
}

/// The seven piece kinds in a random order.
fn shuffled_kinds() -> (r: Vec<usize>)
    ensures
        r@.len() == 7,
        r@.to_multiset() == all_kinds().to_multiset(),
{
    let mut v: Vec<usize> = Vec::new();
    let mut k: usize = 0;
    while k < 7
        invariant
            k <= 7,
            v@ == all_kinds().subrange(0, k as int),
        decreases 7 - k,
    {
        v.push(k);
        k += 1;
        assert(v@ =~= all_kinds().subrange(0, k as int));
    }
    assert(v@ =~= all_kinds());
    shuffle_pieces(&mut v);
    proof {
        vstd::seq_lib::to_multiset_len(v@);
        vstd::seq_lib::to_multiset_len(all_kinds());
    }
    v
}

/// The "bag of seven" sequencer: the seven piece kinds are dealt out in a
/// shuffled order, and a newly shuffled bag replaces an exhausted one.
pub struct TetrominoBag {
    bag: Vec<usize>,
    index: usize,
}

impl TetrominoBag {
    /// The current bag, in dealing order.
    pub closed spec fn pieces(&self) -> Seq<usize> {
        self.bag@
    }

    /// Position in the bag of the next piece to deal.
    pub closed spec fn cursor(&self) -> int {
        self.index as int
    }

    /// The bag holds each kind once and the cursor is inside it.
    pub open spec fn wf(&self) -> bool {
        &&& self.pieces().len() == 7
        &&& self.pieces().to_multiset() == all_kinds().to_multiset()
        &&& 0 <= self.cursor() < 7
    }

    /// The kind that the next draw deals.
    pub open spec fn upcoming(&self) -> usize {
        self.pieces()[self.cursor()]
    }

    /// Whether `after` is this sequencer after one draw: the cursor moves on in
    /// the same bag, or, past the last piece, starts over in a fresh bag.
    pub open spec fn advances_to(&self, after: Self) -> bool {
        &&& after.wf()
        &&& if self.cursor() + 1 < 7 {
            after.pieces() == self.pieces() && after.cursor() == self.cursor() + 1
        } else {
            after.cursor() == 0
        }
    }

    /// Every kind in a well-formed bag is a valid catalog index.
    pub proof fn lemma_upcoming_in_catalog(&self)
        requires
            self.wf(),
        ensures
            self.upcoming() < 7,
    {
        let v = self.upcoming();
        vstd::seq_lib::to_multiset_contains(self.pieces(), v);
        assert(self.pieces().contains(v)) by {
            assert(self.pieces()[self.cursor()] == v);
        }
        vstd::seq_lib::to_multiset_contains(all_kinds(), v);
    }

    /// A sequencer with a freshly shuffled bag.
    pub fn new() -> (r: Self)
        ensures
            r.wf(),
            r.cursor() == 0,
    {
        TetrominoBag { bag: shuffled_kinds(), index: 0 }
    }

    /// Deals the next kind and moves on; an exhausted bag is replaced by a
    /// freshly shuffled one.
    pub fn next(&mut self) -> (r: usize)
        requires
            old(self).wf(),
        ensures
            r == old(self).upcoming(),
            r < 7,
            old(self).advances_to(*final(self)),
    {
        proof {
            self.lemma_upcoming_in_catalog();
        }
        let idx = self.bag[self.index];
        self.index += 1;
        if self.index >= self.bag.len() {
            self.bag = shuffled_kinds();
            self.index = 0;
        }
        idx
    }

    /// The kind that `next` would deal, without dealing it.
    pub fn peek(&self) -> (r: usize)
        requires
            self.wf(),
        ensures
            r == self.upcoming(),
            r < 7,
    {
        proof {
            self.lemma_upcoming_in_catalog();
        }
        self.bag[self.index]
    }
}

/// Within the first seven draws from a fresh bag the cursor walks through one
/// and the same bag.
proof fn lemma_same_bag_before_end(bags: Seq<TetrominoBag>, i: int)
    requires
        0 <= i < 7,
        bags.len() == 8,
        bags[0].cursor() == 0,
        forall|j: int| 0 <= j < 7 ==> (#[trigger] bags[j]).advances_to(bags[j + 1]),
    ensures
        bags[i].pieces() == bags[0].pieces(),
        bags[i].cursor() == i,
    decreases i,
{
    if i > 0 {
        lemma_same_bag_before_end(bags, i - 1);
        assert(bags[i - 1].advances_to(bags[i]));
    }
}

/// Seven draws from a fresh bag deal each of the seven kinds exactly once:
/// if `bags[0]` is a sequencer as `new` returns it and each `bags[i + 1]` is
/// `bags[i]` after a `next` that returned `drawn[i]`, then `drawn` holds each
/// kind once, whatever the shuffle.
pub proof fn lemma_seven_draws_deal_every_kind(bags: Seq<TetrominoBag>, drawn: Seq<usize>)
    requires
        bags.len() == 8,
        drawn.len() == 7,
        bags[0].wf(),
        bags[0].cursor() == 0,
        forall|i: int|
            0 <= i < 7 ==> (#[trigger] bags[i]).advances_to(bags[i + 1]) && drawn[i]
                == bags[i].upcoming(),
    ensures
        drawn.to_multiset() == all_kinds().to_multiset(),
{
    assert forall|j: int| 0 <= j < 7 implies drawn[j] == bags[0].pieces()[j] by {
        lemma_same_bag_before_end(bags, j);
    }
    assert(drawn =~= bags[0].pieces());
}

} // verus!
