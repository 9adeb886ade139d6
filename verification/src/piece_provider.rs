use vstd::prelude::*;

use rand::seq::SliceRandom;
use rand::SeedableRng;

use crate::piece::Piece;
use crate::piece_factory::{is_spawn_piece, PieceFactory, PieceType};

verus! {

/// The outcome of shuffling `s` with a ChaCha8 generator that was seeded
/// with `seed` and advanced to word position `pos`: the reordered sequence
/// and the generator's word position afterwards. ChaCha8 is a pure stream
/// cipher, so this is a function of the arguments alone.
pub uninterp spec fn shuffled_kinds(seed: u64, pos: u128, s: Seq<PieceType>) -> (
    Seq<PieceType>,
    u128,
);

/// Relies on rand_chacha::ChaCha8Rng (seed_from_u64, set_word_pos,
/// get_word_pos) and rand::seq::SliceRandom::shuffle. A ChaCha8 generator's
/// output stream is fully determined by its seed and word position, and
/// shuffle performs an in-place Fisher-Yates permutation driven only by that
/// stream and the slice length, so both the reordered contents and the
/// generator's new word position are functions of the arguments alone; the
/// shuffle is a permutation of the slice.
#[verifier::external_body]
fn shuffle_kinds(seed: u64, pos: u128, v: &mut Vec<PieceType>) -> (new_pos: u128)
    ensures
        final(v)@ == shuffled_kinds(seed, pos, old(v)@).0,
        new_pos == shuffled_kinds(seed, pos, old(v)@).1,
        final(v)@.len() == old(v)@.len(),
        final(v)@.to_multiset() == old(v)@.to_multiset(),
{
    let mut rng = rand_chacha::ChaCha8Rng::seed_from_u64(seed);
    rng.set_word_pos(pos);
    v.shuffle(&mut rng);
    rng.get_word_pos()
}

/// One complete set of the seven piece types, in declaration order; every
/// fresh bag is a shuffle of this sequence.
pub open spec fn full_bag() -> Seq<PieceType> {
    seq![
        PieceType::T,
        PieceType::LeftL,
        PieceType::RightL,
        PieceType::LeftSkew,
        PieceType::RightSkew,
        PieceType::Square,
        PieceType::Straight,
    ]
}

fn full_bag_kinds() -> (r: Vec<PieceType>)
    ensures
        r@ == full_bag(),
{
    let mut v: Vec<PieceType> = Vec::new();
    v.push(PieceType::T);
    v.push(PieceType::LeftL);
    v.push(PieceType::RightL);
    v.push(PieceType::LeftSkew);
    v.push(PieceType::RightSkew);
    v.push(PieceType::Square);
    v.push(PieceType::Straight);
    proof {
        assert(v@ =~= full_bag());
    }
    v
}

/// The shuffled order and the generator position of the `r`-th bag produced
/// from `seed`: bag 0 is shuffled at word position 0, and each later bag is
/// shuffled at the position the previous bag's shuffle left behind. The
/// entire infinite supply is therefore a function of the seed alone.
pub open spec fn bags_state(seed: u64, r: nat) -> (Seq<PieceType>, u128)
    decreases r,
{
    if r == 0 {
        shuffled_kinds(seed, 0, full_bag())
    } else {
        shuffled_kinds(seed, bags_state(seed, (r - 1) as nat).1, full_bag())
    }
}

/// The type of the `n`-th piece (0-based) served from a supply seeded with
/// `seed`: pieces are drawn from the back of each shuffled bag, seven per
/// bag. This is the mathematical statement of determinism: the whole
/// sequence of served types is a function of the seed.
pub open spec fn kind_at(seed: u64, n: nat) -> PieceType {
    bags_state(seed, n / 7).0[6 - (n % 7) as int]
}

/// The type tags of the pieces in a bag, in storage order.
pub open spec fn bag_kinds(b: PieceBag) -> Seq<PieceType> {
    b.pieces@.map_values(|p: Piece| p.piece_type)
}

/// One shuffled set of the seven piece types, served back to front.
pub struct PieceBag {
    pub pieces: Vec<Piece>,
}

impl PieceBag {
    /// Build a fresh bag by shuffling one complete set of the seven types
    /// with the generator state (`seed`, `pos`); returns the bag and the
    /// generator's word position after the shuffle.
    pub fn new(seed: u64, pos: u128) -> (r: (PieceBag, u128))
        ensures
            bag_kinds(r.0) == shuffled_kinds(seed, pos, full_bag()).0,
            r.1 == shuffled_kinds(seed, pos, full_bag()).1,
            r.0.pieces@.len() == 7,
            bag_kinds(r.0).to_multiset() == full_bag().to_multiset(),
            forall|i: int|
                0 <= i < 7 ==> is_spawn_piece(#[trigger] r.0.pieces@[i], bag_kinds(r.0)[i])
                    && r.0.pieces@[i].wf(),
    {
        let mut kinds = full_bag_kinds();
        let new_pos = shuffle_kinds(seed, pos, &mut kinds);
        let mut pieces: Vec<Piece> = Vec::new();
        let mut i: usize = 0;
        while i < kinds.len()
            invariant
                kinds@.len() == 7,
                i <= 7,
                pieces@.len() == i,
                forall|j: int|
                    0 <= j < i ==> is_spawn_piece(#[trigger] pieces@[j], kinds@[j])
                        && pieces@[j].wf(),
            decreases kinds@.len() - i,
        {
            pieces.push(PieceFactory::get_piece(kinds[i]));
            i += 1;
        }
        let bag = PieceBag { pieces };
        proof {
            assert(bag_kinds(bag) =~= kinds@);
        }
        (bag, new_pos)
    }

    /// Serve the next piece from the back of the bag, or nothing when the
    /// bag is exhausted.
    pub fn get_piece(&mut self) -> (r: Option<Piece>)
        ensures
            old(self).pieces@.len() == 0 ==> r is None && final(self).pieces@ == old(
                self,
            ).pieces@,
            old(self).pieces@.len() > 0 ==> {
                &&& r == Some(old(self).pieces@.last())
                &&& final(self).pieces@ == old(self).pieces@.drop_last()
            },
    {
        self.pieces.pop()
    }

    pub fn get_bag_size(&self) -> (r: usize)
        ensures
            r == self.pieces@.len(),
    {
        self.pieces.len()
    }
}

/// The randomized piece supply: serves a de-biased infinite sequence of
/// pieces, seven-at-a-time fair, fully determined by its seed.
pub struct PieceProvider {
    pub seed: u64,
    pub pos: u128,
    pub current_bag: PieceBag,
    /// How many pieces have been served so far; tracked only for
    /// specification purposes.
    pub draws: Ghost<nat>,
}

/// Which bag the supply is on after `n` draws: the bag that served the most
/// recent draw (bag refills happen lazily, on the draw that needs them).
pub open spec fn round_of(n: nat) -> nat {
    if n == 0 {
        0
    } else {
        (n - 1) as nat / 7
    }
}

/// How many pieces of the current bag have been served after `n` draws
/// (7 means the bag is exhausted and the next draw will refill).
pub open spec fn taken_of(n: nat) -> nat {
    (n - 7 * round_of(n)) as nat
}

impl PieceProvider {
    /// The supply is well formed: its generator position and remaining bag
    /// contents are exactly those reached by `draws` draws from `seed`, the
    /// current bag holds each type at most once, and every stored piece is a
    /// fresh spawn piece of its recorded type.
    pub open spec fn wf(self) -> bool {
        let n = self.draws@;
        let r = round_of(n);
        let k = taken_of(n);
        &&& k <= 7
        &&& n == 7 * r + k
        &&& self.pos == bags_state(self.seed, r).1
        &&& bags_state(self.seed, r).0.len() == 7
        &&& bags_state(self.seed, r).0.to_multiset() == full_bag().to_multiset()
        &&& bag_kinds(self.current_bag) == bags_state(self.seed, r).0.take(7 - k as int)
        &&& forall|i: int|
            0 <= i < self.current_bag.pieces@.len() ==> is_spawn_piece(
                #[trigger] self.current_bag.pieces@[i],
                bag_kinds(self.current_bag)[i],
            ) && self.current_bag.pieces@[i].wf()
    }

    /// Start a supply from a 64-bit seed; the first bag is shuffled at once.
    pub fn new(seed: u64) -> (r: PieceProvider)
        ensures
            r.wf(),
            r.seed == seed,
            r.draws@ == 0,
    {
        let (bag, pos) = PieceBag::new(seed, 0);
        let provider = PieceProvider { seed, pos, current_bag: bag, draws: Ghost(0nat) };
        proof {
            assert(round_of(0) == 0);
            assert(taken_of(0) == 0);
            assert(bags_state(seed, 0) == shuffled_kinds(seed, 0, full_bag()));
            assert(bag_kinds(provider.current_bag) =~= bags_state(seed, 0).0.take(7));
        }
        provider
    }

    /// Serve the next piece. The type served is `kind_at(seed, n)` for the
    /// `n`-th draw - a function of the seed and the draw index alone, which
    /// is the determinism guarantee - and the piece is a fresh spawn piece
    /// of that type.
    pub fn get_piece(&mut self) -> (r: Piece)
        requires
            old(self).wf(),
        ensures
            final(self).wf(),
            final(self).seed == old(self).seed,
            final(self).draws@ == old(self).draws@ + 1,
            r.piece_type == kind_at(old(self).seed, old(self).draws@),
            is_spawn_piece(r, kind_at(old(self).seed, old(self).draws@)),
            r.wf(),
    {
        let ghost n = self.draws@;
        let ghost r0 = round_of(n);
        let ghost k0 = taken_of(n);
        if self.current_bag.get_bag_size() == 0 {
            proof {
                assert(bag_kinds(self.current_bag).len() == self.current_bag.pieces@.len());
                assert(bags_state(self.seed, r0).0.take(7 - k0 as int).len() == 7 - k0);
                assert(k0 == 7);
            }
            let (bag, new_pos) = PieceBag::new(self.seed, self.pos);
            self.current_bag = bag;
            self.pos = new_pos;
            proof {
                assert(bags_state(self.seed, r0 + 1) == shuffled_kinds(
                    self.seed,
                    bags_state(self.seed, r0).1,
                    full_bag(),
                ));
                assert(bag_kinds(self.current_bag) =~= bags_state(self.seed, r0 + 1).0.take(7));
            }
        }
        let ghost pre_pop = self.current_bag;
        proof {
            let r1 = if k0 == 7 {
                r0 + 1
            } else {
                r0
            };
            let k1 = if k0 == 7 {
                0nat
            } else {
                k0
            };
            let order = bags_state(self.seed, r1).0;
            assert(bag_kinds(pre_pop) == order.take(7 - k1 as int));
            assert(order.len() == 7);
            assert(order.take(7 - k1 as int).len() == 7 - k1);
            assert(bag_kinds(pre_pop).len() == pre_pop.pieces@.len());
            assert(pre_pop.pieces@.len() == 7 - k1);
            assert(k1 < 7);
        }
        let piece_opt = self.current_bag.get_piece();
        let piece = match piece_opt {
            Some(p) => p,
            None => {
                proof {
                    assert(false);
                }
                PieceFactory::get_piece(PieceType::T)
            },
        };
        proof {
            self.draws@ = n + 1;
        }
        proof {
            let r1 = if k0 == 7 {
                r0 + 1
            } else {
                r0
            };
            let k1 = if k0 == 7 {
                0nat
            } else {
                k0
            };
            // after the (lazy) refill the bag is on round r1 with k1 pieces taken
            assert(n == 7 * r1 + k1);
            vstd::arithmetic::div_mod::lemma_fundamental_div_mod_converse(
                n as int,
                7,
                r1 as int,
                k1 as int,
            );
            assert(n / 7 == r1 && n % 7 == k1);
            assert(round_of(n + 1) == r1);
            assert(taken_of(n + 1) == k1 + 1);
            let order = bags_state(self.seed, r1).0;
            assert(order.len() == 7);
            let remaining = order.take(7 - k1 as int);
            assert(remaining.len() == 7 - k1);
            assert(bag_kinds(pre_pop) == remaining);
            assert(piece == pre_pop.pieces@.last());
            assert(piece.piece_type == bag_kinds(pre_pop)[7 - k1 as int - 1]);
            assert(remaining[7 - k1 as int - 1] == order[6 - k1 as int]);
            assert(piece.piece_type == kind_at(self.seed, n));
            assert(self.current_bag.pieces@ == pre_pop.pieces@.drop_last());
            assert(bag_kinds(self.current_bag) =~= remaining.drop_last());
            assert(remaining.drop_last() =~= order.take(7 - (k1 + 1) as int));
        }
        piece
    }
}

/// Determinism: two supplies built from the same seed that have served the
/// same number of pieces are in identical states, and the type of every draw
/// either will ever serve is `kind_at(seed, n)` - a function of the seed and
/// the draw index alone. Identical seeds therefore yield identical infinite
/// sequences of piece types.
pub proof fn lemma_same_seed_same_sequence(p1: PieceProvider, p2: PieceProvider)
    requires
        p1.wf(),
        p2.wf(),
        p1.seed == p2.seed,
        p1.draws@ == p2.draws@,
    ensures
        bag_kinds(p1.current_bag) == bag_kinds(p2.current_bag),
        p1.pos == p2.pos,
        forall|m: nat| kind_at(p1.seed, m) == kind_at(p2.seed, m),
{
}

/// Fairness: whenever the current bag is full - that is, at the start of any
/// run of seven consecutive draws served from one bag - each of the seven
/// piece types appears in it exactly once, so those seven draws serve every
/// type exactly once.
pub proof fn lemma_bag_fairness(p: PieceProvider)
    requires
        p.wf(),
        p.current_bag.pieces@.len() == 7,
    ensures
        forall|k: PieceType| bag_kinds(p.current_bag).to_multiset().count(k) == 1,
{
    broadcast use vstd::seq_lib::group_to_multiset_ensures;

    let n = p.draws@;
    let r = round_of(n);
    let k0 = taken_of(n);
    let order = bags_state(p.seed, r).0;
    assert(bag_kinds(p.current_bag).len() == p.current_bag.pieces@.len());
    assert(order.take(7 - k0 as int).len() == 7 - k0);
    assert(k0 == 0);
    assert(order.take(7) =~= order);
    assert(bag_kinds(p.current_bag).to_multiset() == full_bag().to_multiset());
    assert(full_bag().no_duplicates());
    full_bag().lemma_multiset_has_no_duplicates();
    assert forall|k: PieceType| bag_kinds(p.current_bag).to_multiset().count(k) == 1 by {
        match k {
            PieceType::T => assert(full_bag()[0] == k),
            PieceType::LeftL => assert(full_bag()[1] == k),
            PieceType::RightL => assert(full_bag()[2] == k),
            PieceType::LeftSkew => assert(full_bag()[3] == k),
            PieceType::RightSkew => assert(full_bag()[4] == k),
            PieceType::Square => assert(full_bag()[5] == k),
            PieceType::Straight => assert(full_bag()[6] == k),
        }
        assert(full_bag().contains(k));
        assert(full_bag().to_multiset().count(k) > 0);
    }
}

/// No two pieces in the vector share a type tag. (Pieces are compared by
/// type only; position and rotation phase are irrelevant.)
pub fn has_unique_elements(pieces: &Vec<Piece>) -> (r: bool)
    ensures
        r <==> (forall|i: int, j: int|
            0 <= i < j < pieces@.len() ==> (#[trigger] pieces@[i]).piece_type != (
            #[trigger] pieces@[j]).piece_type),
{
    let n = pieces.len();
    let mut i: usize = 0;
    while i < n
        invariant
            n == pieces@.len(),
            i <= n,
            forall|a: int, b: int|
                0 <= a < b < i ==> (#[trigger] pieces@[a]).piece_type != (
                #[trigger] pieces@[b]).piece_type,
        decreases n - i,
    {
        let mut j: usize = 0;
        while j < i
            invariant
                n == pieces@.len(),
                j <= i < n,
                forall|b: int|
                    0 <= b < j ==> (#[trigger] pieces@[b]).piece_type != pieces@[i as int].piece_type,
            decreases i - j,
        {
            if pieces[j].get_piece_type() == pieces[i].get_piece_type() {
                return false;
            }
            j += 1;
        }
        i += 1;
    }
    true
}

} // verus!
