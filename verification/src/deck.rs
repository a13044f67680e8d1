//! The action-card deck: the five card types, the fixed 48-card
//! composition, and the shuffle.

use vstd::prelude::*;
use vstd::multiset::Multiset;
use crate::DECK_SIZE;

verus! {

/// The five action cards of Twist mode.
#[derive(Copy, Clone, PartialEq, Eq, Structural, Debug)]
pub enum ActionType {
    Missile,
    Torpedo,
    Patrol,
    RadarScan,
    Reinforce,
}

/// The deck of action cards; cards are drawn from the end of the list.
pub struct Deck {
    pub deck_list: Vec<ActionType>,
}

/// Number of cards equal to `t` in the run `s`.
pub open spec fn count_of(s: Seq<ActionType>, t: ActionType) -> nat
    decreases s.len(),
{
    if s.len() == 0 {
        0
    } else {
        count_of(s.drop_last(), t) + if s.last() == t {
            1nat
        } else {
            0nat
        }
    }
}

/// Counting cards of one type agrees with the multiset view of the run, so
/// any reordering that keeps the multiset keeps every count.
pub proof fn lemma_count_of_is_multiset_count(s: Seq<ActionType>, t: ActionType)
    ensures
        count_of(s, t) == s.to_multiset().count(t),
    decreases s.len(),
{
    broadcast use vstd::seq_lib::group_to_multiset_ensures;

    if s.len() == 0 {
        assert(s.to_multiset() =~= Multiset::empty());
    } else {
        lemma_count_of_is_multiset_count(s.drop_last(), t);
        assert(s =~= s.drop_last().push(s.last()));
        assert(s.drop_last().push(s.last()).to_multiset() =~= s.drop_last().to_multiset().insert(
            s.last(),
        ));
    }
}

/// Counting distributes over appending one card.
pub(crate) proof fn lemma_count_of_push(s: Seq<ActionType>, c: ActionType)
    ensures
        forall|t: ActionType|
            #[trigger] count_of(s.push(c), t) == count_of(s, t) + if c == t {
                1nat
            } else {
                0nat
            },
{
    assert forall|t: ActionType|
        #[trigger] count_of(s.push(c), t) == count_of(s, t) + if c == t {
            1nat
        } else {
            0nat
        } by {
        assert(s.push(c).drop_last() =~= s);
    }
}

/// Relies on rand::seq::SliceRandom::shuffle: an in-place Fisher-Yates
/// reordering of the slice, so the result is a permutation of the input:
/// same length, no card added or lost.
#[verifier::external_body]
fn shuffle_cards(v: &mut Vec<ActionType>)
    ensures
        final(v)@.to_multiset() == old(v)@.to_multiset(),
        final(v)@.len() == old(v)@.len(),
{
    rand::seq::SliceRandom::shuffle(v.as_mut_slice(), &mut rand::rng());
}

impl Deck {
    /// An empty deck.
    pub fn new() -> (d: Deck)
        ensures
            d.deck_list@.len() == 0,
    {
        Deck { deck_list: Vec::with_capacity(DECK_SIZE) }
    }

    /// Populate the deck with the fixed composition, in block order:
    /// 16 Missile, 9 Torpedo, 8 Patrol, 7 Reinforce, 8 RadarScan.
    pub fn build(&mut self)
        ensures
            final(self).deck_list@.len() == DECK_SIZE,
            count_of(final(self).deck_list@, ActionType::Missile) == 16,
            count_of(final(self).deck_list@, ActionType::Torpedo) == 9,
            count_of(final(self).deck_list@, ActionType::Patrol) == 8,
            count_of(final(self).deck_list@, ActionType::Reinforce) == 7,
            count_of(final(self).deck_list@, ActionType::RadarScan) == 8,
            forall|i: int| 0 <= i < 16 ==> final(self).deck_list@[i] == ActionType::Missile,
            forall|i: int| 16 <= i < 25 ==> final(self).deck_list@[i] == ActionType::Torpedo,
            forall|i: int| 25 <= i < 33 ==> final(self).deck_list@[i] == ActionType::Patrol,
            forall|i: int| 33 <= i < 40 ==> final(self).deck_list@[i] == ActionType::Reinforce,
            forall|i: int| 40 <= i < 48 ==> final(self).deck_list@[i] == ActionType::RadarScan,
    {
        self.deck_list = Vec::with_capacity(DECK_SIZE);
        self.push_run(ActionType::Missile, 16);
        self.push_run(ActionType::Torpedo, 9);
        self.push_run(ActionType::Patrol, 8);
        self.push_run(ActionType::Reinforce, 7);
        self.push_run(ActionType::RadarScan, 8);
    }

    /// Append `n` cards of type `c` to the deck.
    #[verifier::loop_isolation(false)]
    fn push_run(&mut self, c: ActionType, n: usize)
        requires
            old(self).deck_list@.len() + n <= DECK_SIZE,
        ensures
            final(self).deck_list@ == old(self).deck_list@ + Seq::new(
                n as nat,
                |i: int| c,
            ),
            final(self).deck_list@.len() == old(self).deck_list@.len() + n,
            forall|t: ActionType|
                #[trigger] count_of(final(self).deck_list@, t) == count_of(
                    old(self).deck_list@,
                    t,
                ) + if c == t {
                    n as nat
                } else {
                    0nat
                },
    {
        let mut i: usize = 0;
        while i < n
            invariant
                i <= n,
                self.deck_list@ == old(self).deck_list@ + Seq::new(i as nat, |m: int| c),
                forall|t: ActionType|
                    #[trigger] count_of(self.deck_list@, t) == count_of(old(self).deck_list@, t)
                        + if c == t {
                        i as nat
                    } else {
                        0nat
                    },
            decreases n - i,
        {
            proof {
                lemma_count_of_push(self.deck_list@, c);
            }
            self.deck_list.push(c);
            proof {
                assert(self.deck_list@ =~= old(self).deck_list@ + Seq::new((i + 1) as nat, |m: int| c));
            }
            i = i + 1;
        }
    }

    /// Shuffle the deck: the cards are reordered at random; the multiset of
    /// cards, and so the count of each type, is unchanged.
    pub fn shuffle(&mut self)
        ensures
            final(self).deck_list@.to_multiset() == old(self).deck_list@.to_multiset(),
            final(self).deck_list@.len() == old(self).deck_list@.len(),
            forall|t: ActionType|
                #[trigger] count_of(final(self).deck_list@, t) == count_of(
                    old(self).deck_list@,
                    t,
                ),
    {
        shuffle_cards(&mut self.deck_list);
        proof {
            assert forall|t: ActionType|
                #[trigger] count_of(self.deck_list@, t) == count_of(old(self).deck_list@, t) by {
                lemma_count_of_is_multiset_count(self.deck_list@, t);
                lemma_count_of_is_multiset_count(old(self).deck_list@, t);
            }
        }
    }
}

} // verus!
