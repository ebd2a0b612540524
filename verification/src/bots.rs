//! Round-robin rotation over the identities the broker may act as.

use vstd::arithmetic::div_mod::{
    lemma_fundamental_div_mod, lemma_fundamental_div_mod_converse, lemma_mod_add_multiples_vanish,
};
use vstd::prelude::*;

verus! {

/// Mathematical value of a [`RoundRobinBot`]: the ordered pool and the
/// number of the next turn.
pub struct Rotation {
    pub tokens: Seq<Seq<char>>,
    pub counter: nat,
}

impl Rotation {
    /// The identity that the next turn hands out.
    pub open spec fn current(self) -> Seq<char>
        recommends
            self.tokens.len() > 0,
    {
        self.tokens[place(self.counter as int, self.tokens.len() as int)]
    }

    /// The place in the pool of the identity handed out `turn` turns from
    /// now, as long as the counter does not start again at zero.
    pub open spec fn place_at(self, turn: int) -> int
        recommends
            self.tokens.len() > 0,
    {
        place(self.counter + turn, self.tokens.len() as int)
    }

    /// Whether one of the next turns, as many as the pool has identities,
    /// hands out the identity at the place `wanted`.
    pub open spec fn reaches(self, wanted: int) -> bool {
        exists|i: int| 0 <= i < self.tokens.len() && #[trigger] self.place_at(i) == wanted
    }

    /// The rotation after one turn: the counter moves on by one and starts
    /// again at zero once it has reached the largest `usize`.
    pub open spec fn step(self) -> Rotation {
        Rotation {
            tokens: self.tokens,
            counter: if self.counter >= usize::MAX {
                0
            } else {
                self.counter + 1
            },
        }
    }

    /// The rotation after `turns` turns.
    pub open spec fn after(self, turns: nat) -> Rotation
        decreases turns,
    {
        if turns == 0 {
            self
        } else {
            self.step().after((turns - 1) as nat)
        }
    }
}

/// The place in the pool of the identity handed out at turn `counter`.
pub open spec fn place(counter: int, pool: int) -> int
    recommends
        pool > 0,
{
    counter % pool
}

/// As long as the counter does not start again at zero, every turn moves it
/// on by one and leaves the pool as it is.
pub proof fn lemma_turns_count_up(rotation: Rotation, turns: nat)
    requires
        rotation.counter + turns <= usize::MAX,
    ensures
        rotation.after(turns).counter == rotation.counter + turns,
        rotation.after(turns).tokens == rotation.tokens,
    decreases turns,
{
    if turns > 0 {
        lemma_turns_count_up(rotation.step(), (turns - 1) as nat);
    }
}

proof fn lemma_places_differ(counter: int, pool: int, i: int, j: int)
    requires
        0 <= counter,
        0 < pool,
        0 <= i < j < pool,
    ensures
        place(counter + i, pool) != place(counter + j, pool),
{
    lemma_fundamental_div_mod(counter + i, pool);
    lemma_fundamental_div_mod(counter + j, pool);
    let qi = (counter + i) / pool;
    let qj = (counter + j) / pool;
    if place(counter + i, pool) == place(counter + j, pool) {
        assert(j - i == pool * (qj - qi)) by (nonlinear_arith)
            requires
                counter + i == pool * qi + (counter + i) % pool,
                counter + j == pool * qj + (counter + j) % pool,
                (counter + i) % pool == (counter + j) % pool,
        ;
        assert(false) by (nonlinear_arith)
            requires
                j - i == pool * (qj - qi),
                0 < j - i < pool,
        ;
    }
}

proof fn lemma_place_is_reached(counter: int, pool: int, wanted: int) -> (turn: int)
    requires
        0 <= counter,
        0 < pool,
        0 <= wanted < pool,
    ensures
        0 <= turn < pool,
        place(counter + turn, pool) == wanted,
{
    lemma_fundamental_div_mod(counter, pool);
    let q = counter / pool;
    let r = counter % pool;
    if wanted >= r {
        let turn = wanted - r;
        assert(counter + turn == q * pool + wanted) by (nonlinear_arith)
            requires
                counter == pool * q + r,
                turn == wanted - r,
        ;
        lemma_fundamental_div_mod_converse(counter + turn, pool, q, wanted);
        turn
    } else {
        let turn = wanted - r + pool;
        assert(counter + turn == (q + 1) * pool + wanted) by (nonlinear_arith)
            requires
                counter == pool * q + r,
                turn == wanted - r + pool,
        ;
        lemma_fundamental_div_mod_converse(counter + turn, pool, q + 1, wanted);
        turn
    }
}

/// Round robin: over as many turns as the pool has identities, every
/// identity is handed out at exactly one turn, each turn hands out the one
/// that follows the one before in the order of the pool, and the turn after
/// the last hands out the first again. A new rotation starts with the
/// first identity of the pool. This holds of turns over which the counter
/// does not start again at zero.
pub proof fn lemma_round_robin(rotation: Rotation)
    requires
        rotation.tokens.len() > 0,
        rotation.counter + rotation.tokens.len() <= usize::MAX,
    ensures
        forall|i: int|
            0 <= i <= rotation.tokens.len() ==> (#[trigger] rotation.after(i as nat)).current()
                == rotation.tokens[rotation.place_at(i)],
        forall|i: int, j: int|
            0 <= i < j < rotation.tokens.len() ==> #[trigger] rotation.place_at(i)
                != #[trigger] rotation.place_at(j),
        forall|wanted: int|
            0 <= wanted < rotation.tokens.len() ==> #[trigger] rotation.reaches(wanted),
        forall|i: int|
            0 <= i < rotation.tokens.len() ==> 0 <= #[trigger] rotation.place_at(i)
                < rotation.tokens.len() && rotation.place_at(i + 1) == if rotation.place_at(i) + 1
                == rotation.tokens.len() {
                0
            } else {
                rotation.place_at(i) + 1
            },
        rotation.after(rotation.tokens.len()).current() == rotation.current(),
        rotation.counter == 0 ==> forall|i: int|
            0 <= i < rotation.tokens.len() ==> (#[trigger] rotation.after(i as nat)).current()
                == rotation.tokens[i],
{
    let pool = rotation.tokens.len() as int;
    let counter = rotation.counter as int;
    assert forall|i: int| 0 <= i <= pool implies (#[trigger] rotation.after(i as nat)).current()
        == rotation.tokens[rotation.place_at(i)] by {
        lemma_turns_count_up(rotation, i as nat);
    }
    assert forall|i: int, j: int| 0 <= i < j < pool implies #[trigger] rotation.place_at(i)
        != #[trigger] rotation.place_at(j) by {
        lemma_places_differ(counter, pool, i, j);
    }
    assert forall|wanted: int| 0 <= wanted < pool implies #[trigger] rotation.reaches(wanted) by {
        let turn = lemma_place_is_reached(counter, pool, wanted);
        assert(rotation.place_at(turn) == wanted);
    }
    assert forall|i: int| 0 <= i < pool implies 0 <= #[trigger] rotation.place_at(i) < pool
        && rotation.place_at(i + 1) == if rotation.place_at(i) + 1 == pool {
        0
    } else {
        rotation.place_at(i) + 1
    } by {
        lemma_fundamental_div_mod(counter + i, pool);
        let q = (counter + i) / pool;
        let r = (counter + i) % pool;
        if r + 1 < pool {
            assert(counter + i + 1 == q * pool + (r + 1)) by (nonlinear_arith)
                requires
                    counter + i == pool * q + r,
            ;
            lemma_fundamental_div_mod_converse(counter + i + 1, pool, q, r + 1);
        } else {
            assert(counter + i + 1 == (q + 1) * pool + 0) by (nonlinear_arith)
                requires
                    counter + i == pool * q + r,
                    r + 1 == pool,
            ;
            lemma_fundamental_div_mod_converse(counter + i + 1, pool, q + 1, 0);
        }
    }
    lemma_turns_count_up(rotation, pool as nat);
    lemma_mod_add_multiples_vanish(counter, pool);
    if counter == 0 {
        assert forall|i: int| 0 <= i < pool implies (#[trigger] rotation.after(i as nat)).current()
            == rotation.tokens[i] by {
            lemma_turns_count_up(rotation, i as nat);
            lemma_fundamental_div_mod_converse(i, pool, 0, i);
        }
    }
}

/// A pool of backend identities handed out in turn.
pub struct RoundRobinBot {
    bot_tokens: Vec<String>,
    current_index: usize,
}

impl View for RoundRobinBot {
    type V = Rotation;

    closed spec fn view(&self) -> Rotation {
        Rotation {
            tokens: Seq::new(self.bot_tokens@.len(), |i: int| self.bot_tokens@[i]@),
            counter: self.current_index as nat,
        }
    }
}

impl RoundRobinBot {
    /// A rotation over `bot_tokens` that starts with the first of them.
    pub fn new(bot_tokens: Vec<String>) -> (rotator: Self)
        ensures
            rotator@.tokens.len() == bot_tokens@.len(),
            forall|i: int| 0 <= i < bot_tokens@.len() ==> rotator@.tokens[i] == bot_tokens@[i]@,
            rotator@.counter == 0,
    {
        RoundRobinBot { bot_tokens, current_index: 0 }
    }

    /// Number of identities in the pool.
    pub fn pool_size(&self) -> (n: usize)
        ensures
            n == self@.tokens.len(),
    {
        self.bot_tokens.len()
    }

    /// Hands out the token of the identity whose turn it is and moves the
    /// rotation on by one turn.
    pub fn get_bot(&mut self) -> (token: String)
        requires
            old(self)@.tokens.len() > 0,
        ensures
            token@ == old(self)@.current(),
            final(self)@ == old(self)@.step(),
    {
        let n: usize = self.bot_tokens.len();
        let index: usize = self.current_index % n;
        let token = self.bot_tokens[index].clone();
        self.current_index = self.current_index.wrapping_add(1);
        assert(final(self)@.tokens =~= old(self)@.tokens);
        token
    }
}

} // verus!
