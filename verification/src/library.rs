//! The count of live channels that guards the engine's process-wide state.

use vstd::prelude::*;

verus! {

/// Counts the channels that are alive. The engine's global state is set up
/// when the count leaves zero and torn down when it comes back to zero.
#[derive(Debug)]
pub struct Library {
    live: usize,
}

impl View for Library {
    type V = nat;

    closed spec fn view(&self) -> nat {
        self.live as nat
    }
}

impl Library {
    /// A count of zero: no channel is alive, no global state is set up.
    pub fn new() -> (lib: Library)
        ensures
            lib@ == 0,
    {
        Library { live: 0 }
    }

    /// The number of channels that are alive.
    pub fn live(&self) -> (n: usize)
        ensures
            n == self@,
    {
        self.live
    }

    /// Whether the engine's global state is set up.
    pub fn is_initialized(&self) -> (b: bool)
        ensures
            b == (self@ > 0),
    {
        self.live > 0
    }

    /// Whether one more channel can be counted.
    pub fn has_room(&self) -> (b: bool)
        ensures
            b == (self@ < usize::MAX),
    {
        self.live < usize::MAX
    }

    /// Counts one more channel. The answer is `true` when this one is the
    /// first, which is when the global state comes into being.
    pub fn acquire(&mut self) -> (first: bool)
        requires
            old(self)@ < usize::MAX,
        ensures
            final(self)@ == old(self)@ + 1,
            first == creates_state(old(self)@),
    {
        let first = self.live == 0;
        self.live = self.live + 1;
        first
    }

    /// Counts one channel less. The answer is `true` when it was the last,
    /// which is when the global state goes away.
    pub fn release(&mut self) -> (last: bool)
        requires
            old(self)@ > 0,
        ensures
            final(self)@ == old(self)@ - 1,
            last == destroys_state(old(self)@),
    {
        self.live = self.live - 1;
        self.live == 0
    }
}

/// Whether counting one more channel, with `live` alive before, sets the
/// global state up.
pub open spec fn creates_state(live: nat) -> bool {
    live == 0
}

/// Whether counting one channel less, with `live` alive before, tears the
/// global state down.
pub open spec fn destroys_state(live: nat) -> bool {
    live == 1
}

/// What happens to a channel: it is created or destroyed.
#[derive(Clone, Copy, Debug, PartialEq, Eq, Structural)]
pub enum Lifecycle {
    Create,
    Destroy,
}

/// The count and the number of set-ups and tear-downs after a history.
pub struct Tally {
    pub live: int,
    pub inits: nat,
    pub cleanups: nat,
}

/// Whether a history destroys only channels that are alive.
pub open spec fn orderly(history: Seq<Lifecycle>) -> bool
    decreases history.len(),
{
    if history.len() == 0 {
        true
    } else {
        orderly(history.drop_last()) && (history.last() == Lifecycle::Destroy ==> tally(
            history.drop_last(),
        ).live > 0)
    }
}

/// Counts a history, starting with no channel and no global state.
pub open spec fn tally(history: Seq<Lifecycle>) -> Tally
    decreases history.len(),
{
    if history.len() == 0 {
        Tally { live: 0, inits: 0, cleanups: 0 }
    } else {
        let before = tally(history.drop_last());
        match history.last() {
            Lifecycle::Create => Tally {
                live: before.live + 1,
                inits: if before.live >= 0 && creates_state(before.live as nat) {
                    before.inits + 1
                } else {
                    before.inits
                },
                cleanups: before.cleanups,
            },
            Lifecycle::Destroy => Tally {
                live: before.live - 1,
                inits: before.inits,
                cleanups: if before.live >= 0 && destroys_state(before.live as nat) {
                    (before.cleanups + 1) as nat
                } else {
                    before.cleanups
                },
            },
        }
    }
}

/// The number of creations in a history.
pub open spec fn creations(history: Seq<Lifecycle>) -> nat
    decreases history.len(),
{
    if history.len() == 0 {
        0
    } else {
        creations(history.drop_last()) + if history.last() == Lifecycle::Create {
            1nat
        } else {
            0nat
        }
    }
}

/// Whether some channel is alive after every step of a history but the last.
pub open spec fn never_idle_within(history: Seq<Lifecycle>) -> bool {
    forall|k: int| 0 < k < history.len() ==> (#[trigger] tally(history.take(k))).live > 0
}

/// In every orderly history the count is the creations less the
/// destructions, never negative, and the global state has been set up once
/// more than torn down exactly while a channel is alive. So it is never torn
/// down under a live channel, and never set up twice without a tear-down
/// between.
pub proof fn lemma_library_balance(history: Seq<Lifecycle>)
    requires
        orderly(history),
    ensures
        tally(history).live >= 0,
        tally(history).live == 2 * creations(history) - history.len(),
        tally(history).inits == tally(history).cleanups + (if tally(history).live > 0 {
            1nat
        } else {
            0nat
        }),
    decreases history.len(),
{
    if history.len() > 0 {
        lemma_library_balance(history.drop_last());
    }
}

/// Any number of channels, created and destroyed in any orderly way, with
/// some channel alive from the first creation to the last destruction: once
/// the count is back at zero the global state has been set up exactly once
/// and torn down exactly once.
pub proof fn lemma_one_init_one_cleanup(history: Seq<Lifecycle>)
    requires
        orderly(history),
        history.len() > 0,
        never_idle_within(history),
        tally(history).live == 0,
    ensures
        tally(history).inits == 1,
        tally(history).cleanups == 1,
        history.len() == 2 * creations(history),
{
    lemma_library_balance(history);
    lemma_inits_while_busy(history, history.len() - 1);
    let before = history.drop_last();
    assert(before =~= history.take(history.len() - 1));
    lemma_library_balance(before);
}

/// While some channel stays alive after every step, the global state is set
/// up exactly once, at the first step, and not torn down.
proof fn lemma_inits_while_busy(history: Seq<Lifecycle>, k: int)
    requires
        orderly(history),
        never_idle_within(history),
        0 <= k < history.len(),
    ensures
        orderly(history.take(k)),
        k > 0 ==> tally(history.take(k)).inits == 1 && tally(history.take(k)).cleanups == 0,
        k == 0 ==> tally(history.take(k)).inits == 0 && tally(history.take(k)).cleanups == 0,
    decreases k,
{
    lemma_orderly_prefix(history, k);
    if k > 0 {
        lemma_inits_while_busy(history, k - 1);
        assert(history.take(k).drop_last() =~= history.take(k - 1));
        assert(tally(history.take(k)).live > 0);
        if k - 1 > 0 {
            assert(tally(history.take(k - 1)).live > 0);
        } else {
            assert(history.take(0).len() == 0);
        }
    } else {
        assert(history.take(0).len() == 0);
    }
}

/// Every prefix of an orderly history is orderly.
proof fn lemma_orderly_prefix(history: Seq<Lifecycle>, k: int)
    requires
        orderly(history),
        0 <= k <= history.len(),
    ensures
        orderly(history.take(k)),
    decreases history.len(),
{
    if k == history.len() {
        assert(history.take(k) =~= history);
    } else {
        lemma_orderly_prefix(history.drop_last(), k);
        assert(history.drop_last().take(k) =~= history.take(k));
    }
}

} // verus!
