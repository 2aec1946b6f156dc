//! The event multiplexer's scheduling state. Two independently-paced
//! sources — inbound chat messages and code-insertion notifications — feed
//! one dispatch loop; the loop asks this state, at each turn, which pending
//! source to service. The policy is biased toward the notification source
//! but bounded: a source that has been serviced `bound` consecutive times
//! yields to the other whenever the other has a pending item, so neither
//! source can be starved.

use vstd::prelude::*;

verus! {

/// Which of the two event sources an event came from.
#[derive(Clone, Copy, Debug, PartialEq, Eq, Structural)]
pub enum Source {
    Chat,
    Codefall,
}

/// The multiplexer's scheduling state: the configured unfairness bound,
/// the source serviced last, and how many consecutive times it has been
/// serviced (counted up to the bound).
pub struct Multiplexer {
    pub bound: u32,
    pub last: Source,
    pub run: u32,
}

/// What one scheduling step guarantees: the picked source was pending, a
/// source at its bound yields when both are pending, and the run length is
/// accounted for.
pub open spec fn mux_step(
    pre: Multiplexer,
    chat_pending: bool,
    code_pending: bool,
    picked: Source,
    post: Multiplexer,
) -> bool {
    &&& pre.wf()
    &&& post.wf()
    &&& (picked == Source::Chat ==> chat_pending)
    &&& (picked == Source::Codefall ==> code_pending)
    &&& (chat_pending && code_pending && pre.last == picked ==> pre.run < pre.bound)
    &&& post.bound == pre.bound
    &&& post.last == picked
    &&& post.run as int == (if pre.last == picked {
        if pre.run >= pre.bound {
            pre.bound as int
        } else {
            pre.run + 1
        }
    } else {
        1
    })
}

impl Multiplexer {
    /// The state is well formed: a positive bound, a run no longer than it.
    pub open spec fn wf(&self) -> bool {
        self.bound >= 1 && self.run <= self.bound
    }

    /// A fresh multiplexer with the given unfairness bound.
    pub fn new(bound: u32) -> (m: Multiplexer)
        requires
            bound >= 1,
        ensures
            m.wf(),
            m.bound == bound,
            m.run == 0,
    {
        Multiplexer { bound, last: Source::Chat, run: 0 }
    }

    /// Decides which pending source to service next and records the
    /// decision. `None` when neither source has a pending item. The
    /// notification source is preferred, except that a source already
    /// serviced `bound` consecutive times yields to the other when both
    /// are pending.
    pub fn pick(&mut self, chat_pending: bool, code_pending: bool) -> (r: Option<Source>)
        requires
            old(self).wf(),
        ensures
            final(self).wf(),
            r is None <==> (!chat_pending && !code_pending),
            r is None ==> *final(self) == *old(self),
            (chat_pending && code_pending && old(self).last == Source::Codefall
                && old(self).run >= old(self).bound) ==> r == Some(Source::Chat),
            (chat_pending && code_pending && old(self).last == Source::Chat
                && old(self).run >= old(self).bound) ==> r == Some(Source::Codefall),
            (code_pending && !(chat_pending && old(self).last == Source::Codefall
                && old(self).run >= old(self).bound)) ==> r == Some(Source::Codefall),
            r matches Some(src) ==> mux_step(
                *old(self),
                chat_pending,
                code_pending,
                src,
                *final(self),
            ),
    {
        if code_pending && (!chat_pending || self.last != Source::Codefall || self.run
            < self.bound) {
            self.note(Source::Codefall);
            Some(Source::Codefall)
        } else if chat_pending {
            self.note(Source::Chat);
            Some(Source::Chat)
        } else {
            None
        }
    }

    /// Records one service of `src` in the run counter.
    fn note(&mut self, src: Source)
        requires
            old(self).wf(),
        ensures
            final(self).wf(),
            final(self).bound == old(self).bound,
            final(self).last == src,
            final(self).run as int == (if old(self).last == src {
                if old(self).run >= old(self).bound {
                    old(self).bound as int
                } else {
                    old(self).run + 1
                }
            } else {
                1
            }),
    {
        if self.last == src {
            if self.run < self.bound {
                self.run = self.run + 1;
            }
        } else {
            self.last = src;
            self.run = 1;
        }
    }
}

/// The other source.
pub open spec fn other(src: Source) -> Source {
    match src {
        Source::Chat => Source::Codefall,
        Source::Codefall => Source::Chat,
    }
}

/// Whether the given source has a pending item.
pub open spec fn pending_of(src: Source, chat_pending: bool, code_pending: bool) -> bool {
    match src {
        Source::Chat => chat_pending,
        Source::Codefall => code_pending,
    }
}

/// Along a window of steps that all service the same source, the run
/// counter grows by one each step (it cannot hit its cap, because the
/// other source stays pending).
proof fn lemma_window_run(
    states: Seq<Multiplexer>,
    chat_p: Seq<bool>,
    code_p: Seq<bool>,
    picks: Seq<Source>,
    a: int,
    k: int,
)
    requires
        states.len() == picks.len() + 1,
        chat_p.len() == picks.len(),
        code_p.len() == picks.len(),
        forall|t: int|
            0 <= t < picks.len() ==> mux_step(states[t], chat_p[t], code_p[t], picks[t], states[t
                + 1]),
        0 <= a,
        1 <= k,
        a + k <= picks.len(),
        forall|t: int| a <= t < a + k ==> picks[t] == picks[a],
        forall|t: int| a <= t < a + k ==> pending_of(other(picks[a]), chat_p[t], code_p[t]),
    ensures
        states[a + k].last == picks[a],
        states[a + k].run >= k,
        states[a + k].bound == states[a].bound,
    decreases k,
{
    if k == 1 {
        assert(mux_step(states[a], chat_p[a], code_p[a], picks[a], states[a + 1]));
    } else {
        lemma_window_run(states, chat_p, code_p, picks, a, k - 1);
        let t = a + k - 1;
        assert(mux_step(states[t], chat_p[t], code_p[t], picks[t], states[t + 1]));
        assert(picks[t] == picks[a]);
        assert(pending_of(other(picks[a]), chat_p[t], code_p[t]));
        // the serviced source was pending too, so both were pending and the
        // fairness clause keeps the run below the bound: no cap was hit
        assert(states[t].run < states[t].bound);
    }
}

/// Law of bounded unfairness: in any run of scheduling steps, a window
/// that services one source only, while the other source has a pending
/// item at every step of the window, is no longer than the configured
/// bound.
pub proof fn lemma_bounded_unfairness(
    states: Seq<Multiplexer>,
    chat_p: Seq<bool>,
    code_p: Seq<bool>,
    picks: Seq<Source>,
    a: int,
    b: int,
)
    requires
        states.len() == picks.len() + 1,
        chat_p.len() == picks.len(),
        code_p.len() == picks.len(),
        forall|t: int|
            0 <= t < picks.len() ==> mux_step(states[t], chat_p[t], code_p[t], picks[t], states[t
                + 1]),
        0 <= a <= b <= picks.len(),
        forall|t: int| a <= t < b ==> picks[t] == picks[a],
        forall|t: int| a <= t < b ==> pending_of(other(picks[a]), chat_p[t], code_p[t]),
    ensures
        b - a <= states[a].bound,
{
    if b - a > states[a].bound {
        assert(mux_step(states[a], chat_p[a], code_p[a], picks[a], states[a + 1]));
        assert(states[a].wf());
        let k = b - a - 1;
        assert(k >= 1);
        lemma_window_run(states, chat_p, code_p, picks, a, k);
        let t = a + k;
        assert(mux_step(states[t], chat_p[t], code_p[t], picks[t], states[t + 1]));
        assert(states[t].run >= states[t].bound);
        // both sources pending at the last step of the window, the serviced
        // one at its bound: the fairness clause forbids servicing it again
        assert(false);
    }
}

} // verus!
