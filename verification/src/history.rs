//! The network history behind the sparklines, and the state the main loop
//! carries from one frame to the next.

use std::collections::VecDeque;
use vstd::prelude::*;
use crate::input::{apply_event, page_after, ButtonEvent};
use crate::ui::Page;

verus! {

/// Number of samples the sparklines keep.
pub const HISTORY_LEN: usize = 40;

/// The history after recording `x`: the oldest sample leaves once the
/// history is full.
pub open spec fn window_push(h: Seq<u64>, x: u64) -> Seq<u64> {
    if h.len() >= HISTORY_LEN {
        h.drop_first().push(x)
    } else {
        h.push(x)
    }
}

/// The history after recording the samples `xs`, in order, from empty.
pub open spec fn history_of(xs: Seq<u64>) -> Seq<u64>
    decreases xs.len(),
{
    if xs.len() == 0 {
        Seq::empty()
    } else {
        window_push(history_of(xs.drop_last()), xs.last())
    }
}

/// The last `HISTORY_LEN` samples of `xs`, or all of them when there are
/// fewer.
pub open spec fn newest(xs: Seq<u64>) -> Seq<u64> {
    if xs.len() > HISTORY_LEN {
        xs.subrange(xs.len() - HISTORY_LEN, xs.len() as int)
    } else {
        xs
    }
}

/// Whatever samples were recorded, the history holds the newest
/// `HISTORY_LEN` of them (all of them while there are fewer), oldest first.
pub proof fn lemma_history_is_newest(xs: Seq<u64>)
    ensures
        history_of(xs) == newest(xs),
        history_of(xs).len() <= HISTORY_LEN,
    decreases xs.len(),
{
    if xs.len() > 0 {
        let ys = xs.drop_last();
        lemma_history_is_newest(ys);
        if ys.len() >= HISTORY_LEN {
            assert(newest(ys).drop_first().push(xs.last()) =~= newest(xs));
        } else {
            assert(ys.push(xs.last()) =~= xs);
        }
    }
}

/// Records sample `x`, dropping the oldest sample when the history already
/// holds `HISTORY_LEN`.
pub fn push_sample(h: &mut VecDeque<u64>, x: u64)
    ensures
        final(h)@ == window_push(old(h)@, x),
{
    if h.len() >= HISTORY_LEN {
        h.pop_front();
    }
    h.push_back(x);
    proof {
        assert(h@ =~= window_push(old(h)@, x));
    }
}

/// What the main loop keeps between frames: the page shown and the
/// received and transmitted rate histories.
pub struct Dashboard {
    pub page: Page,
    pub rx_history: VecDeque<u64>,
    pub tx_history: VecDeque<u64>,
}

impl Dashboard {
    /// The start: overview page, empty histories.
    pub fn new() -> (d: Dashboard)
        ensures
            d.page == Page::Overview,
            d.rx_history@ == Seq::<u64>::empty(),
            d.tx_history@ == Seq::<u64>::empty(),
    {
        Dashboard {
            page: Page::Overview,
            rx_history: VecDeque::with_capacity(HISTORY_LEN),
            tx_history: VecDeque::with_capacity(HISTORY_LEN),
        }
    }

    /// One frame: applies the button event, then records the received and
    /// transmitted rates.
    pub fn step(&mut self, e: ButtonEvent, rx: u64, tx: u64)
        ensures
            final(self).page == page_after(old(self).page, e),
            final(self).rx_history@ == window_push(old(self).rx_history@, rx),
            final(self).tx_history@ == window_push(old(self).tx_history@, tx),
    {
        self.page = apply_event(self.page, e);
        push_sample(&mut self.rx_history, rx);
        push_sample(&mut self.tx_history, tx);
    }
}

} // verus!
