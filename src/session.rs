//! The order of calls into the decoder across windows.
use vstd::prelude::*;

verus! {

/// One call into the decoder.
#[derive(PartialEq, Eq, Structural, Clone, Copy, Debug)]
pub enum DecoderCall {
    /// Fix the language token (once, before the first run).
    SetLanguageToken,
    /// Decode the window's feature tensor.
    Run,
    /// Drop the decoder's state, so that the next window starts afresh.
    ResetState,
}

/// The calls made for the window with index `index`: the language token is
/// set before the first window only; every window is run once, then reset.
pub open spec fn calls_for_window(index: nat) -> Seq<DecoderCall> {
    if index == 0 {
        seq![DecoderCall::SetLanguageToken, DecoderCall::Run, DecoderCall::ResetState]
    } else {
        seq![DecoderCall::Run, DecoderCall::ResetState]
    }
}

/// The calls made for the window with index `index`, in order.
pub fn window_calls(index: u64) -> (r: Vec<DecoderCall>)
    ensures
        r@ == calls_for_window(index as nat),
{
    let mut r: Vec<DecoderCall> = Vec::new();
    if index == 0 {
        r.push(DecoderCall::SetLanguageToken);
    }
    r.push(DecoderCall::Run);
    r.push(DecoderCall::ResetState);
    assert(r@ =~= calls_for_window(index as nat));
    r
}

/// The consumer side's count of windows handed to the decoder.
pub struct DecoderSession {
    pub windows: u64,
}

impl DecoderSession {
    /// A session before its first window.
    pub fn new() -> (r: DecoderSession)
        ensures
            r.windows == 0,
    {
        DecoderSession { windows: 0 }
    }

    /// Starts the next window: returns its index and the calls to make for
    /// it. The count stops at `u64::MAX`, which is never the first window.
    pub fn begin_window(&mut self) -> (r: (u64, Vec<DecoderCall>))
        ensures
            r.0 == old(self).windows,
            r.1@ == calls_for_window(old(self).windows as nat),
            final(self).windows == if old(self).windows < u64::MAX {
                old(self).windows + 1
            } else {
                old(self).windows as int
            },
    {
        let index = self.windows;
        let calls = window_calls(index);
        self.windows = self.windows.saturating_add(1);
        (index, calls)
    }
}

/// Over the windows a session begins, the language token is set before the
/// first window and never again, and every window is run exactly once and
/// then reset exactly once, the reset coming last.
pub proof fn lemma_window_calls(index: nat)
    ensures
        calls_for_window(index).last() == DecoderCall::ResetState,
        calls_for_window(index)[calls_for_window(index).len() - 2] == DecoderCall::Run,
        calls_for_window(index).filter(|c: DecoderCall| c == DecoderCall::Run).len() == 1,
        calls_for_window(index).filter(|c: DecoderCall| c == DecoderCall::ResetState).len() == 1,
        calls_for_window(index).filter(|c: DecoderCall| c == DecoderCall::SetLanguageToken).len()
            == if index == 0 {
            1nat
        } else {
            0nat
        },
{
    reveal_with_fuel(Seq::filter, 4);
}

} // verus!
