//! Watching one activation until it ends. The service reports the state of
//! an active connection as a number; two of the states are final.

use vstd::prelude::*;

verus! {

/// The state of an active connection.
#[derive(Clone, Copy, Debug, PartialEq, Eq, Structural)]
pub enum ActivationState {
    Unknown,
    Activating,
    Activated,
    Deactivating,
    Deactivated,
}

/// The number that the service uses for the state of a connection that is up.
pub const STATE_ACTIVATED: u32 = 2;

/// The number that the service uses for the state of a connection that is
/// down.
pub const STATE_DEACTIVATED: u32 = 4;

/// The state that a number of the service stands for, if any.
pub open spec fn state_of_code(code: u32) -> Option<ActivationState> {
    if code == 0 {
        Some(ActivationState::Unknown)
    } else if code == 1 {
        Some(ActivationState::Activating)
    } else if code == 2 {
        Some(ActivationState::Activated)
    } else if code == 3 {
        Some(ActivationState::Deactivating)
    } else if code == 4 {
        Some(ActivationState::Deactivated)
    } else {
        None
    }
}

/// The number that the service uses for a state.
pub open spec fn code_of_state(state: ActivationState) -> u32 {
    match state {
        ActivationState::Unknown => 0,
        ActivationState::Activating => 1,
        ActivationState::Activated => 2,
        ActivationState::Deactivating => 3,
        ActivationState::Deactivated => 4,
    }
}

/// A state is final when nothing follows it: the connection is up, or it is
/// down.
pub open spec fn is_terminal_code(code: u32) -> bool {
    code == STATE_ACTIVATED || code == STATE_DEACTIVATED
}

impl ActivationState {
    /// The state that a number of the service stands for, if any.
    pub fn from_code(code: u32) -> (state: Option<ActivationState>)
        ensures
            state == state_of_code(code),
    {
        if code == 0 {
            Some(ActivationState::Unknown)
        } else if code == 1 {
            Some(ActivationState::Activating)
        } else if code == 2 {
            Some(ActivationState::Activated)
        } else if code == 3 {
            Some(ActivationState::Deactivating)
        } else if code == 4 {
            Some(ActivationState::Deactivated)
        } else {
            None
        }
    }

    /// The number that the service uses for this state.
    pub fn code(self) -> (code: u32)
        ensures
            code == code_of_state(self),
            state_of_code(code) == Some(self),
    {
        match self {
            ActivationState::Unknown => 0,
            ActivationState::Activating => 1,
            ActivationState::Activated => 2,
            ActivationState::Deactivating => 3,
            ActivationState::Deactivated => 4,
        }
    }

    /// Whether this state is final.
    pub fn is_terminal(self) -> (r: bool)
        ensures
            r == is_terminal_code(code_of_state(self)),
            r == (self == ActivationState::Activated || self == ActivationState::Deactivated),
    {
        match self {
            ActivationState::Activated => true,
            ActivationState::Deactivated => true,
            _ => false,
        }
    }
}

/// Whether the state with this number is final.
pub fn is_terminal(code: u32) -> (r: bool)
    ensures
        r == is_terminal_code(code),
{
    code == STATE_ACTIVATED || code == STATE_DEACTIVATED
}

/// The watcher of one activation: it passes on each state that it is shown
/// until it has seen a final one.
#[derive(Debug)]
pub struct Watcher {
    ssid: String,
    finished: bool,
}

impl Watcher {
    /// The SSID whose activation is watched.
    pub closed spec fn ssid_text(&self) -> Seq<char> {
        self.ssid@
    }

    /// Whether a final state was seen.
    pub closed spec fn finished(&self) -> bool {
        self.finished
    }

    /// A watcher for the activation of `ssid` that has seen nothing yet.
    pub fn new(ssid: String) -> (watcher: Self)
        ensures
            watcher.ssid_text() == ssid@,
            !watcher.finished(),
    {
        Watcher { ssid, finished: false }
    }

    /// The SSID whose activation is watched.
    pub fn ssid(&self) -> (ssid: &str)
        ensures
            ssid@ == self.ssid_text(),
    {
        self.ssid.as_str()
    }

    /// Whether the watch is over.
    pub fn is_finished(&self) -> (r: bool)
        ensures
            r == self.finished(),
    {
        self.finished
    }

    /// Shows the watcher the state that was read. While the watch goes on,
    /// the state is passed on, and a final one ends the watch. Once the watch
    /// is over nothing is passed on any more.
    pub fn observe(&mut self, code: u32) -> (report: Option<u32>)
        ensures
            final(self).ssid_text() == old(self).ssid_text(),
            report == passed_on(old(self).finished(), code),
            final(self).finished() == finished_after(old(self).finished(), code),
    {
        if self.finished {
            None
        } else {
            if is_terminal(code) {
                self.finished = true;
            }
            Some(code)
        }
    }
}

/// What a watcher passes on of a state that it is shown: the state itself
/// while the watch goes on, nothing once it is over.
pub open spec fn passed_on(finished: bool, code: u32) -> Option<u32> {
    if finished {
        None
    } else {
        Some(code)
    }
}

/// Whether the watch is over once a state was shown: it was over before, or
/// the state is final.
pub open spec fn finished_after(finished: bool, code: u32) -> bool {
    finished || is_terminal_code(code)
}

/// A watch in the course of time: whether it is over, and what it has passed
/// on so far.
pub struct Watch {
    pub finished: bool,
    pub reported: Seq<u32>,
}

/// The watch of a fresh watcher that was shown the states `codes` one after
/// the other.
pub open spec fn watch_of(codes: Seq<u32>) -> Watch
    decreases codes.len(),
{
    if codes.len() == 0 {
        Watch { finished: false, reported: Seq::empty() }
    } else {
        let before = watch_of(codes.drop_last());
        Watch {
            finished: finished_after(before.finished, codes.last()),
            reported: match passed_on(before.finished, codes.last()) {
                Some(code) => before.reported.push(code),
                None => before.reported,
            },
        }
    }
}

/// Where the first final state stands among `codes`, or their number where
/// none of them is final.
pub open spec fn first_terminal(codes: Seq<u32>) -> int
    decreases codes.len(),
{
    if codes.len() == 0 || is_terminal_code(codes[0]) {
        0
    } else {
        1 + first_terminal(codes.drop_first())
    }
}

/// The first final state stands where `first_terminal` says, and none
/// before it.
pub proof fn lemma_first_terminal(codes: Seq<u32>)
    ensures
        0 <= first_terminal(codes) <= codes.len(),
        first_terminal(codes) < codes.len() ==> is_terminal_code(codes[first_terminal(codes)]),
        forall|i: int| 0 <= i < first_terminal(codes) ==> !is_terminal_code(#[trigger] codes[i]),
    decreases codes.len(),
{
    if codes.len() == 0 || is_terminal_code(codes[0]) {
    } else {
        let rest = codes.drop_first();
        lemma_first_terminal(rest);
        assert forall|i: int| 0 <= i < first_terminal(codes) implies !is_terminal_code(
            #[trigger] codes[i],
        ) by {
            if i > 0 {
                assert(rest[i - 1] == codes[i]);
            }
        }
        if first_terminal(rest) < rest.len() {
            assert(rest[first_terminal(rest)] == codes[first_terminal(codes)]);
        }
    }
}

/// A watcher passes on every state up to the first final one, that one
/// included, and nothing after it; it is over exactly when it has seen a
/// final state.
pub proof fn lemma_watch_ends_at_first_terminal(codes: Seq<u32>)
    ensures
        watch_of(codes).finished == (first_terminal(codes) < codes.len()),
        watch_of(codes).finished ==> watch_of(codes).reported == codes.take(
            first_terminal(codes) + 1,
        ),
        !watch_of(codes).finished ==> watch_of(codes).reported == codes,
    decreases codes.len(),
{
    lemma_first_terminal(codes);
    if codes.len() > 0 {
        let shorter = codes.drop_last();
        let n = shorter.len() as int;
        lemma_watch_ends_at_first_terminal(shorter);
        lemma_first_terminal(shorter);
        let a = first_terminal(shorter);
        let b = first_terminal(codes);
        assert forall|i: int| 0 <= i < n implies shorter[i] == codes[i] by {}
        // The first final state of the shorter run, where it has one, is that of the whole.
        if a < n {
            assert(is_terminal_code(codes[a]));
            assert(b == a) by {
                if b < a {
                    assert(is_terminal_code(shorter[b]));
                } else if a < b {
                    assert(!is_terminal_code(codes[a]));
                }
            }
            assert(shorter.take(a + 1) =~= codes.take(b + 1));
        } else {
            assert(b >= n) by {
                if b < n {
                    assert(is_terminal_code(shorter[b]));
                }
            }
            if is_terminal_code(codes.last()) {
                assert(b == n) by {
                    if b > n {
                        assert(!is_terminal_code(codes[n]));
                    }
                }
                assert(shorter.push(codes.last()) =~= codes.take(b + 1));
            } else {
                assert(b == n + 1) by {
                    if b == n {
                        assert(is_terminal_code(codes[b]));
                    }
                }
                assert(shorter.push(codes.last()) =~= codes);
            }
        }
    }
}

} // verus!
