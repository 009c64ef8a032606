//! Exclusive capture of the keyboard: the state that the capture loop keeps,
//! and the commands that grab requests cause.

use vstd::prelude::*;
use crate::event::Request;

verus! {

/// What the capture loop asks of the input source.
#[derive(Debug, Clone, Copy, PartialEq, Eq, Structural)]
pub enum InputCommand {
    /// Acquire exclusive capture of the keyboard.
    Acquire,
    /// Release it.
    Release,
}

/// The command that brings capture to the state `enabled`.
pub open spec fn command_for(enabled: bool) -> InputCommand {
    if enabled {
        InputCommand::Acquire
    } else {
        InputCommand::Release
    }
}

/// What a request asks for.
pub open spec fn wanted(request: Request) -> bool {
    match request {
        Request::Grab { enabled } => enabled,
    }
}

/// The commands that a run of requests causes, from a loop whose capture is
/// `held`: one for each request that changes the state.
pub open spec fn commands_of(held: bool, requests: Seq<Request>) -> Seq<InputCommand>
    decreases requests.len(),
{
    if requests.len() == 0 {
        Seq::empty()
    } else {
        let first = wanted(requests[0]);
        let rest = commands_of(first, requests.drop_first());
        if first == held {
            rest
        } else {
            seq![command_for(first)] + rest
        }
    }
}

/// The state of capture after a run of requests.
pub open spec fn held_after(held: bool, requests: Seq<Request>) -> bool {
    if requests.len() == 0 {
        held
    } else {
        wanted(requests.last())
    }
}

/// Whether the capture loop holds exclusive capture. Only the loop owns and
/// changes it.
#[derive(Debug, Clone, Copy, PartialEq, Eq, Structural)]
pub struct GrabState {
    held: bool,
}

impl GrabState {
    /// Whether capture is held.
    pub closed spec fn held(self) -> bool {
        self.held
    }

    /// The state at the start of the loop: capture is not held.
    pub fn new() -> (state: GrabState)
        ensures
            !state.held(),
    {
        GrabState { held: false }
    }

    /// Whether capture is held.
    pub fn is_held(&self) -> (held: bool)
        ensures
            held == self.held(),
    {
        self.held
    }

    /// Takes one request: the state becomes what the request asks for, and
    /// the result is the command for the input source, or `None` where the
    /// state was that already.
    pub fn apply(&mut self, request: &Request) -> (command: Option<InputCommand>)
        ensures
            final(self).held() == wanted(*request),
            command == if wanted(*request) == old(self).held() {
                None
            } else {
                Some(command_for(wanted(*request)))
            },
            commands_of(old(self).held(), seq![*request]) == match command {
                Some(c) => seq![c],
                None => Seq::empty(),
            },
            held_after(old(self).held(), seq![*request]) == final(self).held(),
    {
        let Request::Grab { enabled } = *request;
        proof {
            let one = seq![*request];
            assert(one.drop_first() =~= Seq::<Request>::empty());
            assert(commands_of(enabled, one.drop_first()) =~= Seq::<InputCommand>::empty());
            assert(commands_of(old(self).held, one) =~= if enabled == old(self).held {
                Seq::<InputCommand>::empty()
            } else {
                seq![command_for(enabled)]
            });
        }
        if enabled == self.held {
            None
        } else {
            self.held = enabled;
            if enabled {
                Some(InputCommand::Acquire)
            } else {
                Some(InputCommand::Release)
            }
        }
    }
}

/// Requests that all ask for `enabled` cause one command if the state
/// differs, and none if it does not.
pub proof fn lemma_repeated_requests(held: bool, enabled: bool, requests: Seq<Request>)
    requires
        forall|i: int| 0 <= i < requests.len() ==> wanted(#[trigger] requests[i]) == enabled,
    ensures
        commands_of(held, requests) == if requests.len() == 0 || held == enabled {
            Seq::<InputCommand>::empty()
        } else {
            seq![command_for(enabled)]
        },
    decreases requests.len(),
{
    if requests.len() > 0 {
        lemma_repeated_requests(enabled, enabled, requests.drop_first());
        assert(commands_of(held, requests) =~= if held == enabled {
            Seq::<InputCommand>::empty()
        } else {
            seq![command_for(enabled)]
        });
    }
}

/// The commands of two runs of requests, one after the other, are those of
/// the first and then those of the second from the state that the first left.
pub proof fn lemma_commands_concat(held: bool, first: Seq<Request>, second: Seq<Request>)
    ensures
        commands_of(held, first + second) == commands_of(held, first) + commands_of(
            held_after(held, first),
            second,
        ),
    decreases first.len(),
{
    if first.len() == 0 {
        assert(first + second =~= second);
        assert(commands_of(held, first) + commands_of(held, second) =~= commands_of(held, second));
    } else {
        let all = first + second;
        assert(all.drop_first() =~= first.drop_first() + second);
        assert(all[0] == first[0]);
        lemma_commands_concat(wanted(first[0]), first.drop_first(), second);
        if first.len() == 1 {
            assert(first.drop_first().len() == 0);
        } else {
            assert(first.drop_first().last() == first.last());
        }
        assert(held_after(wanted(first[0]), first.drop_first()) == held_after(held, first));
        assert(commands_of(held, all) =~= commands_of(held, first) + commands_of(
            held_after(held, first),
            second,
        ));
    }
}

/// From a loop that does not hold capture, requests to grab followed by
/// requests to release cause exactly one acquire and then exactly one
/// release, however often either request is repeated.
pub proof fn lemma_grab_then_release(grabs: Seq<Request>, releases: Seq<Request>)
    requires
        grabs.len() > 0,
        releases.len() > 0,
        forall|i: int| 0 <= i < grabs.len() ==> wanted(#[trigger] grabs[i]),
        forall|i: int| 0 <= i < releases.len() ==> !wanted(#[trigger] releases[i]),
    ensures
        commands_of(false, grabs + releases) == seq![InputCommand::Acquire, InputCommand::Release],
{
    lemma_commands_concat(false, grabs, releases);
    lemma_repeated_requests(false, true, grabs);
    lemma_repeated_requests(true, false, releases);
    assert(seq![InputCommand::Acquire] + seq![InputCommand::Release] =~= seq![
        InputCommand::Acquire,
        InputCommand::Release,
    ]);
}

/// No run of requests causes the same command twice in a row: acquires and
/// releases alternate.
pub proof fn lemma_commands_alternate(held: bool, requests: Seq<Request>)
    ensures
        forall|i: int|
            0 <= i < commands_of(held, requests).len() - 1 ==> #[trigger] commands_of(
                held,
                requests,
            )[i] != commands_of(held, requests)[i + 1],
        commands_of(held, requests).len() > 0 ==> commands_of(held, requests)[0] == command_for(
            !held,
        ),
    decreases requests.len(),
{
    if requests.len() > 0 {
        let first = wanted(requests[0]);
        lemma_commands_alternate(first, requests.drop_first());
    }
}

/// The status with which the input source says that capture was acquired.
pub const GRAB_SUCCESS: i32 = 0;

/// The status with which the input source says that this client holds
/// capture already.
pub const ALREADY_GRABBED: i32 = 1;

/// Whether the status of an acquire is a failure to tell the operator of:
/// every status but success and "held already".
pub fn acquire_failed(status: i32) -> (failed: bool)
    ensures
        failed == (status != GRAB_SUCCESS && status != ALREADY_GRABBED),
{
    status != GRAB_SUCCESS && status != ALREADY_GRABBED
}

} // verus!
