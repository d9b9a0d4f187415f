//! Opening a stream: its connection is registered, goes through its handshake where that is
//! waited for, and is set running.

use crate::error::StreamError;
use crate::handshake::{self, ArrivalView, HandshakeState, HandshakeStepView};
use crate::key::KeyView;
use crate::transport;
use vstd::prelude::*;

verus! {

/// How the opening of a registered connection goes on.
#[derive(Clone, Copy, PartialEq, Eq, Debug)]
pub enum OpenStep {
    /// Go through the handshake.
    Handshake,
    /// Set the connection running: the stream is open.
    Run,
    /// Forget the connection: opening failed with this.
    Undo(StreamError),
}

/// How an opening goes on, by whether the handshake is waited for and what came of it, if
/// anything yet.
pub open spec fn opening(wait: bool, handshake: Option<Result<(), StreamError>>) -> OpenStep {
    if !wait {
        OpenStep::Run
    } else {
        match handshake {
            None => OpenStep::Handshake,
            Some(Ok(_)) => OpenStep::Run,
            Some(Err(e)) => OpenStep::Undo(e),
        }
    }
}

/// Tells how an opening goes on, by whether the handshake is waited for and what came of it, if
/// anything yet.
pub fn open_step(wait: bool, handshake: Option<Result<(), StreamError>>) -> (next: OpenStep)
    ensures
        next == opening(wait, handshake),
{
    if !wait {
        return OpenStep::Run;
    }
    match handshake {
        None => OpenStep::Handshake,
        Some(Ok(_)) => OpenStep::Run,
        Some(Err(e)) => OpenStep::Undo(e),
    }
}

/// Who is registered while an opening goes on like this, if the connection was new. It is
/// registered first and forgotten where the opening is undone.
pub open spec fn registered<V>(
    registry: Map<KeyView, V>,
    key: KeyView,
    value: V,
    step: OpenStep,
) -> Map<KeyView, V> {
    match step {
        OpenStep::Undo(_) => registry.insert(key, value).remove(key),
        _ => registry.insert(key, value),
    }
}

/// A connection is set running at once where its handshake is not waited for; else after the
/// handshake succeeded, and only then.
pub proof fn law_the_run_starts_after_the_handshake(
    wait: bool,
    handshake: Option<Result<(), StreamError>>,
)
    ensures
        opening(wait, handshake) == OpenStep::Run <==> (!wait || handshake matches Some(Ok(_))),
        opening(wait, handshake) is Undo <==> (wait && handshake matches Some(Err(_))),
{
}

/// A connection whose handshake was waited for is established when it is set running.
pub proof fn law_a_run_that_waited_starts_established(
    state: HandshakeState,
    arrival: ArrivalView,
    before: quiche::Connection,
    result: Result<(), StreamError>,
    after: quiche::Connection,
)
    requires
        handshake::arrived(state, arrival, before, HandshakeStepView::Finished(result), after),
        opening(true, Some(result)) == OpenStep::Run,
    ensures
        transport::established(after),
{
    handshake::law_success_means_established(
        state,
        arrival,
        before,
        HandshakeStepView::Finished(result),
        after,
    );
}

/// An opening that fails leaves the registry as it was, and tells how the handshake failed; one
/// that does not fail adds the connection and changes nothing else.
pub proof fn law_a_failed_opening_leaves_no_trace<V>(
    registry: Map<KeyView, V>,
    key: KeyView,
    value: V,
    wait: bool,
    handshake: Option<Result<(), StreamError>>,
)
    requires
        !registry.contains_key(key),
    ensures
        match opening(wait, handshake) {
            OpenStep::Undo(e) => registered(registry, key, value, opening(wait, handshake))
                == registry && handshake == Some(Err::<(), StreamError>(e)),
            step => registered(registry, key, value, step) == registry.insert(key, value),
        },
{
    assert(registry.insert(key, value).remove(key) =~= registry);
}

} // verus!
