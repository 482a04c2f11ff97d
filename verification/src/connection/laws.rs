//! What an owner makes of its connection, over every event and over runs of events.

use crate::connection::{
    attempt, attempt_socket, awaited_master, delay_before, owned, tail_of, ConnectionStatusView,
    MasterStepView, OwnerAction, OwnerEventView, OwnerView,
};
use crate::journal::naming_laws::{lemma_sixteen_digits, numbers};
use crate::number::{hex_text, is_hex_digit};
use vstd::arithmetic::power2::{lemma2_to64, pow2};
use vstd::prelude::*;
use vstd::string::*;

verus! {

/// The event tells that the attempt at hand has come to nothing, or that its connection
/// is gone, for this reason.
pub open spec fn tells_loss(
    owner: OwnerView,
    event: OwnerEventView,
    now: u64,
    reason: Seq<char>,
) -> bool {
    match event {
        OwnerEventView::Disconnected { session_id } => session_id == owner.session_id && reason
            == "SSH connection was interrupted"@,
        OwnerEventView::Failed { session_id, error, cancelled } => session_id == owner.session_id
            && !cancelled && reason == error,
        OwnerEventView::MasterFailed { session_id, error } => session_id == owner.session_id
            && reason == error,
        OwnerEventView::Tick { master_gone, client_gone } => {
            &&& owner.status is Connected
            &&& master_gone || client_gone
            &&& owner.retry_at matches Some(due) ==> now < due
            &&& reason == "SSH connection was interrupted"@
        },
        _ => false,
    }
}

/// The seconds before the attempt that follows so many failures: a power of two, and half a
/// minute from the sixth on.
pub open spec fn seconds_before(failures: int) -> int {
    if failures >= 6 {
        30
    } else {
        pow2((failures - 1) as nat) as int
    }
}

/// What goes wrong takes the client away, is told with its reason and the number of the
/// failures in a row, and makes another attempt due after a while that doubles with each of
/// them; while one is due already, it changes nothing.
pub proof fn a_loss_makes_another_attempt_due(
    owner: OwnerView,
    event: OwnerEventView,
    now: u64,
    reason: Seq<char>,
)
    requires
        tells_loss(owner, event, now, reason),
        owner.attempts < u32::MAX,
        now + 30_000_000_000 <= u64::MAX,
    ensures
        owner.retry_at is Some ==> owned(owner, event, now) == (owner, OwnerAction::Nothing),
        owner.retry_at is None ==> {
            let (next, action) = owned(owner, event, now);
            &&& action is DropClient
            &&& next.session_id == owner.session_id
            &&& next.attempts == owner.attempts + 1
            &&& next.status == ConnectionStatusView::Reconnecting {
                attempt: next.attempts,
                error: reason,
            }
            &&& next.retry_at == Some(
                (now + seconds_before(next.attempts as int) * 1_000_000_000) as u64,
            )
        },
{
    lemma2_to64();
    reveal_with_fuel(delay_before, 6);
}

/// A session that is connected with a client is used, and forgets every failure; so is one
/// that is connected again, unless another attempt is due.
pub proof fn a_connected_session_is_used(owner: OwnerView, event: OwnerEventView, now: u64)
    requires
        event == (OwnerEventView::Connected { session_id: owner.session_id, has_client: true })
            || event == (OwnerEventView::Reconnected { session_id: owner.session_id })
            && owner.retry_at is None,
    ensures
        ({
            let (next, action) = owned(owner, event, now);
            &&& action is UseClient
            &&& next.status is Connected
            &&& next.attempts == 0
            &&& next.retry_at is None
            &&& next.session_id == owner.session_id
        }),
{
}

/// A client is put in place only by the session of the attempt at hand, a session goes
/// through the master of that attempt only, and an attempt begins only once it is due.
pub proof fn actions_have_their_reasons(owner: OwnerView, event: OwnerEventView, now: u64)
    ensures
        ({
            let (next, action) = owned(owner, event, now);
            &&& action is UseClient ==> event == (OwnerEventView::Connected {
                session_id: owner.session_id,
                has_client: true,
            }) || event == (OwnerEventView::Reconnected { session_id: owner.session_id })
            &&& action is ConnectSession <==> event == (OwnerEventView::MasterReady {
                session_id: owner.session_id,
            })
            &&& action is Connect <==> event is Tick && owner.retry_at is Some && now
                >= owner.retry_at->Some_0
            &&& action is DropClient ==> exists|reason: Seq<char>|
                #[trigger] tells_loss(owner, event, now, reason)
            &&& next.session_id == owner.session_id
            &&& action is Nothing || action is Connect || action is ConnectSession ==> next
                == owner
        }),
{
    let interrupted = "SSH connection was interrupted"@;
    let reason = match event {
        OwnerEventView::Failed { error, .. } => error,
        OwnerEventView::MasterFailed { error, .. } => error,
        _ => interrupted,
    };
    if owned(owner, event, now).1 is DropClient {
        assert(tells_loss(owner, event, now, reason));
    }
}

/// An attempt takes its session over, is due no more, and leaves the failures counted.
pub proof fn an_attempt_has_its_session(owner: OwnerView, session_id: u64, now: u64)
    ensures
        ({
            let next = attempt(owner, session_id);
            &&& next.session_id == session_id
            &&& next.retry_at is None
            &&& next.attempts == owner.attempts
            &&& next.status == owner.status
            &&& session_id != owner.session_id ==> owned(
                next,
                OwnerEventView::MasterReady { session_id: owner.session_id },
                now,
            ) == (next, OwnerAction::Nothing)
        }),
{
}

/// A master that has exited has failed, whatever else is known of it, and its status is
/// told; one that answers is ready; one that does neither is waited for until the deadline.
pub proof fn masters_are_waited_for(
    exit: Option<Seq<char>>,
    answers: bool,
    tail: Seq<u8>,
    now: u64,
    deadline: u64,
)
    ensures
        ({
            let step = awaited_master(exit, answers, tail, now, deadline);
            &&& step is Ready <==> exit is None && answers
            &&& step is Wait <==> exit is None && !answers && now < deadline
            &&& step is Wait ==> step->Wait_0 == 150
            &&& exit matches Some(status) ==> step is Failed && {
                let told = "SSH authentication/connection failed ("@ + status + "): "@;
                step->Failed_0.len() >= told.len() && step->Failed_0.take(told.len() as int)
                    == told
            }
            &&& exit is None && !answers && now >= deadline ==> step == MasterStepView::Failed(
                "Timed out establishing a private SSH connection"@,
            )
        }),
{
    if let Some(status) = exit {
        let told = "SSH authentication/connection failed ("@ + status + "): "@;
        let step = awaited_master(exit, answers, tail, now, deadline);
        assert(step->Failed_0.take(told.len() as int) =~= told);
    }
}

/// Of a stream its last bytes are kept, and at most so many; it makes no difference in
/// how many parts they come.
pub proof fn the_last_bytes_are_kept(before: Seq<u8>, more: Seq<u8>)
    ensures
        tail_of(before).len() == (if before.len() > 8192 {
            8192int
        } else {
            before.len() as int
        }),
        tail_of(before) == before.skip(before.len() - tail_of(before).len()),
        tail_of(tail_of(before) + more) == tail_of(before + more),
{
    assert(tail_of(before) =~= before.skip(before.len() - tail_of(before).len()));
    assert(tail_of(tail_of(before) + more) =~= tail_of(before + more));
}

/// The control socket of an attempt lies in the directory, and its name is the number of the
/// attempt's session in sixteen digits.
pub proof fn sockets_are_named_by_their_sessions(directory: Seq<char>, session_id: u64)
    requires
        directory.len() > 0,
        directory.last() != '/',
    ensures
        exists|digits: Seq<char>| #[trigger]
            numbers(digits, session_id) && attempt_socket(directory, session_id) == directory
                + "/"@ + digits,
{
    lemma_sixteen_digits(session_id);
    let digits = hex_text(session_id as nat, 16);
    assert(is_hex_digit(digits[0]));
}

} // verus!
