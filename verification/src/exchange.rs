//! Retry and reconnection controller: the bounded-retry policy of one
//! logical exchange, the positional field splitting of a raw response, and
//! the identity check made on device acquisition.

use vstd::prelude::*;

use crate::errors::UPSError;
use crate::PROTOCOL_ID;
use crate::RETRIES;
use crate::SEPARATOR;

verus! {

/// The byte contents of a sequence of byte vectors.
pub open spec fn views(vs: Seq<Vec<u8>>) -> Seq<Seq<u8>> {
    Seq::new(vs.len(), |i: int| vs[i]@)
}

/// Positional field decomposition of a response body: a run boundary at each
/// separator byte, even when the run before or after it is empty, so that
/// downstream decoding can rely on fixed field indices.
pub open spec fn split_fields_spec(s: Seq<u8>) -> Seq<Seq<u8>>
    decreases s.len(),
{
    if s.len() == 0 {
        seq![Seq::<u8>::empty()]
    } else if s.last() == SEPARATOR {
        split_fields_spec(s.drop_last()).push(Seq::empty())
    } else {
        let rest = split_fields_spec(s.drop_last());
        rest.update(rest.len() - 1, rest.last().push(s.last()))
    }
}

/// Drop the leading protocol marker byte of a raw response and split the
/// remainder into its fields at each separator byte.
pub fn split_fields(data: &Vec<u8>) -> (fields: Vec<Vec<u8>>)
    requires
        data@.len() >= 1,
    ensures
        views(fields@) == split_fields_spec(data@.skip(1)),
{
    let ghost body = data@.skip(1);
    let mut fields: Vec<Vec<u8>> = Vec::new();
    let mut cur: Vec<u8> = Vec::new();
    let mut i: usize = 1;
    proof {
        assert(body.take(0) =~= Seq::<u8>::empty());
        assert(views(fields@).push(cur@) =~= split_fields_spec(body.take(0)));
    }
    while i < data.len()
        invariant
            1 <= i <= data@.len(),
            body == data@.skip(1),
            views(fields@).push(cur@) == split_fields_spec(body.take(i - 1)),
        decreases data@.len() - i,
    {
        let b = data[i];
        proof {
            assert(body.take(i as int).drop_last() =~= body.take(i - 1));
            assert(body.take(i as int).last() == data@[i as int]);
        }
        if b == SEPARATOR {
            fields.push(cur);
            cur = Vec::new();
            proof {
                assert(views(fields@).push(cur@) =~= split_fields_spec(body.take(i - 1)).push(
                    Seq::<u8>::empty(),
                ));
            }
        } else {
            let ghost prev = views(fields@).push(cur@);
            cur.push(b);
            proof {
                assert(views(fields@).push(cur@) =~= prev.update(
                    prev.len() - 1,
                    prev.last().push(data@[i as int]),
                ));
            }
        }
        i = i + 1;
    }
    fields.push(cur);
    proof {
        assert(body.take(data@.len() - 1) =~= body);
        assert(views(fields@) =~= views(fields@.drop_last()).push(fields@.last()@));
    }
    fields
}

/// The identity check made on each (re)connect: the first byte of the
/// protocol-version reply must be the expected protocol identifier.
pub fn protocol_id_ok(res: &Vec<u8>) -> (ok: bool)
    ensures
        ok <==> res@.len() > 0 && res@[0] == PROTOCOL_ID,
{
    res.len() > 0 && res[0] == PROTOCOL_ID
}

/// What the retry controller does after one attempt of an exchange.
#[derive(Clone, Copy, Debug, PartialEq, Eq, Structural)]
pub enum RetryAction {
    /// The attempt succeeded: use the response.
    Proceed,
    /// The attempt timed out with attempts left: reconnect, pause, retry.
    ReconnectRetry,
    /// The attempt timed out on the last try: reconnect, then surface the
    /// timeout.
    ReconnectGiveUp,
    /// A non-timeout fault: surface it at once, retrying cannot fix it.
    Abort,
}

/// The retry policy of one attempt: success proceeds, a timeout forces a
/// reconnect and is retried until the attempt ceiling, anything else aborts
/// at once.
pub open spec fn retry_decision_spec(attempt: usize, outcome: Result<(), UPSError>) -> RetryAction {
    match outcome {
        Result::Ok(_) => RetryAction::Proceed,
        Result::Err(e) => if e == UPSError::Timeout {
            if attempt + 1 < RETRIES as int {
                RetryAction::ReconnectRetry
            } else {
                RetryAction::ReconnectGiveUp
            }
        } else {
            RetryAction::Abort
        },
    }
}

/// Decide what to do after attempt number `attempt` (counted from zero)
/// returned `outcome`.
pub fn retry_decision(attempt: usize, outcome: &Result<(), UPSError>) -> (a: RetryAction)
    ensures
        a == retry_decision_spec(attempt, *outcome),
{
    match outcome {
        Result::Ok(_) => RetryAction::Proceed,
        Result::Err(e) => {
            if *e == UPSError::Timeout {
                if attempt < RETRIES - 1 {
                    RetryAction::ReconnectRetry
                } else {
                    RetryAction::ReconnectGiveUp
                }
            } else {
                RetryAction::Abort
            }
        },
    }
}

/// Trace of one exchange run under the retry policy: the surfaced result,
/// how many attempts were made, and how many reconnects were forced.
pub struct ExchangeTrace {
    pub result: Result<(), UPSError>,
    pub attempts: usize,
    pub reconnects: usize,
}

/// Result, attempts and reconnects of the retry policy run from attempt
/// number `attempt` on, when attempt `i` returns `outcomes[i]`.
pub open spec fn exchange_from(outcomes: Seq<Result<(), UPSError>>, attempt: int) -> (
    Result<(), UPSError>,
    int,
    int,
)
    decreases RETRIES as int - attempt,
{
    if attempt < 0 || attempt >= RETRIES as int {
        (Err(UPSError::Unknown), 0, 0)
    } else {
        match outcomes[attempt] {
            Result::Ok(_) => (Ok(()), 1, 0),
            Result::Err(e) => if e == UPSError::Timeout {
                if attempt + 1 < RETRIES as int {
                    let rec = exchange_from(outcomes, attempt + 1);
                    (rec.0, rec.1 + 1, rec.2 + 1)
                } else {
                    (Err(UPSError::Timeout), 1, 1)
                }
            } else {
                (Err(e), 1, 0)
            },
        }
    }
}

/// Run the bounded-retry policy over the outcomes of successive attempts:
/// `outcomes[i]` is what attempt number `i` returned. Each timeout forces one
/// reconnect; a success or a non-timeout fault ends the run at once; the
/// attempt ceiling is never exceeded.
pub fn run_exchange(outcomes: &Vec<Result<(), UPSError>>) -> (t: ExchangeTrace)
    requires
        outcomes@.len() >= RETRIES as int,
    ensures
        (t.result, t.attempts as int, t.reconnects as int) == exchange_from(outcomes@, 0),
        t.attempts <= RETRIES,
        t.reconnects <= RETRIES,
{
    let mut attempt: usize = 0;
    while attempt < RETRIES
        invariant
            0 <= attempt < RETRIES,
            outcomes@.len() >= RETRIES as int,
            exchange_from(outcomes@, 0) == {
                let rec = exchange_from(outcomes@, attempt as int);
                (rec.0, rec.1 + attempt, rec.2 + attempt)
            },
        decreases RETRIES - attempt,
    {
        let outcome = outcomes[attempt];
        match retry_decision(attempt, &outcome) {
            RetryAction::Proceed => {
                return ExchangeTrace { result: Ok(()), attempts: attempt + 1, reconnects: attempt };
            },
            RetryAction::Abort => {
                return ExchangeTrace { result: outcome, attempts: attempt + 1, reconnects: attempt };
            },
            RetryAction::ReconnectGiveUp => {
                return ExchangeTrace {
                    result: Err(UPSError::Timeout),
                    attempts: attempt + 1,
                    reconnects: attempt + 1,
                };
            },
            RetryAction::ReconnectRetry => {
                attempt = attempt + 1;
            },
        }
    }
    // unreachable: ReconnectRetry never runs on the last attempt
    proof {
        assert(false);
    }
    ExchangeTrace { result: Err(UPSError::Unknown), attempts: 0, reconnects: 0 }
}

/// A run of straight timeouts exhausts the attempt ceiling: the timeout is
/// surfaced after exactly [`RETRIES`] attempts and as many reconnects, and no
/// further attempt is made.
pub proof fn lemma_retry_ceiling(outcomes: Seq<Result<(), UPSError>>)
    requires
        outcomes.len() >= RETRIES as int,
        forall|i: int|
            0 <= i < RETRIES as int ==> outcomes[i] == Err::<(), UPSError>(UPSError::Timeout),
    ensures
        exchange_from(outcomes, 0) == (
            Err::<(), UPSError>(UPSError::Timeout),
            RETRIES as int,
            RETRIES as int,
        ),
{
    assert(exchange_from(outcomes, 2) == (Err::<(), UPSError>(UPSError::Timeout), 1int, 1int));
    assert(exchange_from(outcomes, 1) == (Err::<(), UPSError>(UPSError::Timeout), 2int, 2int));
    assert(exchange_from(outcomes, 0) == (Err::<(), UPSError>(UPSError::Timeout), 3int, 3int));
}

/// Two timeouts followed by a success recover: the exchange succeeds on the
/// third attempt after exactly two reconnects.
pub proof fn lemma_retry_recovers(outcomes: Seq<Result<(), UPSError>>)
    requires
        outcomes.len() >= RETRIES as int,
        outcomes[0] == Err::<(), UPSError>(UPSError::Timeout),
        outcomes[1] == Err::<(), UPSError>(UPSError::Timeout),
        outcomes[2] == Ok::<(), UPSError>(()),
    ensures
        exchange_from(outcomes, 0) == (Ok::<(), UPSError>(()), 3int, 2int),
{
    assert(exchange_from(outcomes, 2) == (Ok::<(), UPSError>(()), 1int, 0int));
    assert(exchange_from(outcomes, 1) == (Ok::<(), UPSError>(()), 2int, 1int));
    assert(exchange_from(outcomes, 0) == (Ok::<(), UPSError>(()), 3int, 2int));
}

} // verus!
