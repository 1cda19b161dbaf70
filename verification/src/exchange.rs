//! The streaming completion client's resilience core: one exchange is a run
//! of a state machine over discrete transport events. A rate-limit failure is
//! retried with linear backoff and jitter until the retry budget is spent,
//! then one synchronous fallback call is demanded; any other failure is
//! fatal at once. Partial text of a failed attempt is discarded before the
//! next attempt.

use vstd::prelude::*;
use vstd::string::StringExecFns;

use crate::stream::{classify_model, classify_segment, SegmentAction, SegmentActionModel};

verus! {

/// Classification of a transport failure, set by the transport layer.
#[derive(Clone, Copy, Debug, PartialEq, Eq, Structural)]
pub enum FailureKind {
    /// The endpoint signalled rate limiting ("too many requests"); retryable.
    RateLimited,
    /// Any other network or protocol failure; fatal, never retried.
    Transport,
}

/// Resilience configuration for one exchange.
#[derive(Clone, Copy, Debug, PartialEq, Eq, Structural)]
pub struct ResilienceConfig {
    /// How many retryable re-attempts are made before the fallback.
    pub max_retries: u64,
    /// The backoff unit: re-attempt number `n` waits `base_backoff_ms * n`
    /// plus a jitter, in milliseconds.
    pub base_backoff_ms: u64,
}

/// One discrete happening on the transport, as the event loop reports it.
#[derive(Debug)]
pub enum TransportEvent {
    /// The connection was established.
    Opened,
    /// One event record's data segment arrived.
    Data(String),
    /// The transport closed the connection naturally.
    Closed,
    /// The attempt failed, at connection time or mid-stream.
    Failed(FailureKind),
}

/// The model of a transport event.
pub enum EventModel {
    Opened,
    Data(Seq<char>),
    Closed,
    Failed(FailureKind),
}

impl View for TransportEvent {
    type V = EventModel;

    open spec fn view(&self) -> EventModel {
        match self {
            TransportEvent::Opened => EventModel::Opened,
            TransportEvent::Data(d) => EventModel::Data(d@),
            TransportEvent::Closed => EventModel::Closed,
            TransportEvent::Failed(k) => EventModel::Failed(*k),
        }
    }
}

/// How an exchange ended.
#[derive(Debug)]
pub enum Outcome {
    /// The stream completed; the accumulated text is the result.
    Streamed(String),
    /// The retry budget is spent; one synchronous fallback call decides.
    NeedFallback,
    /// A fatal failure; the exchange is aborted.
    Fatal(FailureKind),
}

/// The model of an outcome.
pub enum OutcomeModel {
    Streamed(Seq<char>),
    NeedFallback,
    Fatal(FailureKind),
}

impl View for Outcome {
    type V = OutcomeModel;

    open spec fn view(&self) -> OutcomeModel {
        match self {
            Outcome::Streamed(s) => OutcomeModel::Streamed(s@),
            Outcome::NeedFallback => OutcomeModel::NeedFallback,
            Outcome::Fatal(k) => OutcomeModel::Fatal(*k),
        }
    }
}

/// Where the state machine stands.
#[derive(Debug)]
pub enum Phase {
    /// A connection is being established.
    Connecting,
    /// The incremental response is being consumed.
    Streaming,
    /// The exchange is over.
    Finished(Outcome),
}

/// The model of a phase.
pub enum PhaseModel {
    Connecting,
    Streaming,
    Finished(OutcomeModel),
}

impl View for Phase {
    type V = PhaseModel;

    open spec fn view(&self) -> PhaseModel {
        match self {
            Phase::Connecting => PhaseModel::Connecting,
            Phase::Streaming => PhaseModel::Streaming,
            Phase::Finished(o) => PhaseModel::Finished(o@),
        }
    }
}

/// What the caller must do next after feeding one event to the machine.
#[derive(Debug)]
pub enum Command {
    /// Nothing to do; keep feeding events.
    Progress,
    /// Emit this fragment to the output sink, then keep feeding events.
    Emit(String),
    /// Close the attempt, wait this many milliseconds, then reconnect.
    WaitThenRetry(u64),
    /// Abandon streaming and issue the synchronous fallback call.
    Fallback,
    /// The stream completed with this accumulated text.
    Succeed(String),
    /// Abort the exchange with this failure.
    Fail(FailureKind),
}

/// The model of a command; the concrete wait duration is specified apart.
pub enum CommandModel {
    Progress,
    Emit(Seq<char>),
    Retry,
    Fallback,
    Succeed(Seq<char>),
    Fail(FailureKind),
}

impl View for Command {
    type V = CommandModel;

    open spec fn view(&self) -> CommandModel {
        match self {
            Command::Progress => CommandModel::Progress,
            Command::Emit(p) => CommandModel::Emit(p@),
            Command::WaitThenRetry(_) => CommandModel::Retry,
            Command::Fallback => CommandModel::Fallback,
            Command::Succeed(s) => CommandModel::Succeed(s@),
            Command::Fail(k) => CommandModel::Fail(*k),
        }
    }
}

/// The model of the machine: the retry budget, the retries absorbed so far,
/// the current attempt's accumulated text, and the phase.
pub struct MachineModel {
    pub max_retries: int,
    pub retries: int,
    pub acc: Seq<char>,
    pub phase: PhaseModel,
}

/// The state a fresh exchange starts in.
pub open spec fn init_model(max_retries: int) -> MachineModel {
    MachineModel {
        max_retries,
        retries: 0,
        acc: Seq::empty(),
        phase: PhaseModel::Connecting,
    }
}

/// One transition of the resilience policy. This is the canonical statement
/// of the retry/backoff state machine: a finished machine ignores events; a
/// sentinel or a natural close succeeds with the accumulated text; a delta
/// fragment is emitted and accumulated; a malformed payload is skipped; a
/// rate-limit failure within budget discards the partial text and retries;
/// one beyond budget demands the fallback; any other failure is fatal.
pub open spec fn step_model(m: MachineModel, ev: EventModel) -> (MachineModel, CommandModel) {
    if m.phase is Finished {
        (m, CommandModel::Progress)
    } else {
        match ev {
            EventModel::Opened => (
                MachineModel { phase: PhaseModel::Streaming, ..m },
                CommandModel::Progress,
            ),
            EventModel::Data(d) => match classify_model(d) {
                SegmentActionModel::Finish => (
                    MachineModel { phase: PhaseModel::Finished(OutcomeModel::Streamed(m.acc)), ..m },
                    CommandModel::Succeed(m.acc),
                ),
                SegmentActionModel::Append(p) => (
                    MachineModel { acc: m.acc + p, phase: PhaseModel::Streaming, ..m },
                    CommandModel::Emit(p),
                ),
                SegmentActionModel::Skip => (
                    MachineModel { phase: PhaseModel::Streaming, ..m },
                    CommandModel::Progress,
                ),
            },
            EventModel::Closed => (
                MachineModel { phase: PhaseModel::Finished(OutcomeModel::Streamed(m.acc)), ..m },
                CommandModel::Succeed(m.acc),
            ),
            EventModel::Failed(k) => if k is RateLimited && m.retries < m.max_retries {
                (
                    MachineModel {
                        retries: m.retries + 1,
                        acc: Seq::empty(),
                        phase: PhaseModel::Connecting,
                        ..m
                    },
                    CommandModel::Retry,
                )
            } else if k is RateLimited {
                (
                    MachineModel { phase: PhaseModel::Finished(OutcomeModel::NeedFallback), ..m },
                    CommandModel::Fallback,
                )
            } else {
                (
                    MachineModel { phase: PhaseModel::Finished(OutcomeModel::Fatal(k)), ..m },
                    CommandModel::Fail(k),
                )
            },
        }
    }
}

/// The machine after feeding a whole event sequence, in order.
pub open spec fn run_model(m: MachineModel, evs: Seq<EventModel>) -> MachineModel
    decreases evs.len(),
{
    if evs.len() == 0 {
        m
    } else {
        run_model(step_model(m, evs[0]).0, evs.drop_first())
    }
}

/// The wait before re-attempt number `attempt`: the backoff unit times the
/// attempt number plus the jitter, saturating at the machine's limit.
pub open spec fn backoff_model(base: int, attempt: int, jitter: int) -> int {
    if base * attempt + jitter > u64::MAX as int {
        u64::MAX as int
    } else {
        base * attempt + jitter
    }
}

/// Relies on rand::random_range: a jitter drawn uniformly from [0, 250);
/// nothing but the bound is assumed of the value.
#[verifier::external_body]
fn draw_jitter() -> (r: u64)
    ensures
        r < 250,
{
    rand::random_range(0u64..250)
}

/// The model of a transport event sequence.
pub open spec fn events_view(evs: Seq<TransportEvent>) -> Seq<EventModel> {
    evs.map_values(|e: TransportEvent| e@)
}

/// A run extended by one event steps once from the run's end state.
pub proof fn lemma_run_push(m: MachineModel, evs: Seq<EventModel>, ev: EventModel)
    ensures
        run_model(m, evs.push(ev)) == step_model(run_model(m, evs), ev).0,
{
    assert(evs.push(ev) =~= evs + seq![ev]);
    lemma_run_append(m, evs, seq![ev]);
    let m1 = run_model(m, evs);
    let rest = seq![ev].drop_first();
    assert(seq![ev][0] == ev);
    assert(rest.len() == 0);
    assert(run_model(step_model(m1, ev).0, rest) == step_model(m1, ev).0);
    assert(run_model(m1, seq![ev]) == run_model(step_model(m1, ev).0, rest));
}

/// An event that keeps the current attempt streaming: a connection open, or
/// a data segment that is neither the sentinel nor a failure.
pub open spec fn keeps_streaming(ev: EventModel) -> bool {
    match ev {
        EventModel::Opened => true,
        EventModel::Data(d) => !(classify_model(d) is Finish),
        EventModel::Closed => false,
        EventModel::Failed(_) => false,
    }
}

/// A mid-attempt slice of a stream: events that neither fail nor end it.
pub open spec fn mid_stream(evs: Seq<EventModel>) -> bool {
    forall|i: int| 0 <= i < evs.len() ==> keeps_streaming(#[trigger] evs[i])
}

/// An event that ends the current attempt successfully: the sentinel segment
/// or a natural close.
pub open spec fn stream_end(ev: EventModel) -> bool {
    match ev {
        EventModel::Data(d) => classify_model(d) is Finish,
        EventModel::Closed => true,
        _ => false,
    }
}

/// The concatenation, in order, of the delta contents of the valid payload
/// segments of an event slice.
pub open spec fn deltas(evs: Seq<EventModel>) -> Seq<char>
    decreases evs.len(),
{
    if evs.len() == 0 {
        Seq::empty()
    } else {
        let head = match evs[0] {
            EventModel::Data(d) => match classify_model(d) {
                SegmentActionModel::Append(p) => p,
                _ => Seq::<char>::empty(),
            },
            _ => Seq::<char>::empty(),
        };
        head + deltas(evs.drop_first())
    }
}

/// The flattening of a sequence of partial attempts, each one cut off by a
/// rate-limit failure.
pub open spec fn failed_attempts(pres: Seq<Seq<EventModel>>) -> Seq<EventModel>
    decreases pres.len(),
{
    if pres.len() == 0 {
        Seq::empty()
    } else {
        pres[0].push(EventModel::Failed(FailureKind::RateLimited)) + failed_attempts(
            pres.drop_first(),
        )
    }
}

/// A run over a concatenation is the run over the second part started from
/// the run over the first.
proof fn lemma_run_append(m: MachineModel, a: Seq<EventModel>, b: Seq<EventModel>)
    ensures
        run_model(m, a + b) == run_model(run_model(m, a), b),
    decreases a.len(),
{
    if a.len() == 0 {
        assert(a + b =~= b);
    } else {
        assert((a + b)[0] == a[0]);
        assert((a + b).drop_first() =~= a.drop_first() + b);
        lemma_run_append(step_model(m, a[0]).0, a.drop_first(), b);
    }
}

/// Feeding a mid-attempt slice appends exactly the valid segments' contents
/// to the accumulator and changes nothing else of the machine.
proof fn lemma_mid_stream_accumulates(m: MachineModel, evs: Seq<EventModel>)
    requires
        !(m.phase is Finished),
        mid_stream(evs),
    ensures
        run_model(m, evs).acc == m.acc + deltas(evs),
        run_model(m, evs).retries == m.retries,
        run_model(m, evs).max_retries == m.max_retries,
        !(run_model(m, evs).phase is Finished),
    decreases evs.len(),
{
    if evs.len() == 0 {
        assert(m.acc + deltas(evs) =~= m.acc);
    } else {
        let m1 = step_model(m, evs[0]).0;
        let rest = evs.drop_first();
        assert(keeps_streaming(evs[0]));
        assert forall|i: int| 0 <= i < rest.len() implies keeps_streaming(#[trigger] rest[i]) by {
            assert(rest[i] == evs[i + 1]);
        }
        lemma_mid_stream_accumulates(m1, rest);
        let head = match evs[0] {
            EventModel::Data(d) => match classify_model(d) {
                SegmentActionModel::Append(p) => p,
                _ => Seq::<char>::empty(),
            },
            _ => Seq::<char>::empty(),
        };
        assert(m1.acc == m.acc + head) by {
            if !(evs[0] is Data) {
                assert(m.acc + Seq::<char>::empty() =~= m.acc);
            } else if !(classify_model(evs[0]->Data_0) is Append) {
                assert(m.acc + Seq::<char>::empty() =~= m.acc);
            }
        }
        assert((m.acc + head) + deltas(rest) =~= m.acc + (head + deltas(rest)));
    }
}

/// Law: a mid-attempt slice followed by a sentinel or a clean close finishes
/// the exchange with exactly the slice's accumulated fragments appended to
/// what the attempt already held, after no further retries.
pub proof fn lemma_stream_success(m: MachineModel, evs: Seq<EventModel>, last: EventModel)
    requires
        !(m.phase is Finished),
        mid_stream(evs),
        stream_end(last),
    ensures
        run_model(m, evs.push(last)).phase == PhaseModel::Finished(
            OutcomeModel::Streamed(m.acc + deltas(evs)),
        ),
        run_model(m, evs.push(last)).retries == m.retries,
    decreases evs.len(),
{
    lemma_mid_stream_accumulates(m, evs);
    assert(evs.push(last) =~= evs + seq![last]);
    lemma_run_append(m, evs, seq![last]);
    let m1 = run_model(m, evs);
    assert(run_model(m1, seq![last]) == run_model(step_model(m1, last).0, seq![last].drop_first()));
    assert(seq![last].drop_first() =~= Seq::<EventModel>::empty());
}

/// A run of partial attempts, each cut off by a rate-limit failure, absorbs
/// exactly one retry per attempt, discards every partial accumulator, and
/// leaves the machine still going.
proof fn lemma_failed_attempts_run(m: MachineModel, pres: Seq<Seq<EventModel>>)
    requires
        !(m.phase is Finished),
        forall|i: int| 0 <= i < pres.len() ==> mid_stream(#[trigger] pres[i]),
        m.retries + pres.len() <= m.max_retries,
    ensures
        run_model(m, failed_attempts(pres)).retries == m.retries + pres.len(),
        run_model(m, failed_attempts(pres)).max_retries == m.max_retries,
        !(run_model(m, failed_attempts(pres)).phase is Finished),
        pres.len() > 0 ==> run_model(m, failed_attempts(pres)).acc == Seq::<char>::empty(),
        pres.len() == 0 ==> run_model(m, failed_attempts(pres)).acc == m.acc,
    decreases pres.len(),
{
    if pres.len() > 0 {
        let first = pres[0].push(EventModel::Failed(FailureKind::RateLimited));
        let rest = pres.drop_first();
        lemma_run_append(m, first, failed_attempts(rest));
        lemma_mid_stream_accumulates(m, pres[0]);
        let m1 = run_model(m, pres[0]);
        assert(first =~= pres[0] + seq![EventModel::Failed(FailureKind::RateLimited)]);
        lemma_run_append(m, pres[0], seq![EventModel::Failed(FailureKind::RateLimited)]);
        let m2 = step_model(m1, EventModel::Failed(FailureKind::RateLimited)).0;
        assert(seq![EventModel::Failed(FailureKind::RateLimited)].drop_first()
            =~= Seq::<EventModel>::empty());
        assert(m2.retries == m.retries + 1 && m2.acc == Seq::<char>::empty() && !(m2.phase
            is Finished));
        assert(run_model(m2, seq![EventModel::Failed(FailureKind::RateLimited)].drop_first())
            == m2);
        assert(run_model(m, first) == m2);
        assert(failed_attempts(pres) == first + failed_attempts(rest));
        assert(run_model(m, failed_attempts(pres)) == run_model(m2, failed_attempts(rest)));
        assert forall|i: int| 0 <= i < rest.len() implies mid_stream(#[trigger] rest[i]) by {
            assert(rest[i] == pres[i + 1]);
        }
        lemma_failed_attempts_run(m2, rest);
    }
}

/// Law: when the transport fails with a rate-limit signal for `k` whole
/// attempts (each with any partial payloads) and then streams to completion,
/// the exchange succeeds via streaming after exactly `k` retries, and the
/// result is exactly the successful attempt's fragments: nothing of the
/// discarded attempts appears.
pub proof fn lemma_retries_then_success(
    max_retries: int,
    pres: Seq<Seq<EventModel>>,
    body: Seq<EventModel>,
    last: EventModel,
)
    requires
        0 <= pres.len() <= max_retries,
        forall|i: int| 0 <= i < pres.len() ==> mid_stream(#[trigger] pres[i]),
        mid_stream(body),
        stream_end(last),
    ensures
        run_model(init_model(max_retries), failed_attempts(pres) + body.push(last)).phase
            == PhaseModel::Finished(OutcomeModel::Streamed(deltas(body))),
        run_model(init_model(max_retries), failed_attempts(pres) + body.push(last)).retries
            == pres.len(),
{
    let m0 = init_model(max_retries);
    lemma_failed_attempts_run(m0, pres);
    let m1 = run_model(m0, failed_attempts(pres));
    lemma_run_append(m0, failed_attempts(pres), body.push(last));
    lemma_stream_success(m1, body, last);
    assert(m1.acc + deltas(body) =~= deltas(body));
}

/// Law: when every attempt fails with a rate-limit signal, the machine
/// retries exactly `max_retries` times and the next such failure demands the
/// synchronous fallback.
pub proof fn lemma_always_rate_limited_falls_back(max_retries: int, pres: Seq<Seq<EventModel>>)
    requires
        max_retries >= 0,
        pres.len() == max_retries,
        forall|i: int| 0 <= i < pres.len() ==> mid_stream(#[trigger] pres[i]),
    ensures
        run_model(
            init_model(max_retries),
            failed_attempts(pres).push(EventModel::Failed(FailureKind::RateLimited)),
        ).phase == PhaseModel::Finished(OutcomeModel::NeedFallback),
        run_model(
            init_model(max_retries),
            failed_attempts(pres).push(EventModel::Failed(FailureKind::RateLimited)),
        ).retries == max_retries,
{
    let m0 = init_model(max_retries);
    lemma_failed_attempts_run(m0, pres);
    let m1 = run_model(m0, failed_attempts(pres));
    let fail = EventModel::Failed(FailureKind::RateLimited);
    assert(failed_attempts(pres).push(fail) =~= failed_attempts(pres) + seq![fail]);
    lemma_run_append(m0, failed_attempts(pres), seq![fail]);
    assert(run_model(m1, seq![fail]) == run_model(step_model(m1, fail).0, seq![fail].drop_first()));
    assert(seq![fail].drop_first() =~= Seq::<EventModel>::empty());
}

/// Law: a stream holding one malformed payload between two valid ones
/// accumulates exactly the two valid contents, in order, and the exchange
/// succeeds; the malformed segment raises no error.
pub proof fn lemma_malformed_segment_skipped(
    max_retries: int,
    good1: Seq<char>,
    bad: Seq<char>,
    good2: Seq<char>,
    c1: Seq<char>,
    c2: Seq<char>,
)
    requires
        classify_model(good1) == SegmentActionModel::Append(c1),
        classify_model(bad) == SegmentActionModel::Skip,
        classify_model(good2) == SegmentActionModel::Append(c2),
    ensures
        run_model(
            init_model(max_retries),
            seq![
                EventModel::Data(good1),
                EventModel::Data(bad),
                EventModel::Data(good2),
                EventModel::Closed,
            ],
        ).phase == PhaseModel::Finished(OutcomeModel::Streamed(c1 + c2)),
{
    let evs = seq![EventModel::Data(good1), EventModel::Data(bad), EventModel::Data(good2)];
    assert(mid_stream(evs));
    lemma_stream_success(init_model(max_retries), evs, EventModel::Closed);
    assert(evs.push(EventModel::Closed) =~= seq![
        EventModel::Data(good1),
        EventModel::Data(bad),
        EventModel::Data(good2),
        EventModel::Closed,
    ]);
    let r1 = evs.drop_first();
    let r2 = r1.drop_first();
    let r3 = r2.drop_first();
    assert(r1 =~= seq![EventModel::Data(bad), EventModel::Data(good2)]);
    assert(r2 =~= seq![EventModel::Data(good2)]);
    assert(r3 =~= Seq::<EventModel>::empty());
    assert(deltas(r3) == Seq::<char>::empty());
    assert(deltas(r2) == c2 + deltas(r3));
    assert(deltas(r1) == Seq::<char>::empty() + deltas(r2));
    assert(deltas(evs) == c1 + deltas(r1));
    assert(deltas(evs) =~= c1 + c2);
    assert(init_model(max_retries).acc + deltas(evs) =~= c1 + c2);
}

/// The retry/backoff state machine for one exchange.
#[derive(Debug)]
pub struct ExchangeMachine {
    /// The resilience configuration this exchange runs under.
    pub config: ResilienceConfig,
    /// How many retryable failures have been absorbed so far.
    pub retries: u64,
    /// The current attempt's accumulated assistant text.
    pub acc: String,
    /// Where the exchange stands.
    pub phase: Phase,
}

impl View for ExchangeMachine {
    type V = MachineModel;

    open spec fn view(&self) -> MachineModel {
        MachineModel {
            max_retries: self.config.max_retries as int,
            retries: self.retries as int,
            acc: self.acc@,
            phase: self.phase@,
        }
    }
}

impl ExchangeMachine {
    /// A fresh machine for one exchange.
    pub fn new(config: ResilienceConfig) -> (r: ExchangeMachine)
        ensures
            r@ == init_model(config.max_retries as int),
            r.config == config,
    {
        ExchangeMachine { config, retries: 0, acc: String::new(), phase: Phase::Connecting }
    }

    /// Feeds one transport event to the machine and says what to do next.
    /// The machine steps exactly as `step_model` says; a retry command's
    /// concrete wait is the backoff formula for some jitter below 250.
    pub fn step(&mut self, ev: &TransportEvent) -> (cmd: Command)
        ensures
            final(self)@ == step_model(old(self)@, ev@).0,
            cmd@ == step_model(old(self)@, ev@).1,
            final(self).config == old(self).config,
            cmd matches Command::WaitThenRetry(ms) ==> (exists|j: int|
                0 <= j < 250 && ms as int == #[trigger] backoff_model(
                    old(self).config.base_backoff_ms as int,
                    old(self).retries as int + 1,
                    j,
                )),
    {
        if let Phase::Finished(_) = &self.phase {
            return Command::Progress;
        }
        match ev {
            TransportEvent::Opened => {
                self.phase = Phase::Streaming;
                Command::Progress
            },
            TransportEvent::Data(d) => match classify_segment(d.as_str()) {
                SegmentAction::Finish => {
                    let text = self.acc.clone();
                    self.phase = Phase::Finished(Outcome::Streamed(self.acc.clone()));
                    Command::Succeed(text)
                },
                SegmentAction::Append(p) => {
                    self.acc.append(p.as_str());
                    self.phase = Phase::Streaming;
                    Command::Emit(p)
                },
                SegmentAction::Skip => {
                    self.phase = Phase::Streaming;
                    Command::Progress
                },
            },
            TransportEvent::Closed => {
                let text = self.acc.clone();
                self.phase = Phase::Finished(Outcome::Streamed(self.acc.clone()));
                Command::Succeed(text)
            },
            TransportEvent::Failed(k) => {
                if matches!(k, FailureKind::RateLimited) && self.retries < self.config.max_retries {
                    let jitter = draw_jitter();
                    let attempt = self.retries + 1;
                    let ms = match self.config.base_backoff_ms.checked_mul(attempt) {
                        Some(v) => v.saturating_add(jitter),
                        None => u64::MAX,
                    };
                    proof {
                        let base = self.config.base_backoff_ms as int;
                        let att = self.retries as int + 1;
                        assert(ms as int == backoff_model(base, att, jitter as int));
                    }
                    self.retries = attempt;
                    self.acc = String::new();
                    self.phase = Phase::Connecting;
                    Command::WaitThenRetry(ms)
                } else if matches!(k, FailureKind::RateLimited) {
                    self.phase = Phase::Finished(Outcome::NeedFallback);
                    Command::Fallback
                } else {
                    self.phase = Phase::Finished(Outcome::Fatal(*k));
                    Command::Fail(*k)
                }
            },
        }
    }
}

} // verus!
