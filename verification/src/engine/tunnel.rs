//! The state machine of one tunnel: attempt after attempt until the user stops it or an
//! error is fatal, with a backoff in between.
//!
//! - A few retries come one second apart, then the wait doubles up to a cap.
//! - A connection that lived long enough starts the sequence afresh.
//! - A pending wait can be cut short.
use crate::model;
use crate::model::{ReconnectPolicy, StateView, TunnelError, TunnelSpec, TunnelState};
use crate::text;
use crate::text::decimal_text;
use crate::time::{Duration, NANOS_PER_SEC};
use vstd::arithmetic::power2;
use vstd::prelude::*;

verus! {

// ---------------------------------------------------------------- backoff
/// Two to the power of `exp`, as far as 64 bits hold it.
pub open spec fn doubled(exp: nat) -> nat {
    if exp < 64 {
        power2::pow2(exp)
    } else {
        u64::MAX as nat
    }
}

/// The wait before retry number `n`, in nanoseconds: one second for the fast retries, then
/// one, two, four, ... seconds up to the policy's cap.
pub open spec fn backoff_nanos(p: ReconnectPolicy, n: u32) -> nat {
    if n <= p.fast_retries {
        NANOS_PER_SEC as nat
    } else {
        let nanos = doubled((n - p.fast_retries - 1) as nat) * NANOS_PER_SEC as nat;
        if nanos <= p.max_backoff@ {
            nanos
        } else {
            p.max_backoff@
        }
    }
}

fn doubled_secs(exp: u32) -> (r: u64)
    ensures
        r == doubled(exp as nat),
{
    if exp >= 64 {
        return u64::MAX;
    }
    let mut secs: u64 = 1;
    let mut i: u32 = 0;
    proof {
        power2::lemma2_to64();
        power2::lemma2_to64_rest();
    }
    while i < exp
        invariant
            i <= exp < 64,
            secs == power2::pow2(i as nat),
            power2::pow2(64) == 0x1_0000_0000_0000_0000,
        decreases exp - i,
    {
        proof {
            power2::lemma_pow2_unfold((i + 1) as nat);
            if i + 1 < 64 {
                power2::lemma_pow2_strictly_increases((i + 1) as nat, 64);
            }
        }
        secs = secs * 2;
        i = i + 1;
    }
    secs
}

/// How long to wait before retry number `n`.
pub fn wait_before(policy: &ReconnectPolicy, n: u32) -> (r: Duration)
    ensures
        r@ == backoff_nanos(*policy, n),
{
    if n <= policy.fast_retries {
        return Duration::from_secs(1);
    }
    let secs = doubled_secs(n - policy.fast_retries - 1);
    Duration::from_secs(secs).min(policy.max_backoff)
}

proof fn lemma_doubled_grows(a: nat, b: nat)
    requires
        a <= b,
    ensures
        1 <= doubled(a) <= doubled(b),
{
    power2::lemma2_to64();
    power2::lemma2_to64_rest();
    if 0 < a && a < 64 {
        power2::lemma_pow2_strictly_increases(0, a);
    }
    if a < 64 {
        power2::lemma_pow2_strictly_increases(a, 64);
    }
    if a < b && b < 64 {
        power2::lemma_pow2_strictly_increases(a, b);
    }
}

/// The longer a tunnel fails, the longer it waits: a second for each fast retry, and never
/// more than the cap after those. (A cap below a second is below the fast retries that come
/// before it.)
pub proof fn law_backoff_grows(p: ReconnectPolicy, m: u32, n: u32)
    requires
        m <= n,
        m <= p.fast_retries < n ==> p.max_backoff@ >= NANOS_PER_SEC,
    ensures
        backoff_nanos(p, m) <= backoff_nanos(p, n),
        m <= p.fast_retries ==> backoff_nanos(p, m) == NANOS_PER_SEC,
        n > p.fast_retries ==> backoff_nanos(p, n) <= p.max_backoff@,
        p.max_backoff@ >= NANOS_PER_SEC ==> backoff_nanos(p, m) >= NANOS_PER_SEC,
{
    let a = (m - p.fast_retries - 1) as nat;
    let b = (n - p.fast_retries - 1) as nat;
    if n > p.fast_retries {
        lemma_doubled_grows(0, b);
        power2::lemma2_to64();
    }
    if m > p.fast_retries {
        lemma_doubled_grows(a, b);
        lemma_doubled_grows(0, a);
    }
}

/// Once the cap is reached the wait stays there.
pub proof fn law_backoff_settles(p: ReconnectPolicy, m: u32, n: u32)
    requires
        p.fast_retries < m <= n,
        backoff_nanos(p, m) == p.max_backoff@,
    ensures
        backoff_nanos(p, n) == p.max_backoff@,
{
    let a = (m - p.fast_retries - 1) as nat;
    let b = (n - p.fast_retries - 1) as nat;
    lemma_doubled_grows(a, b);
    assert(doubled(a) * NANOS_PER_SEC <= doubled(b) * NANOS_PER_SEC) by (nonlinear_arith)
        requires
            doubled(a) <= doubled(b),
    ;
}

/// How a wait ended.
#[derive(Debug, Clone, Copy, PartialEq, Eq, Structural)]
pub enum BackoffOutcome {
    /// The time is up.
    Completed,
    /// The user asked to stop.
    Stopped,
    /// The user asked to retry at once.
    RetryNow,
}

/// What to do next while waiting.
#[derive(Debug, Clone, Copy, PartialEq, Eq, Structural)]
pub enum BackoffPoll {
    Done(BackoffOutcome),
    /// Sleep this long, then look at the flags again.
    Sleep(Duration),
}

/// A wait that looks at the stop and retry flags five times a second.
pub struct BackoffWait {
    dur: Duration,
    waited: Duration,
}

impl BackoffWait {
    /// The length of the wait in nanoseconds.
    pub closed spec fn total(&self) -> nat {
        self.dur@
    }

    /// The part of it that was slept, in nanoseconds.
    pub closed spec fn slept(&self) -> nat {
        self.waited@
    }

    #[verifier::type_invariant]
    spec fn inv(self) -> bool {
        self.waited@ <= self.dur@
    }

    /// A wait of `dur` that has not begun.
    pub fn new(dur: Duration) -> (r: Self)
        ensures
            r.total() == dur@,
            r.slept() == 0,
    {
        BackoffWait { dur, waited: Duration::zero() }
    }

    /// One look at the flags. Stopping has priority over retrying, a retry request is used
    /// up, and the sleeps add up to the wait exactly.
    pub fn poll(&mut self, stop: bool, retry_now: &mut bool) -> (r: BackoffPoll)
        ensures
            final(self).total() == old(self).total(),
            *final(retry_now) == (*old(retry_now) && stop),
            match r {
                BackoffPoll::Done(out) => final(self).slept() == old(self).slept() && out == if stop {
                    BackoffOutcome::Stopped
                } else if *old(retry_now) {
                    BackoffOutcome::RetryNow
                } else {
                    BackoffOutcome::Completed
                } && (out == BackoffOutcome::Completed ==> old(self).slept() == old(self).total()),
                BackoffPoll::Sleep(step) => {
                    &&& !stop && !*old(retry_now)
                    &&& old(self).slept() < old(self).total()
                    &&& 0 < step@ <= 200_000_000
                    &&& step@ == 200_000_000 || final(self).slept() == old(self).total()
                    &&& final(self).slept() == old(self).slept() + step@
                    &&& final(self).slept() <= old(self).total()
                },
            },
    {
        proof {
            use_type_invariant(&*self);
        }
        if stop {
            return BackoffPoll::Done(BackoffOutcome::Stopped);
        }
        if *retry_now {
            *retry_now = false;
            return BackoffPoll::Done(BackoffOutcome::RetryNow);
        }
        if !self.waited.shorter(&self.dur) {
            return BackoffPoll::Done(BackoffOutcome::Completed);
        }
        let left = self.dur.minus(self.waited);
        let step = Duration::from_millis(200).min(left);
        let dur = self.dur.bounded();
        let waited = self.waited.plus(step);
        *self = BackoffWait { dur, waited };
        BackoffPoll::Sleep(step)
    }
}

// ---------------------------------------------------------------- the task
/// One thing the task makes visible.
#[derive(Debug, PartialEq, Eq)]
pub enum Effect {
    /// A line in the tunnel's log.
    Log(String),
    /// The tunnel's state from now on.
    State(TunnelState),
    /// A status event: its word, and a message.
    Status(&'static str, Option<String>),
    /// The session slot is emptied.
    ClearSlot,
}

/// An effect as a mathematical value.
pub enum EffectView {
    Log(Seq<char>),
    State(StateView),
    Status(Seq<char>, Option<Seq<char>>),
    ClearSlot,
}

impl View for Effect {
    type V = EffectView;

    open spec fn view(&self) -> EffectView {
        match self {
            Effect::Log(s) => EffectView::Log(s@),
            Effect::State(s) => EffectView::State(s@),
            Effect::Status(word, message) => EffectView::Status(
                word@,
                match message {
                    Some(m) => Some(m@),
                    None => None,
                },
            ),
            Effect::ClearSlot => EffectView::ClearSlot,
        }
    }
}

/// The effects of an executable vector.
pub open spec fn effects(v: Seq<Effect>) -> Seq<EffectView> {
    v.map_values(|e: Effect| e@)
}

/// What the task does next.
#[derive(Debug, Clone, Copy, PartialEq, Eq, Structural)]
pub enum Next {
    /// Back to the top of the loop.
    Top,
    /// Try to establish the tunnel and serve until it ends.
    Attempt,
    /// Wait this long, watching the flags.
    Wait(Duration),
    /// The task is over.
    Exit,
}

/// How one attempt ended.
pub struct AttemptEnd {
    /// `Ok` where the session ran and ended, the error where it failed.
    pub result: Result<(), TunnelError>,
    /// Whether the user asked to stop.
    pub stop: bool,
    /// How long the tunnel was up, if it came up at all.
    pub alive: Option<Duration>,
}

/// What the task does at a step: the retry counter, what becomes visible, what is next.
pub struct TaskStep {
    pub n: nat,
    pub effects: Seq<EffectView>,
    pub next: NextView,
}

/// `Next` as a mathematical value.
pub enum NextView {
    Top,
    Attempt,
    Wait(nat),
    Exit,
}

impl View for Next {
    type V = NextView;

    open spec fn view(&self) -> NextView {
        match self {
            Next::Top => NextView::Top,
            Next::Attempt => NextView::Attempt,
            Next::Wait(d) => NextView::Wait(d@),
            Next::Exit => NextView::Exit,
        }
    }
}

/// The log line of an error.
pub open spec fn error_line(e: TunnelError) -> EffectView {
    EffectView::Log("❌ "@ + model::error_text(e))
}

/// The message of a tunnel's last status. Refused credentials come with advice.
pub open spec fn final_message(e: TunnelError) -> Seq<char> {
    if e is AuthRejected {
        model::error_text(e) + " —— 已停止自动重连, 请检查用户名/密码后重新连接"@
    } else {
        model::error_text(e)
    }
}

/// The effects with which a task ends.
pub open spec fn finish_effects(result: Result<(), TunnelError>) -> Seq<EffectView> {
    match result {
        Ok(_) => seq![
            EffectView::ClearSlot,
            EffectView::State(StateView::Stopped),
            EffectView::Status("disconnected"@, None),
        ],
        Err(e) => seq![
            EffectView::ClearSlot,
            EffectView::State(
                StateView::Failed {
                    message: model::error_text(e),
                    retryable: model::is_retryable(e),
                },
            ),
            EffectView::Status("error"@, Some(final_message(e))),
        ],
    }
}

/// The effects of a reverse tunnel whose landing cannot be had: fatal, whatever the error.
pub open spec fn no_landing_effects(e: TunnelError) -> Seq<EffectView> {
    seq![
        error_line(e),
        EffectView::State(
            StateView::Failed { message: model::error_text(e), retryable: false },
        ),
        EffectView::Status("error"@, Some(model::error_text(e))),
    ]
}

/// The step at the top of the loop.
pub open spec fn top_step(n: nat, stop: bool) -> TaskStep {
    if stop {
        TaskStep { n, effects: finish_effects(Ok(())), next: NextView::Exit }
    } else {
        TaskStep {
            n,
            effects: seq![
                EffectView::State(StateView::Starting),
                EffectView::Status("connecting"@, None),
            ],
            next: NextView::Attempt,
        }
    }
}

/// Whether the task ends with this attempt.
pub open spec fn is_last(p: ReconnectPolicy, end: AttemptEnd) -> bool {
    end.stop || !p.auto || (end.result matches Err(e) && !model::is_retryable(e))
}

/// Whether the attempt's connection lived long enough to start the sequence afresh.
pub open spec fn lived_long(p: ReconnectPolicy, end: AttemptEnd) -> bool {
    end.alive matches Some(d) && d@ >= p.alive_reset@
}

/// What a failed attempt puts into the log before anything else.
pub open spec fn failure_lines(end: AttemptEnd) -> Seq<EffectView> {
    match end.result {
        Ok(_) => seq![],
        Err(e) => seq![error_line(e)],
    }
}

/// What is said when the sequence starts afresh.
pub open spec fn reset_lines(p: ReconnectPolicy, n: nat, end: AttemptEnd) -> Seq<EffectView> {
    if lived_long(p, end) && n != 0 {
        seq![EffectView::Log("连接存活超过重置阈值, 退避计数归零"@)]
    } else {
        seq![]
    }
}

/// The number of the retry that follows.
pub open spec fn next_retry(p: ReconnectPolicy, n: nat, end: AttemptEnd) -> nat {
    if lived_long(p, end) {
        1
    } else {
        n + 1
    }
}

/// The announcement of retry `n`.
pub open spec fn retry_message(n: nat, wait_secs: nat) -> Seq<char> {
    "第 "@ + text::decimal(n) + " 次重连, "@ + text::decimal(wait_secs) + "s 后重试"@
}

/// The step after an attempt.
pub open spec fn attempt_step(p: ReconnectPolicy, n: nat, end: AttemptEnd) -> TaskStep {
    if is_last(p, end) {
        TaskStep {
            n,
            effects: failure_lines(end) + finish_effects(end.result),
            next: NextView::Exit,
        }
    } else {
        let m = next_retry(p, n, end);
        let wait = backoff_nanos(p, m as u32);
        let secs = wait / NANOS_PER_SEC as nat;
        TaskStep {
            n: m,
            effects: failure_lines(end) + reset_lines(p, n, end) + seq![
                EffectView::State(
                    StateView::Backoff { attempt: m as u32, wait_secs: secs as u64 },
                ),
                EffectView::Status("reconnecting"@, Some(retry_message(m, secs))),
            ],
            next: NextView::Wait(wait),
        }
    }
}

/// The step after a wait.
pub open spec fn wait_step(n: nat, outcome: BackoffOutcome) -> TaskStep {
    match outcome {
        BackoffOutcome::Stopped => TaskStep {
            n,
            effects: finish_effects(Ok(())),
            next: NextView::Exit,
        },
        BackoffOutcome::RetryNow => TaskStep {
            n,
            effects: seq![EffectView::Log("跳过剩余等待, 立即重试"@)],
            next: NextView::Top,
        },
        BackoffOutcome::Completed => TaskStep { n, effects: seq![], next: NextView::Top },
    }
}

proof fn lemma_effects_push(v: Seq<Effect>, e: Effect)
    ensures
        effects(v.push(e)) == effects(v).push(e@),
{
    assert(effects(v.push(e)) =~= effects(v).push(e@));
}

fn emit(out: &mut Vec<Effect>, e: Effect)
    ensures
        effects(final(out)@) == effects(old(out)@).push(e@),
{
    proof {
        lemma_effects_push(out@, e);
    }
    out.push(e);
}

fn log_error(out: &mut Vec<Effect>, e: &TunnelError)
    ensures
        effects(final(out)@) == effects(old(out)@).push(error_line(*e)),
{
    let mut line = "❌ ".to_owned();
    line.append(e.to_string().as_str());
    emit(out, Effect::Log(line));
}

fn finish(out: &mut Vec<Effect>, result: &Result<(), TunnelError>)
    ensures
        effects(final(out)@) == effects(old(out)@) + finish_effects(*result),
{
    let ghost before = effects(out@);
    emit(out, Effect::ClearSlot);
    match result {
        Ok(_) => {
            emit(out, Effect::State(TunnelState::Stopped));
            emit(out, Effect::Status("disconnected", None));
        },
        Err(e) => {
            let mut message = e.to_string();
            if let TunnelError::AuthRejected = e {
                message.append(" —— 已停止自动重连, 请检查用户名/密码后重新连接");
            }
            emit(
                out,
                Effect::State(
                    TunnelState::Failed { message: e.to_string(), retryable: e.retryable() },
                ),
            );
            emit(out, Effect::Status("error", Some(message)));
        },
    }
    assert(effects(out@) =~= before + finish_effects(*result));
}

/// The task of one running tunnel. Its owner performs what each step asks for and comes
/// back with what happened.
pub struct TunnelTask {
    /// The tunnel's reconnect policy.
    pub policy: ReconnectPolicy,
    /// The number of the last retry; zero while the first attempt runs.
    pub n: u32,
}

impl TunnelTask {
    /// The task of a tunnel that was just started.
    pub fn new(spec: &TunnelSpec) -> (r: Self)
        ensures
            r.policy == spec.policy,
            r.n == 0,
    {
        TunnelTask { policy: spec.policy, n: 0 }
    }

    /// The landing of a reverse tunnel cannot be had. The task is over.
    pub fn on_no_landing(e: &TunnelError) -> (r: Vec<Effect>)
        ensures
            effects(r@) == no_landing_effects(*e),
    {
        let mut out: Vec<Effect> = Vec::new();
        log_error(&mut out, e);
        emit(
            &mut out,
            Effect::State(TunnelState::Failed { message: e.to_string(), retryable: false }),
        );
        emit(&mut out, Effect::Status("error", Some(e.to_string())));
        assert(effects(out@) =~= no_landing_effects(*e));
        out
    }

    /// The top of the loop: another attempt, unless the user asked to stop.
    pub fn on_top(&self, stop: bool) -> (r: (Vec<Effect>, Next))
        ensures
            effects(r.0@) == top_step(self.n as nat, stop).effects,
            r.1@ == top_step(self.n as nat, stop).next,
    {
        let mut out: Vec<Effect> = Vec::new();
        if stop {
            finish(&mut out, &Ok(()));
            assert(effects(out@) =~= finish_effects(Ok(())));
            (out, Next::Exit)
        } else {
            emit(&mut out, Effect::State(TunnelState::Starting));
            emit(&mut out, Effect::Status("connecting", None));
            assert(effects(out@) =~= top_step(self.n as nat, stop).effects);
            (out, Next::Attempt)
        }
    }

    /// After an attempt: the end of the task, or a wait before the next attempt.
    pub fn on_attempt_end(&mut self, end: &AttemptEnd) -> (r: (Vec<Effect>, Next))
        requires
            is_last(old(self).policy, *end) || lived_long(old(self).policy, *end) || old(self).n
                < u32::MAX,
        ensures
            final(self).policy == old(self).policy,
            final(self).n == attempt_step(old(self).policy, old(self).n as nat, *end).n,
            effects(r.0@) == attempt_step(old(self).policy, old(self).n as nat, *end).effects,
            r.1@ == attempt_step(old(self).policy, old(self).n as nat, *end).next,
            r.1 is Exit <==> end.stop || !old(self).policy.auto || (end.result matches Err(e) && !(e
                is Connect || e is AuthIo || e is ChannelOpen || e is Protocol || e is Session)),
            r.1 is Exit || r.1 is Wait,
    {
        let ghost p = self.policy;
        let ghost n0 = self.n as nat;
        let mut out: Vec<Effect> = Vec::new();
        let mut fatal = false;
        if let Err(e) = &end.result {
            log_error(&mut out, e);
            fatal = !e.retryable();
        }
        assert(effects(out@) =~= failure_lines(*end));
        if end.stop || !self.policy.auto || fatal {
            finish(&mut out, &end.result);
            return (out, Next::Exit);
        }
        let long = match &end.alive {
            Some(d) => !d.shorter(&self.policy.alive_reset),
            None => false,
        };
        if long {
            if self.n != 0 {
                emit(&mut out, Effect::Log("连接存活超过重置阈值, 退避计数归零".to_owned()));
            }
            self.n = 0;
        }
        assert(effects(out@) =~= failure_lines(*end) + reset_lines(p, n0, *end));
        self.n = self.n + 1;
        let wait = wait_before(&self.policy, self.n);
        let secs = wait.as_secs();
        emit(&mut out, Effect::State(TunnelState::Backoff { attempt: self.n, wait_secs: secs }));
        let mut message = "第 ".to_owned();
        message.append(decimal_text(self.n as u64).as_str());
        message.append(" 次重连, ");
        message.append(decimal_text(secs).as_str());
        message.append("s 后重试");
        emit(&mut out, Effect::Status("reconnecting", Some(message)));
        assert(effects(out@) =~= attempt_step(p, n0, *end).effects);
        (out, Next::Wait(wait))
    }

    /// After a wait.
    pub fn on_wait_end(&self, outcome: BackoffOutcome) -> (r: (Vec<Effect>, Next))
        ensures
            effects(r.0@) == wait_step(self.n as nat, outcome).effects,
            r.1@ == wait_step(self.n as nat, outcome).next,
    {
        let mut out: Vec<Effect> = Vec::new();
        assert(effects(out@) =~= seq![]);
        match outcome {
            BackoffOutcome::Stopped => {
                finish(&mut out, &Ok(()));
                assert(effects(out@) =~= finish_effects(Ok(())));
                (out, Next::Exit)
            },
            BackoffOutcome::RetryNow => {
                emit(&mut out, Effect::Log("跳过剩余等待, 立即重试".to_owned()));
                assert(effects(out@) =~= wait_step(self.n as nat, outcome).effects);
                (out, Next::Top)
            },
            BackoffOutcome::Completed => (out, Next::Top),
        }
    }
}

// ---------------------------------------------------------------- laws of the task
/// The retry counter after a run of attempts, none of which ended the task.
pub open spec fn retries_after(p: ReconnectPolicy, n: nat, ends: Seq<AttemptEnd>) -> nat
    decreases ends.len(),
{
    if ends.len() == 0 {
        n
    } else {
        attempt_step(p, retries_after(p, n, ends.drop_last()), ends.last()).n
    }
}

/// A fatal error ends the task at once: there is no retry, and its last status is an error.
pub proof fn law_fatal_error_stops(p: ReconnectPolicy, n: nat, end: AttemptEnd)
    requires
        end.result matches Err(e) && !model::is_retryable(e),
    ensures
        attempt_step(p, n, end).next is Exit,
        attempt_step(p, n, end).effects.last() == EffectView::Status(
            "error"@,
            Some(final_message(end.result->Err_0)),
        ),
        forall|i: int|
            0 <= i < attempt_step(p, n, end).effects.len() ==> !(
            #[trigger] attempt_step(p, n, end).effects[i] matches EffectView::State(
                StateView::Backoff { .. },
            )),
{
}

/// A stop request ends the task wherever it is noticed.
pub proof fn law_stop_ends(p: ReconnectPolicy, n: nat, end: AttemptEnd)
    requires
        end.stop,
    ensures
        attempt_step(p, n, end).next is Exit,
        top_step(n, true).next is Exit,
        wait_step(n, BackoffOutcome::Stopped).next is Exit,
{
}

/// A row of short failures is counted one by one, and the wait after the last of them is
/// the one of its number.
pub proof fn law_failures_count(p: ReconnectPolicy, ends: Seq<AttemptEnd>)
    requires
        0 < ends.len() <= u32::MAX,
        forall|i: int|
            0 <= i < ends.len() ==> !is_last(p, #[trigger] ends[i]) && !lived_long(p, ends[i]),
    ensures
        retries_after(p, 0, ends) == ends.len(),
        attempt_step(p, (ends.len() - 1) as nat, ends.last()).next == NextView::Wait(
            backoff_nanos(p, ends.len() as u32),
        ),
    decreases ends.len(),
{
    let before = ends.drop_last();
    assert(ends.last() == ends[ends.len() - 1]);
    if before.len() > 0 {
        assert forall|i: int| 0 <= i < before.len() implies !is_last(p, #[trigger] before[i])
            && !lived_long(p, before[i]) by {
            assert(before[i] == ends[i]);
        }
        law_failures_count(p, before);
    }
    assert(retries_after(p, 0, before) == before.len());
}

/// A connection that lived long enough starts the sequence afresh: the next wait is the
/// first one, however many retries came before.
pub proof fn law_long_life_resets(p: ReconnectPolicy, n: nat, end: AttemptEnd)
    requires
        !is_last(p, end),
        lived_long(p, end),
    ensures
        attempt_step(p, n, end).n == 1,
        attempt_step(p, n, end).next == NextView::Wait(backoff_nanos(p, 1)),
{
}

/// A server that shows another key than the remembered one is not tried again.
pub proof fn law_changed_key_stops(p: ReconnectPolicy, n: nat, end: AttemptEnd)
    requires
        end.result matches Err(e) && e is HostKeyChanged,
    ensures
        attempt_step(p, n, end).next is Exit,
{
}

/// Whether an error is one that time may cure: the server was not reached, or communication
/// broke down.
pub open spec fn may_pass(e: TunnelError) -> bool {
    match e {
        TunnelError::Connect { .. } => true,
        TunnelError::AuthRejected => false,
        TunnelError::KeyLoad { .. } => false,
        TunnelError::AuthIo { .. } => true,
        TunnelError::PortInUse { .. } => false,
        TunnelError::ForwardRejected { .. } => false,
        TunnelError::ChannelOpen { .. } => true,
        TunnelError::Protocol(_) => true,
        TunnelError::Session { .. } => true,
        TunnelError::HostKeyChanged { .. } => false,
        TunnelError::Cancelled => false,
    }
}

/// Reconnecting never gives up early: with reconnecting on and no request to stop, an attempt
/// that ended without an error, or with one that time may cure, is followed by a wait, and the
/// tunnel is shown as waiting.
pub proof fn law_curable_failure_is_retried(p: ReconnectPolicy, n: nat, end: AttemptEnd)
    requires
        p.auto,
        !end.stop,
        end.result matches Err(e) ==> e is Connect || e is AuthIo || e is ChannelOpen || e
            is Protocol || e is Session,
    ensures
        attempt_step(p, n, end).next is Wait,
        exists|i: int|
            0 <= i < attempt_step(p, n, end).effects.len() && (#[trigger] attempt_step(
                p,
                n,
                end,
            ).effects[i] matches EffectView::State(StateView::Backoff { .. })),
        attempt_step(p, n, end).effects.last() matches EffectView::Status(word, _) && word
            == "reconnecting"@,
{
    let fx = attempt_step(p, n, end).effects;
    let i = fx.len() - 2;
    assert(fx[i] matches EffectView::State(StateView::Backoff { .. }));
}

/// The task ends with an attempt only where the user asked for it, reconnecting is off, or the
/// error is one that time cannot cure; and in each of these cases it does end.
pub proof fn law_task_ends_only_for_cause(p: ReconnectPolicy, n: nat, end: AttemptEnd)
    ensures
        attempt_step(p, n, end).next is Exit <==> {
            ||| end.stop
            ||| !p.auto
            ||| end.result matches Err(e) && !may_pass(e)
        },
        attempt_step(p, n, end).next is Exit || attempt_step(p, n, end).next is Wait,
{
}

/// What is shown of a wait is the wait: the state carries the number of the retry and the whole
/// seconds of the wait that follows, the last status names the two in this order, and the number
/// is one more than that of the retry before, or one after a connection that lived at least as
/// long as the policy asks for.
pub proof fn law_wait_is_announced(p: ReconnectPolicy, n: nat, end: AttemptEnd)
    requires
        p.auto,
        !end.stop,
        end.result matches Err(e) ==> may_pass(e),
        n < u32::MAX,
    ensures
        ({
            let step = attempt_step(p, n, end);
            let m = if end.alive is Some && end.alive->0@ >= p.alive_reset@ {
                1nat
            } else {
                n + 1
            };
            &&& step.n == m
            &&& step.next matches NextView::Wait(w) && {
                &&& w == backoff_nanos(p, m as u32)
                &&& step.effects[step.effects.len() - 2] == EffectView::State(
                    StateView::Backoff {
                        attempt: m as u32,
                        wait_secs: (w / 1_000_000_000) as u64,
                    },
                )
                &&& step.effects.last() == EffectView::Status(
                    "reconnecting"@,
                    Some(
                        "第 "@ + text::decimal(m) + " 次重连, "@ + text::decimal(w / 1_000_000_000)
                            + "s 后重试"@,
                    ),
                )
            }
        }),
{
}

/// The waits: one second for each of the fast retries; then one second, or the cap where that
/// is less; then each wait is twice the one before, or the cap where that is less.
pub proof fn law_backoff_doubles(p: ReconnectPolicy, n: u32)
    requires
        n < u32::MAX,
        p.max_backoff@ <= u64::MAX * 1_000_000_000,
    ensures
        n <= p.fast_retries ==> backoff_nanos(p, n) == 1_000_000_000,
        n == p.fast_retries ==> backoff_nanos(p, (n + 1) as u32) == if p.max_backoff@
            < 1_000_000_000 {
            p.max_backoff@
        } else {
            1_000_000_000
        },
        n > p.fast_retries ==> backoff_nanos(p, (n + 1) as u32) == if 2 * backoff_nanos(p, n)
            < p.max_backoff@ {
            2 * backoff_nanos(p, n)
        } else {
            p.max_backoff@
        },
{
    power2::lemma2_to64();
    power2::lemma2_to64_rest();
    if n > p.fast_retries {
        let k = (n - p.fast_retries - 1) as nat;
        power2::lemma_pow2_unfold(k + 1);
        if k < 63 {
            assert(doubled(k + 1) == 2 * doubled(k));
        } else {
            lemma_doubled_grows(63, k);
            lemma_doubled_grows(63, k + 1);
            assert(doubled(63) == 0x8000_0000_0000_0000);
            assert(doubled(k + 1) == u64::MAX);
        }
    }
}

/// A failed attempt is logged first of all, with what the error says. A task that ends has
/// emptied its slot and shows its end: stopped where the session ended without an error, failed
/// with the error's words otherwise, and the last status says so too. Where the credentials were
/// refused it adds what to do, and nothing otherwise.
pub proof fn law_end_is_shown(p: ReconnectPolicy, n: nat, end: AttemptEnd)
    ensures
        end.result matches Err(e) ==> attempt_step(p, n, end).effects[0] == EffectView::Log(
            "❌ "@ + model::error_text(e),
        ),
        attempt_step(p, n, end).next is Exit ==> {
            let fx = attempt_step(p, n, end).effects;
            let k = fx.len() - 1;
            &&& k >= 2
            &&& fx[k - 2] == EffectView::ClearSlot
            &&& match end.result {
                Ok(_) => fx[k - 1] == EffectView::State(StateView::Stopped) && fx[k]
                    == EffectView::Status("disconnected"@, None),
                Err(e) => {
                    &&& fx[k - 1] == EffectView::State(
                        StateView::Failed {
                            message: model::error_text(e),
                            retryable: may_pass(e),
                        },
                    )
                    &&& fx[k] matches EffectView::Status(word, Some(m)) && word == "error"@
                        && model::error_text(e).is_prefix_of(m) && (e is AuthRejected <==> m
                        != model::error_text(e)) && (e is AuthRejected ==> text::ends_in(
                        m,
                        " —— 已停止自动重连, 请检查用户名/密码后重新连接"@,
                    ))
                },
            }
        },
{
    if let Err(e) = end.result {
        let t = model::error_text(e);
        let advice = " —— 已停止自动重连, 请检查用户名/密码后重新连接"@;
        reveal_strlit(" —— 已停止自动重连, 请检查用户名/密码后重新连接");
        assert(t.is_prefix_of(final_message(e))) by {
            assert(final_message(e).take(t.len() as int) =~= t);
        }
        if e is AuthRejected {
            assert(final_message(e).len() > t.len());
            assert(text::ends_in(final_message(e), advice)) by {
                let m = final_message(e);
                assert(m.subrange(m.len() - advice.len(), m.len() as int) =~= advice);
            }
        }
    }
}

/// The top of the loop starts an attempt and shows that it connects, unless the user asked to
/// stop: then the tunnel is shown as stopped, and the task is over.
pub proof fn law_top_of_loop(n: nat, stop: bool)
    ensures
        stop <==> top_step(n, stop).next is Exit,
        !stop <==> top_step(n, stop).next is Attempt,
        !stop ==> top_step(n, stop).effects.contains(EffectView::State(StateView::Starting))
            && top_step(n, stop).effects.contains(EffectView::Status("connecting"@, None)),
        stop ==> top_step(n, stop).effects.contains(EffectView::ClearSlot) && top_step(
            n,
            stop,
        ).effects.contains(EffectView::State(StateView::Stopped)) && top_step(
            n,
            stop,
        ).effects.contains(EffectView::Status("disconnected"@, None)),
{
    let fx = top_step(n, stop).effects;
    if stop {
        assert(fx[0] == EffectView::ClearSlot);
        assert(fx[1] == EffectView::State(StateView::Stopped));
        assert(fx[2] == EffectView::Status("disconnected"@, None));
    } else {
        assert(fx[0] == EffectView::State(StateView::Starting));
        assert(fx[1] == EffectView::Status("connecting"@, None));
    }
}

/// After a wait the loop goes on, whether the time is up or the user is impatient; only a
/// request to stop ends it. The retry counter stays.
pub proof fn law_wait_goes_on(n: nat, outcome: BackoffOutcome)
    ensures
        wait_step(n, outcome).n == n,
        outcome is Completed || outcome is RetryNow ==> wait_step(n, outcome).next is Top,
        outcome is Completed ==> wait_step(n, outcome).effects.len() == 0,
        outcome is Stopped ==> wait_step(n, outcome).next is Exit && wait_step(
            n,
            outcome,
        ).effects.contains(EffectView::State(StateView::Stopped)) && wait_step(
            n,
            outcome,
        ).effects.contains(EffectView::ClearSlot),
{
    if outcome is Stopped {
        let fx = wait_step(n, outcome).effects;
        assert(fx[0] == EffectView::ClearSlot);
        assert(fx[1] == EffectView::State(StateView::Stopped));
    }
}

/// A reverse tunnel whose landing cannot be had is shown as failed for good, with the error's
/// words in the log, the state and the status.
pub proof fn law_no_landing_is_final(e: TunnelError)
    ensures
        no_landing_effects(e).len() == 3,
        no_landing_effects(e)[0] == EffectView::Log("❌ "@ + model::error_text(e)),
        no_landing_effects(e)[1] == EffectView::State(
            StateView::Failed { message: model::error_text(e), retryable: false },
        ),
        no_landing_effects(e)[2] == EffectView::Status("error"@, Some(model::error_text(e))),
{
}

/// A connection that lived long enough after retries is remarked on when the sequence starts
/// afresh; nothing is said where there was nothing to reset.
pub proof fn law_reset_is_logged(p: ReconnectPolicy, n: nat, end: AttemptEnd)
    requires
        p.auto,
        !end.stop,
        end.result matches Err(e) ==> may_pass(e),
    ensures
        ({
            let fx = attempt_step(p, n, end).effects;
            let failed = if end.result is Err {
                1int
            } else {
                0
            };
            let reset = end.alive is Some && end.alive->0@ >= p.alive_reset@ && n != 0;
            &&& reset ==> fx.len() == failed + 3 && fx[failed] == EffectView::Log(
                "连接存活超过重置阈值, 退避计数归零"@,
            )
            &&& !reset ==> fx.len() == failed + 2
        }),
{
}

/// An effect is shown as it is: a line with its text, a state, a status with its word and its
/// message. So is what comes next, with the time to wait.
pub proof fn law_effect_is_shown_as_it_is(
    line: String,
    state: TunnelState,
    word: &'static str,
    message: String,
    wait: Duration,
)
    ensures
        Effect::Log(line)@ == EffectView::Log(line@),
        Effect::State(state)@ == EffectView::State(state@),
        Effect::Status(word, Some(message))@ == EffectView::Status(word@, Some(message@)),
        Effect::Status(word, None)@ == EffectView::Status(word@, None),
        Effect::ClearSlot@ == EffectView::ClearSlot,
        Next::Wait(wait)@ == NextView::Wait(wait@),
        Next::Exit@ is Exit && Next::Top@ is Top && Next::Attempt@ is Attempt,
{
}

} // verus!
