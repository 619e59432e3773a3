//! One encoding task: its status, the machine-readable progress lines of
//! the encoder that drive it, and the record of every status it has
//! published to subscribers. The task here is the sequential core; the
//! shell around the library owns the child process and the broadcast
//! channel and calls in with plain values.

use vstd::prelude::*;

use crate::text::{
    all_digits, digits_value, find_sub, first_match, fixed_micros, has_match,
    lemma_first_match_at, parse_fixed_micros, parse_u64, spec_fixed_ok, str_eq,
};

verus! {

/// Identifier of a task; also the basename of its input and output files.
pub type TaskId = u64;

/// What a task tells its subscribers: who changed, and to what.
pub type TaskUpdateMessage = (TaskId, TaskStatus);

/// Status of a task. Progress and speed are in millionths: a progress of
/// one million is a finished encode, a speed of two million is twice real
/// time, and a speed of zero means the encoder has not said.
#[derive(Clone, Debug, PartialEq, Eq)]
pub enum TaskStatus {
    InProgress { progress: u64, speed: u64 },
    Error(String),
    Completed { end_time_ms: u64 },
}

/// A status from which a task never moves again.
pub open spec fn is_terminal(s: TaskStatus) -> bool {
    !(s is InProgress)
}

/// The progress carried by a running status; zero elsewhere.
pub open spec fn progress_of(s: TaskStatus) -> u64 {
    match s {
        TaskStatus::InProgress { progress, speed } => progress,
        _ => 0,
    }
}

/// The speed carried by a running status; zero elsewhere.
pub open spec fn speed_of(s: TaskStatus) -> u64 {
    match s {
        TaskStatus::InProgress { progress, speed } => speed,
        _ => 0,
    }
}

/// The status every task starts in: no progress, speed unknown.
pub open spec fn initial_status() -> TaskStatus {
    TaskStatus::InProgress { progress: 0, speed: 0 }
}

/// The two statuses agree, comparing error messages by their text.
pub open spec fn status_matches(a: TaskStatus, b: TaskStatus) -> bool {
    match (a, b) {
        (
            TaskStatus::InProgress { progress: p1, speed: s1 },
            TaskStatus::InProgress { progress: p2, speed: s2 },
        ) => p1 == p2 && s1 == s2,
        (TaskStatus::Error(m1), TaskStatus::Error(m2)) => m1@ == m2@,
        (
            TaskStatus::Completed { end_time_ms: e1 },
            TaskStatus::Completed { end_time_ms: e2 },
        ) => e1 == e2,
        _ => false,
    }
}

/// Copy a status; error messages are copied by text.
pub fn clone_status(s: &TaskStatus) -> (r: TaskStatus)
    ensures
        status_matches(r, *s),
        r is InProgress <==> *s is InProgress,
{
    match s {
        TaskStatus::InProgress { progress, speed } => TaskStatus::InProgress {
            progress: *progress,
            speed: *speed,
        },
        TaskStatus::Error(m) => TaskStatus::Error(String::from_str(m.as_str())),
        TaskStatus::Completed { end_time_ms } => TaskStatus::Completed {
            end_time_ms: *end_time_ms,
        },
    }
}

/// Within a run of published statuses, progress never falls between two
/// running entries.
pub open spec fn progress_monotone(h: Seq<TaskStatus>) -> bool {
    forall|i: int, j: int|
        0 <= i <= j < h.len() && !is_terminal(#[trigger] h[i]) && !is_terminal(
            #[trigger] h[j],
        ) ==> progress_of(h[i]) <= progress_of(h[j])
}

/// One reading of an encoder statistics line.
#[derive(Clone, Copy, Debug, PartialEq, Eq, Structural)]
pub enum StatsParse {
    /// Microseconds of output encoded so far (negative readings clamp to
    /// zero).
    Time(u64),
    /// Speed in millionths of real time.
    Speed(u64),
    /// Anything else: an unknown key or an unreadable value.
    Other,
}

/// Trailing `x` characters removed.
pub open spec fn trim_x(s: Seq<char>) -> Seq<char>
    decreases s.len(),
{
    if s.len() > 0 && s.last() == 'x' {
        trim_x(s.drop_last())
    } else {
        s
    }
}

/// The value part of a statistics line: everything between the first `=`
/// and the second, or the end.
pub open spec fn stats_rhs(rest: Seq<char>) -> Seq<char> {
    if has_match(rest, "="@) {
        rest.take(first_match(rest, "="@))
    } else {
        rest
    }
}

/// The reading of an `out_time_ms` value: microseconds, with negative
/// readings clamped to zero, rejected outside the signed 64-bit range.
pub open spec fn spec_out_time(rhs: Seq<char>) -> StatsParse {
    if rhs.len() > 0 && rhs[0] == '-' {
        if rhs.len() > 1 && all_digits(rhs.skip(1)) && digits_value(rhs.skip(1))
            <= 0x8000_0000_0000_0000 {
            StatsParse::Time(0)
        } else {
            StatsParse::Other
        }
    } else {
        if rhs.len() > 0 && all_digits(rhs) && digits_value(rhs) <= 0x7fff_ffff_ffff_ffff {
            StatsParse::Time(digits_value(rhs) as u64)
        } else {
            StatsParse::Other
        }
    }
}

/// The reading of a whole statistics line: `out_time_ms` carries the
/// output time, `speed` carries a decimal factor with a trailing `x`, and
/// every other line says nothing.
pub open spec fn spec_stats_parse(line: Seq<char>) -> StatsParse {
    if !has_match(line, "="@) {
        StatsParse::Other
    } else {
        let k = first_match(line, "="@);
        let lhs = line.take(k);
        let rhs = stats_rhs(line.skip(k + 1));
        if lhs == "out_time_ms"@ {
            spec_out_time(rhs)
        } else if lhs == "speed"@ {
            if spec_fixed_ok(trim_x(rhs)) {
                StatsParse::Speed(fixed_micros(trim_x(rhs)) as u64)
            } else {
                StatsParse::Other
            }
        } else {
            StatsParse::Other
        }
    }
}

impl StatsParse {
    /// Read one statistics line of the encoder.
    pub fn parse_line(line: &str) -> (r: StatsParse)
        ensures
            r == spec_stats_parse(line@),
    {
        let eq = match find_sub(line, "=") {
            Some(k) => k,
            None => {
                return StatsParse::Other;
            },
        };
        proof {
            lemma_first_match_at(line@, "="@, eq as int);
            reveal_strlit("=");
            assert("="@.len() == 1);
        }
        let n = line.unicode_len();
        let lhs = line.substring_char(0, eq);
        let rest = line.substring_char(eq + 1, n);
        proof {
            assert(lhs@ =~= line@.take(eq as int));
            assert(rest@ =~= line@.skip(eq + 1));
        }
        let rhs = match find_sub(rest, "=") {
            Some(k2) => {
                proof {
                    lemma_first_match_at(rest@, "="@, k2 as int);
                }
                rest.substring_char(0, k2)
            },
            None => rest,
        };
        proof {
            assert(rhs@ =~= stats_rhs(rest@));
        }
        if str_eq(lhs, "out_time_ms") {
            parse_out_time(rhs)
        } else if str_eq(lhs, "speed") {
            let stripped = strip_trailing_x(rhs);
            match parse_fixed_micros(stripped) {
                Some(v) => StatsParse::Speed(v),
                None => StatsParse::Other,
            }
        } else {
            StatsParse::Other
        }
    }
}

/// The string with its trailing `x` characters removed.
fn strip_trailing_x(s: &str) -> (r: &str)
    ensures
        r@ == trim_x(s@),
{
    let n = s.unicode_len();
    let mut e: usize = n;
    proof {
        assert(s@.take(n as int) =~= s@);
    }
    while e > 0
        invariant
            0 <= e <= n,
            n == s@.len(),
            trim_x(s@) == trim_x(s@.take(e as int)),
        decreases e,
    {
        let c = s.get_char(e - 1);
        if c != 'x' {
            let r = s.substring_char(0, e);
            proof {
                let t = s@.take(e as int);
                assert(t.last() == s@[e - 1]);
                assert(trim_x(t) == t);
                assert(r@ =~= t);
            }
            return r;
        }
        proof {
            let t = s@.take(e as int);
            assert(t.last() == s@[e - 1]);
            assert(t.drop_last() =~= s@.take(e - 1));
        }
        e = e - 1;
    }
    let r = s.substring_char(0, 0);
    proof {
        let t = s@.take(0);
        assert(trim_x(t) == t);
        assert(r@ =~= t);
    }
    r
}

/// Read the `out_time_ms` value.
fn parse_out_time(rhs: &str) -> (r: StatsParse)
    ensures
        r == spec_out_time(rhs@),
{
    let n = rhs.unicode_len();
    if n == 0 {
        return StatsParse::Other;
    }
    let c0 = rhs.get_char(0);
    if c0 == '-' {
        let digits = rhs.substring_char(1, n);
        proof {
            assert(digits@ =~= rhs@.skip(1));
        }
        match parse_u64(digits) {
            Some(v) => {
                if v <= 0x8000_0000_0000_0000 {
                    StatsParse::Time(0)
                } else {
                    StatsParse::Other
                }
            },
            None => StatsParse::Other,
        }
    } else {
        match parse_u64(rhs) {
            Some(v) => {
                if v <= 0x7fff_ffff_ffff_ffff {
                    StatsParse::Time(v)
                } else {
                    StatsParse::Other
                }
            },
            None => StatsParse::Other,
        }
    }
}

/// One progress sample of the encoder: the fields of a statistics block
/// that this library reads. Either may be absent.
#[derive(Clone, Copy, Debug)]
pub struct StatsSample {
    pub out_time_us: Option<u64>,
    pub speed_millionths: Option<u64>,
}

impl StatsSample {
    /// An empty sample.
    pub fn new() -> (r: StatsSample)
        ensures
            r.out_time_us is None,
            r.speed_millionths is None,
    {
        StatsSample { out_time_us: None, speed_millionths: None }
    }

    /// Fold one statistics reading into the sample; later readings of the
    /// same key replace earlier ones.
    pub fn absorb(&mut self, p: StatsParse)
        ensures
            final(self).out_time_us == (match p {
                StatsParse::Time(t) => Some(t),
                _ => old(self).out_time_us,
            }),
            final(self).speed_millionths == (match p {
                StatsParse::Speed(v) => Some(v),
                _ => old(self).speed_millionths,
            }),
    {
        match p {
            StatsParse::Time(t) => {
                self.out_time_us = Some(t);
            },
            StatsParse::Speed(v) => {
                self.speed_millionths = Some(v);
            },
            StatsParse::Other => {},
        }
    }

    /// Does the sample carry anything to publish?
    pub open spec fn carries_update(self) -> bool {
        self.out_time_us is Some || self.speed_millionths is Some
    }
}

/// The status after one progress sample: a running task takes the new
/// progress (never letting it fall, capped at one) and the new speed; a
/// finished task is untouched.
pub open spec fn spec_apply_sample(
    st: TaskStatus,
    sample: StatsSample,
    playtime_us: u64,
) -> TaskStatus {
    match st {
        TaskStatus::InProgress { progress, speed } => {
            let p1 = match sample.out_time_us {
                Some(t) => {
                    let q = crate::spec_progress(t as int, playtime_us as int);
                    if q > progress {
                        q as u64
                    } else {
                        progress
                    }
                },
                None => progress,
            };
            let s1 = match sample.speed_millionths {
                Some(v) => v,
                None => speed,
            };
            TaskStatus::InProgress { progress: p1, speed: s1 }
        },
        _ => st,
    }
}

/// Publishing one more status out of a running task keeps the published
/// run well formed: only the new last entry may be terminal, and progress
/// never falls.
proof fn lemma_publish_keeps_wf(h: Seq<TaskStatus>, old_last: TaskStatus, new_status: TaskStatus)
    requires
        forall|i: int| 0 <= i < h.len() - 1 ==> !is_terminal(#[trigger] h[i]),
        h.len() > 0 ==> old_last == h.last(),
        progress_monotone(h.push(old_last)),
        !is_terminal(old_last),
        forall|i: int| 0 <= i < h.len() ==> progress_of(#[trigger] h[i]) <= 1_000_000,
        progress_of(new_status) <= 1_000_000,
        !is_terminal(new_status) ==> progress_of(new_status) >= progress_of(old_last),
    ensures
        forall|i: int|
            0 <= i < h.push(new_status).len() - 1 ==> !is_terminal(
                #[trigger] h.push(new_status)[i],
            ),
        progress_monotone(h.push(new_status).push(new_status)),
        forall|i: int|
            0 <= i < h.push(new_status).len() ==> progress_of(#[trigger] h.push(new_status)[i])
                <= 1_000_000,
{
    let h0 = h.push(old_last);
    let target = h.push(new_status).push(new_status);
    assert forall|i: int|
        0 <= i < h.push(new_status).len() - 1 implies !is_terminal(
        #[trigger] h.push(new_status)[i],
    ) by {
        if i < h.len() - 1 {
            assert(h.push(new_status)[i] == h[i]);
        } else {
            assert(h.push(new_status)[i] == old_last);
        }
    }
    assert forall|i: int, j: int|
        0 <= i <= j < target.len() && !is_terminal(#[trigger] target[i]) && !is_terminal(
            #[trigger] target[j],
        ) implies progress_of(target[i]) <= progress_of(target[j]) by {
        if j < h.len() {
            assert(target[i] == h0[i]);
            assert(target[j] == h0[j]);
        } else {
            assert(target[j] == new_status);
            if i < h.len() {
                assert(target[i] == h0[i]);
                assert(!is_terminal(h0[h0.len() - 1]));
                assert(progress_of(h0[i]) <= progress_of(h0[h0.len() - 1]));
            }
        }
    }
    assert forall|i: int|
        0 <= i < h.push(new_status).len() implies progress_of(
        #[trigger] h.push(new_status)[i],
    ) <= 1_000_000 by {
        if i < h.len() {
            assert(h.push(new_status)[i] == h[i]);
        }
    }
}

/// One encoding task: its identifier, its current status, when it reached
/// a terminal status, and — as ghost state — every status it has
/// published, oldest first.
pub struct Task {
    pub id: TaskId,
    pub last_status: TaskStatus,
    pub completed_at_ms: Option<u64>,
    pub history: Ghost<Seq<TaskStatus>>,
}

impl Task {
    /// Every status handed to subscribers so far, oldest first.
    pub open spec fn published(self) -> Seq<TaskStatus> {
        self.history@
    }

    /// The current status, as spec value.
    pub open spec fn status(self) -> TaskStatus {
        self.last_status
    }

    /// When the task reached a terminal status, in Unix milliseconds.
    pub open spec fn completed_at_spec(self) -> Option<u64> {
        self.completed_at_ms
    }

    /// The task invariant.
    ///
    /// Everything published before the last message is a running status;
    /// the current status is the last published one (or the initial one
    /// before any publication); progress never falls between two running
    /// statuses and never exceeds one; and the completion time is recorded
    /// exactly when the status is terminal.
    pub open spec fn wf(self) -> bool {
        &&& forall|i: int|
            0 <= i < self.history@.len() - 1 ==> !is_terminal(#[trigger] self.history@[i])
        &&& (self.history@.len() > 0 ==> self.last_status == self.history@.last())
        &&& (self.history@.len() == 0 ==> self.last_status == initial_status())
        &&& progress_monotone(self.history@.push(self.last_status))
        &&& progress_of(self.last_status) <= 1_000_000
        &&& forall|i: int|
            0 <= i < self.history@.len() ==> progress_of(#[trigger] self.history@[i])
                <= 1_000_000
        &&& (is_terminal(self.last_status) <==> self.completed_at_ms is Some)
    }

    /// A fresh task: running, no progress, speed unknown, nothing
    /// published.
    pub fn new(id: TaskId) -> (r: Task)
        ensures
            r.wf(),
            r.id == id,
            r.status() == initial_status(),
            r.published() == Seq::<TaskStatus>::empty(),
            r.completed_at_spec() is None,
    {
        Task {
            id,
            last_status: TaskStatus::InProgress { progress: 0, speed: 0 },
            completed_at_ms: None,
            history: Ghost(Seq::empty()),
        }
    }

    /// The current status.
    pub fn last_status(&self) -> (r: TaskStatus)
        ensures
            status_matches(r, self.status()),
            r is InProgress <==> self.status() is InProgress,
    {
        clone_status(&self.last_status)
    }

    /// When the task reached a terminal status.
    pub fn completed_at(&self) -> (r: Option<u64>)
        ensures
            r == self.completed_at_spec(),
    {
        self.completed_at_ms
    }

    /// Fold one progress sample into the task and say what to publish.
    ///
    /// A terminal task ignores the sample and publishes nothing. A running
    /// task takes the sample's progress and speed as `spec_apply_sample`
    /// says — progress never falls and never exceeds one — and publishes
    /// the new status exactly when the sample carried a reading.
    pub fn apply_sample(&mut self, sample: StatsSample, playtime_us: u64) -> (r: Option<
        TaskUpdateMessage,
    >)
        requires
            old(self).wf(),
            playtime_us > 0,
        ensures
            final(self).wf(),
            final(self).id == old(self).id,
            final(self).completed_at_spec() == old(self).completed_at_spec(),
            final(self).status() == spec_apply_sample(old(self).status(), sample, playtime_us),
            is_terminal(old(self).status()) ==> *final(self) == *old(self) && r is None,
            r is Some <==> (old(self).status() is InProgress && sample.carries_update()),
            r is Some ==> final(self).published() == old(self).published().push(
                final(self).status(),
            ) && (r->0).0 == old(self).id && status_matches((r->0).1, final(self).status()),
            r is None ==> final(self).published() == old(self).published(),
            !is_terminal(old(self).status()) && !is_terminal(final(self).status())
                ==> progress_of(old(self).status()) <= progress_of(final(self).status()),
    {
        let (progress0, speed0) = match &self.last_status {
            TaskStatus::InProgress { progress, speed } => (*progress, *speed),
            _ => {
                return None;
            },
        };
        if sample.out_time_us.is_none() && sample.speed_millionths.is_none() {
            return None;
        }
        let p1 = match sample.out_time_us {
            Some(t) => {
                let q = crate::progress_millionths(t, playtime_us);
                if q > progress0 {
                    q
                } else {
                    progress0
                }
            },
            None => progress0,
        };
        let s1 = match sample.speed_millionths {
            Some(v) => v,
            None => speed0,
        };
        let new_status = TaskStatus::InProgress { progress: p1, speed: s1 };
        let message = clone_status(&new_status);
        proof {
            lemma_publish_keeps_wf(self.history@, self.last_status, new_status);
        }
        self.history = Ghost(self.history@.push(new_status));
        self.last_status = new_status;
        Some((self.id, message))
    }

    /// Mark the task completed and say what to publish.
    pub fn complete(&mut self, now_ms: u64) -> (r: TaskUpdateMessage)
        requires
            old(self).wf(),
            !is_terminal(old(self).status()),
        ensures
            final(self).wf(),
            final(self).id == old(self).id,
            final(self).status() == (TaskStatus::Completed { end_time_ms: now_ms }),
            final(self).completed_at_spec() == Some(now_ms),
            final(self).published() == old(self).published().push(final(self).status()),
            r.0 == old(self).id,
            status_matches(r.1, final(self).status()),
    {
        let new_status = TaskStatus::Completed { end_time_ms: now_ms };
        let message = clone_status(&new_status);
        proof {
            lemma_publish_keeps_wf(self.history@, self.last_status, new_status);
        }
        self.history = Ghost(self.history@.push(new_status));
        self.last_status = new_status;
        self.completed_at_ms = Some(now_ms);
        (self.id, message)
    }

    /// Mark the task failed with a message and say what to publish.
    pub fn fail(&mut self, message: String, now_ms: u64) -> (r: TaskUpdateMessage)
        requires
            old(self).wf(),
            !is_terminal(old(self).status()),
        ensures
            final(self).wf(),
            final(self).id == old(self).id,
            final(self).status() matches TaskStatus::Error(m) && m@ == message@,
            final(self).completed_at_spec() == Some(now_ms),
            final(self).published() == old(self).published().push(final(self).status()),
            r.0 == old(self).id,
            status_matches(r.1, final(self).status()),
    {
        let new_status = TaskStatus::Error(message);
        let out = clone_status(&new_status);
        proof {
            lemma_publish_keeps_wf(self.history@, self.last_status, new_status);
        }
        self.history = Ghost(self.history@.push(new_status));
        self.last_status = new_status;
        self.completed_at_ms = Some(now_ms);
        (self.id, out)
    }

    /// Decide how encoding starts, given a finished analysis: a file with
    /// audible content proceeds with its expected output playtime and the
    /// task untouched; a file with none fails now with "no audible
    /// content", publishing that — the encoder is never started for it.
    pub fn begin_encode(&mut self, analysis: &crate::analysis::VideoAnalysis, now_ms: u64) -> (r:
        Result<u64, TaskUpdateMessage>)
        requires
            old(self).wf(),
            !is_terminal(old(self).status()),
            analysis.wf(),
        ensures
            final(self).wf(),
            final(self).id == old(self).id,
            crate::analysis::total_len(analysis.audible@) > 0 ==> (r matches Ok(p) && p
                == crate::analysis::total_len(analysis.audible@) && *final(self) == *old(
                self,
            )),
            crate::analysis::total_len(analysis.audible@) == 0 ==> ({
                &&& r is Err
                &&& final(self).status() matches TaskStatus::Error(m) && m@
                    == "no audible content"@
                &&& final(self).completed_at_spec() == Some(now_ms)
                &&& final(self).published() == old(self).published().push(
                    final(self).status(),
                )
                &&& status_matches(r->Err_0.1, final(self).status())
                &&& r->Err_0.0 == old(self).id
            }),
    {
        let playtime = crate::analysis::post_encode_playtime_us(analysis);
        if playtime == 0 {
            let msg = self.fail(String::from_str("no audible content"), now_ms);
            Err(msg)
        } else {
            Ok(playtime)
        }
    }

    /// Draw a fresh task identifier.
    ///
    /// Relies on `rand::random`: a uniformly random 64-bit value; nothing
    /// is promised of a random draw.
    #[verifier::external_body]
    pub fn gen_id() -> (r: TaskId) {
        rand::random::<u64>()
    }

    /// Cancel the task: a running task completes now and publishes that; a
    /// terminal task is untouched, so cancelling twice is a no-op.
    pub fn cancel(&mut self, now_ms: u64) -> (r: Option<TaskUpdateMessage>)
        requires
            old(self).wf(),
        ensures
            final(self).wf(),
            final(self).id == old(self).id,
            is_terminal(old(self).status()) ==> *final(self) == *old(self) && r is None,
            !is_terminal(old(self).status()) ==> ({
                &&& final(self).status() == (TaskStatus::Completed { end_time_ms: now_ms })
                &&& final(self).completed_at_spec() == Some(now_ms)
                &&& final(self).published() == old(self).published().push(final(self).status())
                &&& r matches Some(m) && m.0 == old(self).id && status_matches(
                    m.1,
                    final(self).status(),
                )
            }),
    {
        match &self.last_status {
            TaskStatus::InProgress { .. } => {},
            _ => {
                return None;
            },
        }
        Some(self.complete(now_ms))
    }
}

/// Render a task identifier as the decimal string that names its files
/// and travels to clients.
pub fn render_task_id(id: TaskId) -> (r: String)
    ensures
        r@ == crate::text::dec_digits(id as nat),
{
    crate::text::render_u64(id)
}

/// Read a task identifier back from its decimal string.
pub fn parse_task_id(s: &str) -> (r: Option<TaskId>)
    ensures
        r == crate::text::spec_parse_u64(s@),
{
    parse_u64(s)
}

/// Law: rendering any 64-bit task identifier as its decimal string and
/// parsing that string back is the identity.
pub proof fn lemma_task_id_round_trip(id: TaskId)
    ensures
        crate::text::spec_parse_u64(crate::text::dec_digits(id as nat)) == Some(id),
{
    crate::text::lemma_u64_decimal_round_trip(id);
}

/// Law: what any observer of a task can rely on. Every status published
/// before the last one is a running status — so a terminal message, if
/// any, is unique and last — progress never falls across the published
/// running statuses, and the current status is the most recently published
/// one. That the current status never changes again after a terminal
/// message is the `is_terminal ==> untouched` clause on every transition.
pub proof fn lemma_observed_statuses(t: Task)
    requires
        t.wf(),
    ensures
        forall|i: int|
            0 <= i < t.published().len() ==> (is_terminal(#[trigger] t.published()[i]) ==> i
                == t.published().len() - 1),
        progress_monotone(t.published()),
        t.published().len() > 0 ==> t.status() == t.published().last(),
{
    let h = t.published();
    let h1 = h.push(t.status());
    assert forall|i: int, j: int|
        0 <= i <= j < h.len() && !is_terminal(#[trigger] h[i]) && !is_terminal(
            #[trigger] h[j],
        ) implies progress_of(h[i]) <= progress_of(h[j]) by {
        assert(h1[i] == h[i]);
        assert(h1[j] == h[j]);
    }
}

/// Law: an encoder that never reports a speed leaves the speed at its
/// initial zero. Folding any run of samples without a speed reading into a
/// fresh task keeps `speed == 0` in every status it takes.
pub proof fn lemma_speed_stays_zero(samples: Seq<StatsSample>, playtime_us: u64)
    requires
        forall|i: int| 0 <= i < samples.len() ==> (#[trigger] samples[i]).speed_millionths
            is None,
    ensures
        speed_of(fold_samples(initial_status(), samples, playtime_us)) == 0,
    decreases samples.len(),
{
    lemma_fold_speed(initial_status(), samples, playtime_us);
}

/// The status after a run of samples.
pub open spec fn fold_samples(
    st: TaskStatus,
    samples: Seq<StatsSample>,
    playtime_us: u64,
) -> TaskStatus
    decreases samples.len(),
{
    if samples.len() == 0 {
        st
    } else {
        fold_samples(
            spec_apply_sample(st, samples[0], playtime_us),
            samples.drop_first(),
            playtime_us,
        )
    }
}

/// Folding samples without speed readings never changes the speed.
proof fn lemma_fold_speed(st: TaskStatus, samples: Seq<StatsSample>, playtime_us: u64)
    requires
        forall|i: int| 0 <= i < samples.len() ==> (#[trigger] samples[i]).speed_millionths
            is None,
    ensures
        speed_of(fold_samples(st, samples, playtime_us)) == speed_of(st),
        fold_samples(st, samples, playtime_us) is InProgress <==> st is InProgress,
    decreases samples.len(),
{
    if samples.len() == 0 {
    } else {
        assert(samples[0].speed_millionths is None);
        assert(forall|i: int|
            0 <= i < samples.drop_first().len() ==> (#[trigger] samples.drop_first()[
                i]).speed_millionths is None) by {
            assert(forall|i: int|
                0 <= i < samples.drop_first().len() ==> samples.drop_first()[i] == samples[i
                    + 1]);
        }
        lemma_fold_speed(
            spec_apply_sample(st, samples[0], playtime_us),
            samples.drop_first(),
            playtime_us,
        );
    }
}

} // verus!
