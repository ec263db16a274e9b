//! Profiling data: single events, per-operation aggregates, and session
//! reports.
//!
//! Times are carried in whole microseconds so that every aggregate is exact
//! integer arithmetic; percentages are carried in hundredths of a percent.
//! A user-facing layer may render either in any unit it likes.

use vstd::prelude::*;
use vstd::string::*;

verus! {

/// One profiled operation: what ran, on which backend, over how many
/// elements, and when it started and ended (microseconds since the Unix
/// epoch).  `context` carries the thread's profile label at the time the
/// scope opened.
pub struct OperationEvent {
    pub operation: String,
    pub backend: String,
    pub data_size: usize,
    pub start_time_us: u64,
    pub end_time_us: u64,
    pub context: Option<String>,
}

/// Mathematical image of an event: strings taken as character sequences.
pub struct EventView {
    pub operation: Seq<char>,
    pub backend: Seq<char>,
    pub data_size: usize,
    pub start_time_us: u64,
    pub end_time_us: u64,
    pub context: Option<Seq<char>>,
}

/// View of an optional label.
pub open spec fn spec_opt_str(o: Option<String>) -> Option<Seq<char>> {
    match o {
        Some(s) => Some(s@),
        None => None,
    }
}

impl View for OperationEvent {
    type V = EventView;

    open spec fn view(&self) -> EventView {
        EventView {
            operation: self.operation@,
            backend: self.backend@,
            data_size: self.data_size,
            start_time_us: self.start_time_us,
            end_time_us: self.end_time_us,
            context: spec_opt_str(self.context),
        }
    }
}

impl EventView {
    /// Time between start and end, clamped at zero should the clock have
    /// run backwards.
    pub open spec fn duration_us(self) -> u64 {
        if self.end_time_us >= self.start_time_us {
            (self.end_time_us - self.start_time_us) as u64
        } else {
            0
        }
    }

    /// Whether the event passes a context filter: no filter admits every
    /// event, a filter admits exactly the events whose context equals it.
    pub open spec fn matches_filter(self, filt: Option<Seq<char>>) -> bool {
        match filt {
            None => true,
            Some(f) => self.context == Some(f),
        }
    }
}

impl Clone for OperationEvent {
    /// Field-for-field copy.
    fn clone(&self) -> (r: Self)
        ensures
            r@ == self@,
    {
        OperationEvent {
            operation: self.operation.clone(),
            backend: self.backend.clone(),
            data_size: self.data_size,
            start_time_us: self.start_time_us,
            end_time_us: self.end_time_us,
            context: match &self.context {
                Some(c) => Some(c.clone()),
                None => None,
            },
        }
    }
}

impl OperationEvent {
    /// Duration of this operation in microseconds.
    pub fn duration_us(&self) -> (r: u64)
        ensures
            r == self@.duration_us(),
    {
        self.end_time_us.saturating_sub(self.start_time_us)
    }
}

/// Views of a sequence of events.
pub open spec fn views_of(events: Seq<OperationEvent>) -> Seq<EventView> {
    events.map_values(|e: OperationEvent| e@)
}

/// Exact sum of all durations, as a mathematical integer.
pub open spec fn spec_total_duration(events: Seq<EventView>) -> int
    decreases events.len(),
{
    if events.len() == 0 {
        0
    } else {
        spec_total_duration(events.drop_last()) + events.last().duration_us()
    }
}

/// The duration sum clamped into `u64`.
pub open spec fn spec_total_duration_sat(events: Seq<EventView>) -> u64 {
    if spec_total_duration(events) <= u64::MAX {
        spec_total_duration(events) as u64
    } else {
        u64::MAX
    }
}

/// Least duration; `u64::MAX` over no events.
pub open spec fn spec_min_duration(events: Seq<EventView>) -> u64
    decreases events.len(),
{
    if events.len() == 0 {
        u64::MAX
    } else {
        let rest = spec_min_duration(events.drop_last());
        if events.last().duration_us() < rest {
            events.last().duration_us()
        } else {
            rest
        }
    }
}

/// Greatest duration; zero over no events.
pub open spec fn spec_max_duration(events: Seq<EventView>) -> u64
    decreases events.len(),
{
    if events.len() == 0 {
        0
    } else {
        let rest = spec_max_duration(events.drop_last());
        if events.last().duration_us() > rest {
            events.last().duration_us()
        } else {
            rest
        }
    }
}

/// How many events ran on `backend`.
pub open spec fn spec_backend_count(events: Seq<EventView>, backend: Seq<char>) -> nat
    decreases events.len(),
{
    if events.len() == 0 {
        0
    } else {
        spec_backend_count(events.drop_last(), backend) + if events.last().backend == backend {
            1nat
        } else {
            0nat
        }
    }
}

/// The events that pass the filter, in their original order.
pub open spec fn spec_filtered(events: Seq<EventView>, filt: Option<Seq<char>>) -> Seq<EventView>
    decreases events.len(),
{
    if events.len() == 0 {
        Seq::<EventView>::empty()
    } else {
        spec_filtered(events.drop_last(), filt) + if events.last().matches_filter(filt) {
            seq![events.last()]
        } else {
            Seq::<EventView>::empty()
        }
    }
}

/// The events of one operation, in their original order.
pub open spec fn spec_events_of_op(events: Seq<EventView>, op: Seq<char>) -> Seq<EventView>
    decreases events.len(),
{
    if events.len() == 0 {
        Seq::<EventView>::empty()
    } else {
        spec_events_of_op(events.drop_last(), op) + if events.last().operation == op {
            seq![events.last()]
        } else {
            Seq::<EventView>::empty()
        }
    }
}

/// `backend` occurs among the events and no backend occurs more often.
pub open spec fn spec_is_mode(backend: Seq<char>, events: Seq<EventView>) -> bool {
    &&& exists|i: int| 0 <= i < events.len() && events[i].backend == backend
    &&& forall|i: int|
        0 <= i < events.len() ==> spec_backend_count(events, events[i].backend)
            <= spec_backend_count(events, backend)
}

/// Share of `total` in `grand`, in hundredths of a percent, clamped into
/// `u64`; zero when `grand` is zero.
pub open spec fn spec_percent_bp(total: int, grand: int) -> int {
    if grand > 0 {
        let p = total * 10000 / grand;
        if p <= u64::MAX {
            p
        } else {
            u64::MAX as int
        }
    } else {
        0
    }
}

proof fn lemma_total_duration_push(events: Seq<EventView>, e: EventView)
    ensures
        spec_total_duration(events.push(e)) == spec_total_duration(events) + e.duration_us(),
{
    assert(events.push(e).drop_last() =~= events);
}

proof fn lemma_total_duration_nonneg(events: Seq<EventView>)
    ensures
        spec_total_duration(events) >= 0,
    decreases events.len(),
{
    if events.len() > 0 {
        lemma_total_duration_nonneg(events.drop_last());
    }
}

proof fn lemma_min_duration_push(events: Seq<EventView>, e: EventView)
    ensures
        spec_min_duration(events.push(e)) == if e.duration_us() < spec_min_duration(events) {
            e.duration_us()
        } else {
            spec_min_duration(events)
        },
{
    assert(events.push(e).drop_last() =~= events);
}

proof fn lemma_max_duration_push(events: Seq<EventView>, e: EventView)
    ensures
        spec_max_duration(events.push(e)) == if e.duration_us() > spec_max_duration(events) {
            e.duration_us()
        } else {
            spec_max_duration(events)
        },
{
    assert(events.push(e).drop_last() =~= events);
}

proof fn lemma_backend_count_push(events: Seq<EventView>, backend: Seq<char>, e: EventView)
    ensures
        spec_backend_count(events.push(e), backend) == spec_backend_count(events, backend) + if e.backend
            == backend {
            1nat
        } else {
            0nat
        },
{
    assert(events.push(e).drop_last() =~= events);
}

proof fn lemma_backend_count_le_len(events: Seq<EventView>, backend: Seq<char>)
    ensures
        spec_backend_count(events, backend) <= events.len(),
    decreases events.len(),
{
    if events.len() > 0 {
        lemma_backend_count_le_len(events.drop_last(), backend);
    }
}

proof fn lemma_views_take_push(events: Seq<OperationEvent>, i: int)
    requires
        0 <= i < events.len(),
    ensures
        views_of(events.take(i + 1)) =~= views_of(events.take(i)).push(events[i]@),
{
}

/// Sum of the durations of `events`, saturating at `u64::MAX`.
fn total_duration_sat(events: &[OperationEvent]) -> (r: u64)
    ensures
        r == spec_total_duration_sat(views_of(events@)),
{
    let n = events.len();
    let mut acc: u64 = 0;
    let mut i: usize = 0;
    while i < n
        invariant
            i <= n == events@.len(),
            acc == spec_total_duration_sat(views_of(events@.take(i as int))),
        decreases n - i,
    {
        proof {
            lemma_views_take_push(events@, i as int);
            lemma_total_duration_push(views_of(events@.take(i as int)), events@[i as int]@);
            lemma_total_duration_nonneg(views_of(events@.take(i as int)));
        }
        let d = events[i].duration_us();
        acc = acc.saturating_add(d);
        i += 1;
    }
    proof {
        assert(events@.take(n as int) =~= events@);
    }
    acc
}

/// Least duration among `events`; `u64::MAX` if there are none.
fn min_duration(events: &[OperationEvent]) -> (r: u64)
    ensures
        r == spec_min_duration(views_of(events@)),
{
    let n = events.len();
    let mut acc: u64 = u64::MAX;
    let mut i: usize = 0;
    while i < n
        invariant
            i <= n == events@.len(),
            acc == spec_min_duration(views_of(events@.take(i as int))),
        decreases n - i,
    {
        proof {
            lemma_views_take_push(events@, i as int);
            lemma_min_duration_push(views_of(events@.take(i as int)), events@[i as int]@);
        }
        let d = events[i].duration_us();
        if d < acc {
            acc = d;
        }
        i += 1;
    }
    proof {
        assert(events@.take(n as int) =~= events@);
    }
    acc
}

/// Greatest duration among `events`; zero if there are none.
fn max_duration(events: &[OperationEvent]) -> (r: u64)
    ensures
        r == spec_max_duration(views_of(events@)),
{
    let n = events.len();
    let mut acc: u64 = 0;
    let mut i: usize = 0;
    while i < n
        invariant
            i <= n == events@.len(),
            acc == spec_max_duration(views_of(events@.take(i as int))),
        decreases n - i,
    {
        proof {
            lemma_views_take_push(events@, i as int);
            lemma_max_duration_push(views_of(events@.take(i as int)), events@[i as int]@);
        }
        let d = events[i].duration_us();
        if d > acc {
            acc = d;
        }
        i += 1;
    }
    proof {
        assert(events@.take(n as int) =~= events@);
    }
    acc
}

/// How many of `events` ran on `backend`.
fn count_backend(events: &[OperationEvent], backend: &String) -> (r: usize)
    ensures
        r == spec_backend_count(views_of(events@), backend@),
{
    let n = events.len();
    let mut acc: usize = 0;
    let mut i: usize = 0;
    while i < n
        invariant
            i <= n == events@.len(),
            acc == spec_backend_count(views_of(events@.take(i as int)), backend@),
            acc <= i,
        decreases n - i,
    {
        proof {
            lemma_views_take_push(events@, i as int);
            lemma_backend_count_push(
                views_of(events@.take(i as int)),
                backend@,
                events@[i as int]@,
            );
        }
        if events[i].backend == *backend {
            acc += 1;
        }
        i += 1;
    }
    proof {
        assert(events@.take(n as int) =~= events@);
    }
    acc
}

/// Aggregated statistics for one operation.
pub struct OperationMetrics {
    pub operation: String,
    pub count: usize,
    pub total_time_us: u64,
    pub avg_time_us: u64,
    pub min_time_us: u64,
    pub max_time_us: u64,
    pub primary_backend: String,
    pub percent_total: u64,
}

/// Everything `OperationMetrics::from_events` promises of its result:
/// the count, the saturating total, the integer average, least and
/// greatest durations, a most-common backend, and the share of
/// `grand_total_us` in hundredths of a percent.  With no events every
/// figure is zero and the backend reads "unknown".
pub open spec fn metrics_ok(
    m: OperationMetrics,
    op: Seq<char>,
    events: Seq<EventView>,
    grand_total_us: u64,
) -> bool {
    &&& m.operation@ == op
    &&& m.count == events.len()
    &&& if events.len() == 0 {
        m.total_time_us == 0 && m.avg_time_us == 0 && m.min_time_us == 0 && m.max_time_us == 0
            && m.primary_backend@ == "unknown"@ && m.percent_total == 0
    } else {
        &&& m.total_time_us == spec_total_duration_sat(events)
        &&& m.avg_time_us as int == m.total_time_us as int / events.len() as int
        &&& m.min_time_us == spec_min_duration(events)
        &&& m.max_time_us == spec_max_duration(events)
        &&& spec_is_mode(m.primary_backend@, events)
        &&& m.percent_total as int == spec_percent_bp(m.total_time_us as int, grand_total_us as int)
    }
}

impl OperationMetrics {
    /// Aggregate the given events of one operation; `grand_total_us` is the
    /// report-wide filtered total against which the share is taken.
    pub fn from_events(operation: &str, events: &[OperationEvent], grand_total_us: u64) -> (r:
        OperationMetrics)
        ensures
            metrics_ok(r, operation@, views_of(events@), grand_total_us),
    {
        let count = events.len();
        if count == 0 {
            return OperationMetrics {
                operation: String::from_str(operation),
                count: 0,
                total_time_us: 0,
                avg_time_us: 0,
                min_time_us: 0,
                max_time_us: 0,
                primary_backend: String::from_str("unknown"),
                percent_total: 0,
            };
        }
        let total = total_duration_sat(events);
        let avg = total / (count as u64);
        let min_us = min_duration(events);
        let max_us = max_duration(events);

        let mut best: usize = 0;
        let mut best_count: usize = count_backend(events, &events[0].backend);
        let mut i: usize = 1;
        while i < count
            invariant
                1 <= i <= count == events@.len(),
                best < i,
                best_count == spec_backend_count(views_of(events@), events@[best as int]@.backend),
                forall|j: int|
                    0 <= j < i ==> spec_backend_count(views_of(events@), events@[j]@.backend)
                        <= best_count,
            decreases count - i,
        {
            let c = count_backend(events, &events[i].backend);
            if c > best_count {
                best = i;
                best_count = c;
            }
            i += 1;
        }
        let primary = events[best].backend.clone();
        proof {
            let views = views_of(events@);
            assert(forall|j: int| 0 <= j < views.len() ==> views[j] == events@[j]@);
            assert(0 <= best < views.len() && views[best as int].backend == primary@);
            assert(spec_is_mode(primary@, views));
        }

        let percent: u64 = if grand_total_us > 0 {
            proof {
                assert((total as u128) * 10000 <= u128::MAX) by (nonlinear_arith)
                    requires
                        total <= u64::MAX,
                ;
            }
            let num: u128 = (total as u128) * 10000;
            let p: u128 = num / (grand_total_us as u128);
            if p > (u64::MAX as u128) {
                u64::MAX
            } else {
                p as u64
            }
        } else {
            0
        };

        OperationMetrics {
            operation: String::from_str(operation),
            count,
            total_time_us: total,
            avg_time_us: avg,
            min_time_us: min_us,
            max_time_us: max_us,
            primary_backend: primary,
            percent_total: percent,
        }
    }
}

/// View of an optional borrowed label.
pub open spec fn spec_opt_str_ref(o: Option<&str>) -> Option<Seq<char>> {
    match o {
        Some(s) => Some(s@),
        None => None,
    }
}

proof fn lemma_views_push(s: Seq<OperationEvent>, e: OperationEvent)
    ensures
        views_of(s.push(e)) =~= views_of(s).push(e@),
{
}

proof fn lemma_filtered_push(events: Seq<EventView>, filt: Option<Seq<char>>, e: EventView)
    ensures
        spec_filtered(events.push(e), filt) == spec_filtered(events, filt) + if e.matches_filter(
            filt,
        ) {
            seq![e]
        } else {
            Seq::<EventView>::empty()
        },
{
    assert(events.push(e).drop_last() =~= events);
}

proof fn lemma_events_of_op_push(events: Seq<EventView>, op: Seq<char>, e: EventView)
    ensures
        spec_events_of_op(events.push(e), op) == spec_events_of_op(events, op) + if e.operation
            == op {
            seq![e]
        } else {
            Seq::<EventView>::empty()
        },
{
    assert(events.push(e).drop_last() =~= events);
}

/// The events among `events` that pass the context filter, in order.
fn filter_events(events: &[OperationEvent], context_filter: Option<&String>) -> (r: Vec<
    OperationEvent,
>)
    ensures
        views_of(r@) == spec_filtered(views_of(events@), spec_opt_str(match context_filter {
            Some(f) => Some(*f),
            None => None,
        })),
{
    let ghost filt = spec_opt_str(match context_filter {
        Some(f) => Some(*f),
        None => None,
    });
    let n = events.len();
    let mut out: Vec<OperationEvent> = Vec::new();
    let mut i: usize = 0;
    while i < n
        invariant
            i <= n == events@.len(),
            views_of(out@) == spec_filtered(views_of(events@.take(i as int)), filt),
            filt == spec_opt_str(match context_filter {
                Some(f) => Some(*f),
                None => None,
            }),
        decreases n - i,
    {
        proof {
            lemma_views_take_push(events@, i as int);
            lemma_filtered_push(views_of(events@.take(i as int)), filt, events@[i as int]@);
        }
        let keep = match context_filter {
            None => true,
            Some(f) => match &events[i].context {
                Some(c) => *c == *f,
                None => false,
            },
        };
        if keep {
            let ghost before = out@;
            out.push(events[i].clone());
            proof {
                lemma_views_push(before, out@.last());
                assert(views_of(before).push(out@.last()@) =~= views_of(before) + seq![
                    events@[i as int]@,
                ]);
            }
        }
        i += 1;
    }
    proof {
        assert(events@.take(n as int) =~= events@);
    }
    out
}

/// The events among `events` that belong to `op`, in order.
fn collect_op(events: &[OperationEvent], op: &String) -> (r: Vec<OperationEvent>)
    ensures
        views_of(r@) == spec_events_of_op(views_of(events@), op@),
{
    let n = events.len();
    let mut out: Vec<OperationEvent> = Vec::new();
    let mut i: usize = 0;
    while i < n
        invariant
            i <= n == events@.len(),
            views_of(out@) == spec_events_of_op(views_of(events@.take(i as int)), op@),
        decreases n - i,
    {
        proof {
            lemma_views_take_push(events@, i as int);
            lemma_events_of_op_push(views_of(events@.take(i as int)), op@, events@[i as int]@);
        }
        if events[i].operation == *op {
            let ghost before = out@;
            out.push(events[i].clone());
            proof {
                lemma_views_push(before, out@.last());
                assert(views_of(before).push(out@.last()@) =~= views_of(before) + seq![
                    events@[i as int]@,
                ]);
            }
        }
        i += 1;
    }
    proof {
        assert(events@.take(n as int) =~= events@);
    }
    out
}

/// Whether some metrics entry already carries `op`.
fn contains_op(ops: &Vec<OperationMetrics>, op: &String) -> (r: bool)
    ensures
        r == op_listed(ops@, op@),
{
    let n = ops.len();
    let mut i: usize = 0;
    while i < n
        invariant
            i <= n == ops@.len(),
            forall|j: int| 0 <= j < i ==> ops@[j].operation@ != op@,
        decreases n - i,
    {
        if ops[i].operation == *op {
            return true;
        }
        i += 1;
    }
    false
}

/// Identity of one profiling session.
pub struct SessionMetadata {
    pub session_id: String,
    pub start_timestamp: String,
    pub version: String,
    pub context: Option<String>,
}

/// Aggregates over a snapshot of events, grouped by operation name.
/// `operations` carries one entry per distinct operation; entries answer
/// for their own name, so no two entries share one.
pub struct ProfileReport {
    pub metadata: SessionMetadata,
    pub operations: Vec<OperationMetrics>,
    pub total_time_us: u64,
    pub operation_count: usize,
}

/// Relies on uuid::Uuid::new_v4 and its hyphenated Display form: a fresh
/// random identifier rendered as 36 characters.  The value is random, so
/// nothing beyond its length is promised.
#[verifier::external_body]
fn new_session_id() -> (r: String)
    ensures
        r@.len() == 36,
{
    uuid::Uuid::new_v4().to_string()
}

/// Relies on chrono::Utc::now and DateTime::to_rfc3339: the current
/// wall-clock time as an RFC 3339 timestamp.  The clock decides the value,
/// so nothing is promised of it.
#[verifier::external_body]
fn now_rfc3339() -> String {
    chrono::Utc::now().to_rfc3339()
}

/// Some event in `events` belongs to `op`.
pub open spec fn op_occurs(events: Seq<EventView>, op: Seq<char>) -> bool {
    exists|idx: int| 0 <= idx < events.len() && events[idx].operation == op
}

/// Some metrics entry in `ops` carries `op`.
pub open spec fn op_listed(ops: Seq<OperationMetrics>, op: Seq<char>) -> bool {
    exists|a: int| 0 <= a < ops.len() && ops[a].operation@ == op
}

/// The grouping, totals and shares that `ProfileReport::from_events`
/// promises, stated against the filtered event views `fviews`: no two
/// entries share an operation name, every entry aggregates exactly that
/// operation's filtered events against the filtered total, and the entries
/// name exactly the operations that occur.
pub open spec fn report_ok(r: ProfileReport, fviews: Seq<EventView>) -> bool {
    &&& r.total_time_us == spec_total_duration_sat(fviews)
    &&& r.operation_count == r.operations@.len()
    &&& forall|a: int, b: int|
        0 <= a < b < r.operations@.len() ==> r.operations@[a].operation@
            != r.operations@[b].operation@
    &&& forall|a: int|
        0 <= a < r.operations@.len() ==> metrics_ok(
            #[trigger] r.operations@[a],
            r.operations@[a].operation@,
            spec_events_of_op(fviews, r.operations@[a].operation@),
            r.total_time_us,
        )
    &&& forall|a: int|
        0 <= a < r.operations@.len() ==> op_occurs(fviews, (#[trigger] r.operations@[a]).operation@)
    &&& forall|idx: int|
        0 <= idx < fviews.len() ==> op_listed(r.operations@, (#[trigger] fviews[idx]).operation)
}

impl ProfileReport {
    /// An empty report carrying only session metadata.
    pub fn new(session_id: String, context: Option<String>) -> (r: Self)
        ensures
            r.operations@.len() == 0,
            r.total_time_us == 0,
            r.operation_count == 0,
            r.metadata.session_id@ == session_id@,
            r.metadata.version@ == "0.1.0"@,
            spec_opt_str(r.metadata.context) == spec_opt_str(context),
    {
        ProfileReport {
            metadata: SessionMetadata {
                session_id,
                start_timestamp: now_rfc3339(),
                version: String::from_str("0.1.0"),
                context,
            },
            operations: Vec::new(),
            total_time_us: 0,
            operation_count: 0,
        }
    }

    /// Build a report over the events that pass `context_filter`: their
    /// saturating total time, and one aggregate per distinct operation,
    /// each taken against that filtered total.
    pub fn from_events(events: &[OperationEvent], context_filter: Option<&str>) -> (r: Self)
        ensures
            report_ok(r, spec_filtered(views_of(events@), spec_opt_str_ref(context_filter))),
            spec_opt_str(r.metadata.context) == spec_opt_str_ref(context_filter),
            r.metadata.version@ == "0.1.0"@,
    {
        let filt_string: Option<String> = match context_filter {
            Some(f) => Some(String::from_str(f)),
            None => None,
        };
        let filtered = filter_events(events, filt_string.as_ref());
        let ghost fviews = views_of(filtered@);
        let grand = total_duration_sat(filtered.as_slice());

        let flen = filtered.len();
        let mut ops_out: Vec<OperationMetrics> = Vec::new();
        let mut i: usize = 0;
        while i < flen
            invariant
                i <= flen == filtered@.len(),
                fviews == views_of(filtered@),
                grand == spec_total_duration_sat(fviews),
                forall|a: int, b: int|
                    0 <= a < b < ops_out@.len() ==> ops_out@[a].operation@
                        != ops_out@[b].operation@,
                forall|a: int|
                    0 <= a < ops_out@.len() ==> metrics_ok(
                        #[trigger] ops_out@[a],
                        ops_out@[a].operation@,
                        spec_events_of_op(fviews, ops_out@[a].operation@),
                        grand,
                    ),
                forall|a: int|
                    0 <= a < ops_out@.len() ==> op_occurs(
                        fviews,
                        (#[trigger] ops_out@[a]).operation@,
                    ),
                forall|idx: int|
                    0 <= idx < i ==> op_listed(ops_out@, (#[trigger] fviews[idx]).operation),
            decreases flen - i,
        {
            proof {
                assert(fviews[i as int] == filtered@[i as int]@);
            }
            if !contains_op(&ops_out, &filtered[i].operation) {
                let op_events = collect_op(filtered.as_slice(), &filtered[i].operation);
                let m = OperationMetrics::from_events(
                    filtered[i].operation.as_str(),
                    op_events.as_slice(),
                    grand,
                );
                let ghost prev_ops = ops_out@;
                ops_out.push(m);
                proof {
                    assert(forall|a: int|
                        0 <= a < prev_ops.len() ==> ops_out@[a] == prev_ops[a]);
                    assert(ops_out@[prev_ops.len() as int].operation@ == fviews[i as int].operation);
                    assert forall|idx: int| 0 <= idx <= i implies op_listed(
                        ops_out@,
                        fviews[idx].operation,
                    ) by {
                        if idx < i {
                            let a = choose|a: int|
                                0 <= a < prev_ops.len() && prev_ops[a].operation@
                                    == fviews[idx].operation;
                            assert(ops_out@[a].operation@ == fviews[idx].operation);
                        } else {
                            assert(ops_out@[prev_ops.len() as int].operation@
                                == fviews[idx].operation);
                        }
                    }
                }
            } else {
                proof {
                    assert(op_listed(ops_out@, fviews[i as int].operation));
                }
            }
            i += 1;
        }

        let operation_count = ops_out.len();
        ProfileReport {
            metadata: SessionMetadata {
                session_id: new_session_id(),
                start_timestamp: now_rfc3339(),
                version: String::from_str("0.1.0"),
                context: filt_string,
            },
            operations: ops_out,
            total_time_us: grand,
            operation_count,
        }
    }

    /// The metrics entry recorded under `name`, if any.
    pub fn get_operation(&self, name: &str) -> (r: Option<&OperationMetrics>)
        ensures
            match r {
                Some(m) => exists|j: int|
                    0 <= j < self.operations@.len() && *m == self.operations@[j] && m.operation@
                        == name@,
                None => forall|j: int|
                    0 <= j < self.operations@.len() ==> self.operations@[j].operation@ != name@,
            },
    {
        let n = self.operations.len();
        let mut i: usize = 0;
        while i < n
            invariant
                i <= n == self.operations@.len(),
                forall|j: int| 0 <= j < i ==> self.operations@[j].operation@ != name@,
            decreases n - i,
        {
            let candidate = &self.operations[i];
            let matches_name = {
                let cand_str: &str = candidate.operation.as_str();
                str_eq(cand_str, name)
            };
            if matches_name {
                return Some(candidate);
            }
            i += 1;
        }
        None
    }
}

/// A context filter admits exactly its own events: everything in the
/// filtered sequence carries the filter's label, and the absent filter
/// keeps the whole sequence.
pub proof fn lemma_filter_semantics(events: Seq<EventView>, f: Seq<char>)
    ensures
        forall|i: int|
            0 <= i < spec_filtered(events, Some(f)).len() ==> (#[trigger] spec_filtered(
                events,
                Some(f),
            )[i]).context == Some(f),
        spec_filtered(events, None) =~= events,
    decreases events.len(),
{
    if events.len() > 0 {
        lemma_filter_semantics(events.drop_last(), f);
    }
}

/// How many entries of `ops` equal `name`.
pub open spec fn spec_count_name(ops: Seq<Seq<char>>, name: Seq<char>) -> nat
    decreases ops.len(),
{
    if ops.len() == 0 {
        0
    } else {
        spec_count_name(ops.drop_last(), name) + if ops.last() == name {
            1nat
        } else {
            0nat
        }
    }
}

/// Exact per-operation totals, summed over a list of operation names.
pub open spec fn spec_sum_op_totals(events: Seq<EventView>, ops: Seq<Seq<char>>) -> int
    decreases ops.len(),
{
    if ops.len() == 0 {
        0
    } else {
        spec_sum_op_totals(events, ops.drop_last()) + spec_total_duration(
            spec_events_of_op(events, ops.last()),
        )
    }
}

proof fn lemma_events_of_op_empty(ops: Seq<Seq<char>>)
    ensures
        spec_sum_op_totals(Seq::<EventView>::empty(), ops) == 0,
    decreases ops.len(),
{
    if ops.len() > 0 {
        lemma_events_of_op_empty(ops.drop_last());
    }
}

proof fn lemma_sum_op_totals_push(events: Seq<EventView>, e: EventView, ops: Seq<Seq<char>>)
    ensures
        spec_sum_op_totals(events.push(e), ops) == spec_sum_op_totals(events, ops)
            + spec_count_name(ops, e.operation) * e.duration_us(),
    decreases ops.len(),
{
    if ops.len() == 0 {
        assert(spec_sum_op_totals(events.push(e), ops) == 0);
        assert(spec_sum_op_totals(events, ops) == 0);
        assert(spec_count_name(ops, e.operation) == 0);
        assert(spec_count_name(ops, e.operation) * e.duration_us() == 0);
    } else {
        lemma_sum_op_totals_push(events, e, ops.drop_last());
        lemma_events_of_op_push(events, ops.last(), e);
        let c = spec_count_name(ops.drop_last(), e.operation);
        let d = e.duration_us();
        assert(spec_sum_op_totals(events.push(e), ops) == spec_sum_op_totals(
            events.push(e),
            ops.drop_last(),
        ) + spec_total_duration(spec_events_of_op(events.push(e), ops.last())));
        if e.operation == ops.last() {
            assert(spec_events_of_op(events.push(e), ops.last()) =~= spec_events_of_op(
                events,
                ops.last(),
            ).push(e));
            lemma_total_duration_push(spec_events_of_op(events, ops.last()), e);
            assert(spec_count_name(ops, e.operation) == c + 1nat);
            assert((c + 1nat) * d == c * d + d) by (nonlinear_arith);
            assert(spec_sum_op_totals(events.push(e), ops) == spec_sum_op_totals(events, ops)
                + spec_count_name(ops, e.operation) * d);
        } else {
            assert(spec_events_of_op(events.push(e), ops.last()) =~= spec_events_of_op(
                events,
                ops.last(),
            ));
            assert(spec_count_name(ops, e.operation) == c);
            assert(spec_sum_op_totals(events.push(e), ops) == spec_sum_op_totals(events, ops)
                + spec_count_name(ops, e.operation) * d);
        }
    }
}

/// Cut into per-operation buckets by a list of names that carries each
/// event's operation exactly once, the bucket totals sum to the total of
/// the whole: a data-parallel accounting invariant for reports.
pub proof fn lemma_op_totals_partition(events: Seq<EventView>, ops: Seq<Seq<char>>)
    requires
        forall|idx: int|
            0 <= idx < events.len() ==> spec_count_name(
                ops,
                (#[trigger] events[idx]).operation,
            ) == 1,
    ensures
        spec_sum_op_totals(events, ops) == spec_total_duration(events),
    decreases events.len(),
{
    if events.len() == 0 {
        assert(events =~= Seq::<EventView>::empty());
        lemma_events_of_op_empty(ops);
    } else {
        let e = events.last();
        let rest = events.drop_last();
        assert(rest.push(e) =~= events);
        lemma_op_totals_partition(rest, ops);
        lemma_sum_op_totals_push(rest, e, ops);
    }
}

proof fn lemma_not_listed_count_zero(ops: Seq<Seq<char>>, name: Seq<char>)
    requires
        forall|a: int| 0 <= a < ops.len() ==> ops[a] != name,
    ensures
        spec_count_name(ops, name) == 0,
    decreases ops.len(),
{
    if ops.len() > 0 {
        lemma_not_listed_count_zero(ops.drop_last(), name);
    }
}

proof fn lemma_distinct_listed_count_one(ops: Seq<Seq<char>>, name: Seq<char>)
    requires
        forall|a: int, b: int| 0 <= a < b < ops.len() ==> ops[a] != ops[b],
        exists|a: int| 0 <= a < ops.len() && ops[a] == name,
    ensures
        spec_count_name(ops, name) == 1,
    decreases ops.len(),
{
    if ops.last() == name {
        assert(forall|a: int| 0 <= a < ops.drop_last().len() ==> ops.drop_last()[a] != name);
        lemma_not_listed_count_zero(ops.drop_last(), name);
    } else {
        let a = choose|a: int| 0 <= a < ops.len() && ops[a] == name;
        assert(a < ops.len() - 1);
        assert(ops.drop_last()[a] == name);
        lemma_distinct_listed_count_one(ops.drop_last(), name);
    }
}

/// The operation names of a report's entries, in order.
pub open spec fn spec_op_names(ops: Seq<OperationMetrics>) -> Seq<Seq<char>> {
    ops.map_values(|m: OperationMetrics| m.operation@)
}

/// A report accounts for all of its filtered time: the exact per-operation
/// totals, summed over the report's distinct operations, equal the exact
/// total over the filtered events.  Each entry's share is taken against
/// that same total, so the shares of an unfiltered report stand for all of
/// it (100%).
pub proof fn lemma_report_accounts_for_total(r: ProfileReport, fviews: Seq<EventView>)
    requires
        report_ok(r, fviews),
    ensures
        spec_sum_op_totals(fviews, spec_op_names(r.operations@)) == spec_total_duration(fviews),
{
    let names = spec_op_names(r.operations@);
    assert forall|idx: int| 0 <= idx < fviews.len() implies spec_count_name(
        names,
        (#[trigger] fviews[idx]).operation,
    ) == 1 by {
        assert(op_listed(r.operations@, fviews[idx].operation));
        let a = choose|a: int|
            0 <= a < r.operations@.len() && r.operations@[a].operation@ == fviews[idx].operation;
        assert(names[a] == fviews[idx].operation);
        assert(forall|x: int, y: int| 0 <= x < y < names.len() ==> names[x] != names[y]);
        lemma_distinct_listed_count_one(names, fviews[idx].operation);
    }
    lemma_op_totals_partition(fviews, names);
}

/// Relies on str's PartialEq: equality of the two character sequences.
#[verifier::external_body]
fn str_eq(a: &str, b: &str) -> (r: bool)
    ensures
        r == (a@ == b@),
{
    a == b
}

} // verus!
