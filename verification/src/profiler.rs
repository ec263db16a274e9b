//! Process profiler: toggleable event recording with on-demand reports.
//!
//! The profiler starts disabled.  Recording calls are present on the
//! operation path either way, but while disabled the event is discarded
//! rather than stored.  Reports aggregate a snapshot of the stored events.

use crate::metrics::{
    report_ok, spec_filtered, spec_opt_str, spec_opt_str_ref, views_of, EventView, OperationEvent,
    ProfileReport,
};
use vstd::prelude::*;

verus! {

/// Relies on std::time::SystemTime::now and duration_since(UNIX_EPOCH):
/// the current wall-clock time in whole microseconds since the Unix epoch,
/// zero should the clock stand before the epoch.  The clock decides the
/// value, so nothing is promised of it.
#[verifier::external_body]
pub fn now_micros() -> u64 {
    match std::time::SystemTime::now().duration_since(std::time::UNIX_EPOCH) {
        Ok(d) => d.as_micros() as u64,
        Err(_) => 0,
    }
}

/// Event recorder with an on/off switch; off is the initial state.
pub struct Profiler {
    enabled: bool,
    events: Vec<OperationEvent>,
}

impl Profiler {
    /// Whether recording is on.
    pub closed spec fn spec_enabled(&self) -> bool {
        self.enabled
    }

    /// The events recorded so far, in order.
    pub closed spec fn spec_events(&self) -> Seq<EventView> {
        views_of(self.events@)
    }

    /// A fresh profiler: disabled, with no events.
    pub fn new() -> (p: Self)
        ensures
            !p.spec_enabled(),
            p.spec_events().len() == 0,
    {
        Profiler { enabled: false, events: Vec::new() }
    }

    /// Switch recording on; stored events stay as they are.
    pub fn enable(&mut self)
        ensures
            final(self).spec_enabled(),
            final(self).spec_events() == old(self).spec_events(),
    {
        self.enabled = true;
    }

    /// Switch recording off; stored events stay as they are.
    pub fn disable(&mut self)
        ensures
            !final(self).spec_enabled(),
            final(self).spec_events() == old(self).spec_events(),
    {
        self.enabled = false;
    }

    /// Whether recording is on.
    pub fn is_enabled(&self) -> (r: bool)
        ensures
            r == self.spec_enabled(),
    {
        self.enabled
    }

    /// Store one event while enabled; while disabled, store nothing and
    /// leave the event store untouched.
    pub fn record_operation(
        &mut self,
        operation: String,
        backend: String,
        data_size: usize,
        start_time_us: u64,
        end_time_us: u64,
        context: Option<String>,
    )
        ensures
            final(self).spec_enabled() == old(self).spec_enabled(),
            !old(self).spec_enabled() ==> final(self).spec_events() == old(self).spec_events(),
            old(self).spec_enabled() ==> final(self).spec_events() == old(
                self,
            ).spec_events().push(
                (EventView {
                    operation: operation@,
                    backend: backend@,
                    data_size,
                    start_time_us,
                    end_time_us,
                    context: spec_opt_str(context),
                }),
            ),
    {
        if !self.enabled {
            return ;
        }
        let event = OperationEvent {
            operation,
            backend,
            data_size,
            start_time_us,
            end_time_us,
            context,
        };
        let ghost before = self.events@;
        let ghost ev = event@;
        self.events.push(event);
        proof {
            assert(views_of(before.push(event)) =~= views_of(before).push(ev));
        }
    }

    /// Drop every stored event; the enabled flag is untouched.
    pub fn clear(&mut self)
        ensures
            final(self).spec_enabled() == old(self).spec_enabled(),
            final(self).spec_events().len() == 0,
    {
        self.events.clear();
    }

    /// How many events are stored.
    pub fn event_count(&self) -> (r: usize)
        ensures
            r == self.spec_events().len(),
    {
        self.events.len()
    }

    /// A copy of the stored events, in order.
    pub fn get_events(&self) -> (r: Vec<OperationEvent>)
        ensures
            views_of(r@) == self.spec_events(),
    {
        let n = self.events.len();
        let mut out: Vec<OperationEvent> = Vec::new();
        let mut i: usize = 0;
        while i < n
            invariant
                i <= n == self.events@.len(),
                views_of(out@) =~= views_of(self.events@.take(i as int)),
            decreases n - i,
        {
            let ghost before = out@;
            out.push(self.events[i].clone());
            proof {
                assert(views_of(before.push(out@.last())) =~= views_of(before).push(out@.last()@));
                assert(views_of(self.events@.take(i + 1)) =~= views_of(
                    self.events@.take(i as int),
                ).push(self.events@[i as int]@));
            }
            i += 1;
        }
        proof {
            assert(self.events@.take(n as int) =~= self.events@);
        }
        out
    }

    /// Aggregate a snapshot of the stored events, keeping only those whose
    /// context equals `context_filter` when one is given.
    pub fn generate_report(&self, context_filter: Option<&str>) -> (r: ProfileReport)
        ensures
            report_ok(r, spec_filtered(self.spec_events(), spec_opt_str_ref(context_filter))),
            spec_opt_str(r.metadata.context) == spec_opt_str_ref(context_filter),
    {
        ProfileReport::from_events(self.events.as_slice(), context_filter)
    }
}

impl Default for Profiler {
    /// Same as `Profiler::new`: disabled, with no events.
    fn default() -> (p: Self)
        ensures
            !p.spec_enabled(),
            p.spec_events().len() == 0,
    {
        Profiler::new()
    }
}

/// A per-worker label that tags subsequently opened profile scopes.  Each
/// worker passes its own context, so labels never race across workers.
pub struct ProfileContext {
    label: Option<String>,
}

impl ProfileContext {
    /// The current label.
    pub closed spec fn spec_label(&self) -> Option<Seq<char>> {
        spec_opt_str(self.label)
    }

    /// A fresh context with no label.
    pub fn new() -> (c: Self)
        ensures
            c.spec_label() is None,
    {
        ProfileContext { label: None }
    }
}

/// Set the worker's label; scopes already open keep the label they took.
pub fn set_context(ctx: &mut ProfileContext, context: Option<String>)
    ensures
        final(ctx).spec_label() == spec_opt_str(context),
{
    ctx.label = context;
}

/// Read the worker's label.
pub fn get_context(ctx: &ProfileContext) -> (r: Option<String>)
    ensures
        spec_opt_str(r) == ctx.spec_label(),
{
    match &ctx.label {
        Some(s) => Some(s.clone()),
        None => None,
    }
}

/// An open measurement.  Opening captures the operation's identity, the
/// worker's current context label and the clock; `finish` closes it and
/// submits the event, so a caller that routes every exit path through
/// `finish` gets the record on every one of them.
pub struct ProfileScope {
    pub operation: String,
    pub backend: String,
    pub data_size: usize,
    pub start_time_us: u64,
    pub context: Option<String>,
}

impl ProfileScope {
    /// Open a scope over one operation.
    pub fn new(operation: String, backend: String, data_size: usize, ctx: &ProfileContext) -> (s:
        Self)
        ensures
            s.operation@ == operation@,
            s.backend@ == backend@,
            s.data_size == data_size,
            spec_opt_str(s.context) == ctx.spec_label(),
    {
        let context = get_context(ctx);
        let start_time_us = now_micros();
        ProfileScope { operation, backend, data_size, start_time_us, context }
    }

    /// Close the scope: take the end time and submit the event.  While the
    /// profiler is disabled the event is computed and discarded, so the
    /// store is untouched; while enabled exactly one event is appended,
    /// carrying the scope's identity and start time.
    pub fn finish(self, profiler: &mut Profiler)
        ensures
            final(profiler).spec_enabled() == old(profiler).spec_enabled(),
            !old(profiler).spec_enabled() ==> final(profiler).spec_events() == old(
                profiler,
            ).spec_events(),
            old(profiler).spec_enabled() ==> {
                let evs = final(profiler).spec_events();
                &&& evs.len() == old(profiler).spec_events().len() + 1
                &&& evs.drop_last() == old(profiler).spec_events()
                &&& evs.last().operation == self.operation@
                &&& evs.last().backend == self.backend@
                &&& evs.last().data_size == self.data_size
                &&& evs.last().start_time_us == self.start_time_us
                &&& evs.last().context == spec_opt_str(self.context)
            },
    {
        let end_time_us = now_micros();
        let ghost prior = profiler.spec_events();
        profiler.record_operation(
            self.operation,
            self.backend,
            self.data_size,
            self.start_time_us,
            end_time_us,
            self.context,
        );
        proof {
            if old(profiler).spec_enabled() {
                assert(profiler.spec_events().drop_last() =~= prior);
            }
        }
    }
}

} // verus!
