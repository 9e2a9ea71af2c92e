//! The sweep controller: sequences one probe per candidate address in
//! ascending order, spaces the probes, records each outcome, and builds
//! the final report, emitting one event per step for any observer.

use vstd::prelude::*;

use crate::configuration::ScanConfig;
use crate::configuration::valid_scan_config;
use crate::modbus_scanner::ScanResult;
use crate::modbus_scanner::spec_is_responder;
use crate::modbus_scanner::spec_values;

verus! {

/// What a finished (or cancelled) sweep hands back: the responding
/// addresses with the values each returned, in ascending address order,
/// and how many candidates were probed.
#[derive(Clone, Debug, PartialEq)]
pub struct ScanReport {
    pub responding: Vec<(u8, Vec<u16>)>,
    pub total_probed: u64,
}

/// One step of the sweep, as an observer sees it: a candidate is being
/// probed, a candidate responded (with its first value and the probe's
/// elapsed time), or the sweep completed with its report.
#[derive(Clone, Debug, PartialEq)]
pub enum ScanEvent {
    ProbingAddress(u8),
    Responded(u8, u16, u128),
    Completed(ScanReport),
}

/// The responder list a sweep starting at `start` owes after the probe
/// outcomes `outcomes`, one outcome per address in ascending order:
/// exactly the probes that carried data, each under its address.
pub open spec fn responders_of(start: int, outcomes: Seq<ScanResult>) -> Seq<(u8, Seq<u16>)>
    decreases outcomes.len(),
{
    if outcomes.len() == 0 {
        Seq::empty()
    } else {
        let prior = responders_of(start, outcomes.drop_last());
        if spec_is_responder(outcomes.last()) {
            prior.push((((start + outcomes.len() - 1) as u8), spec_values(outcomes.last())))
        } else {
            prior
        }
    }
}

/// The events one probe contributes to the stream: its probing event,
/// then a responded event exactly when it carried data.
pub open spec fn probe_trace(addr: u8, r: ScanResult) -> Seq<ScanEvent> {
    if spec_is_responder(r) {
        seq![
            ScanEvent::ProbingAddress(addr),
            ScanEvent::Responded(addr, spec_values(r)[0], r.response_time_ms),
        ]
    } else {
        seq![ScanEvent::ProbingAddress(addr)]
    }
}

/// The whole event stream of a sweep starting at `start` over the probe
/// outcomes `outcomes`, before the completion event.
pub open spec fn trace_of(start: int, outcomes: Seq<ScanResult>) -> Seq<ScanEvent>
    decreases outcomes.len(),
{
    if outcomes.len() == 0 {
        Seq::empty()
    } else {
        trace_of(start, outcomes.drop_last()) + probe_trace(
            ((start + outcomes.len() - 1) as u8),
            outcomes.last(),
        )
    }
}

/// The responder pairs of a report, with the value vectors abstracted to
/// sequences.
pub open spec fn pairs_view(v: Seq<(u8, Vec<u16>)>) -> Seq<(u8, Seq<u16>)> {
    v.map_values(|p: (u8, Vec<u16>)| (p.0, p.1@))
}

/// A report is the one owed by a sweep from `start` over `outcomes`: its
/// responder list is exactly `responders_of` and its probe count is the
/// number of outcomes.
pub open spec fn report_matches(r: ScanReport, start: int, outcomes: Seq<ScanResult>) -> bool {
    &&& pairs_view(r.responding@) == responders_of(start, outcomes)
    &&& r.total_probed == outcomes.len()
}

/// Element-for-element copy of one probe's value vector.
fn copy_values(v: &Vec<u16>) -> (r: Vec<u16>)
    ensures
        r@ == v@,
{
    let mut r: Vec<u16> = Vec::new();
    let mut i: usize = 0;
    while i < v.len()
        invariant
            i <= v.len(),
            r@ == v@.subrange(0, i as int),
        decreases v.len() - i,
    {
        r.push(v[i]);
        i = i + 1;
        proof {
            assert(r@ =~= v@.subrange(0, i as int));
        }
    }
    proof {
        assert(r@ =~= v@);
    }
    r
}

/// Element-for-element copy of a responder list.
fn copy_pairs(v: &Vec<(u8, Vec<u16>)>) -> (r: Vec<(u8, Vec<u16>)>)
    ensures
        pairs_view(r@) == pairs_view(v@),
        r@.len() == v@.len(),
{
    let mut r: Vec<(u8, Vec<u16>)> = Vec::new();
    let mut i: usize = 0;
    while i < v.len()
        invariant
            i <= v.len(),
            r@.len() == i,
            forall|j: int|
                0 <= j < i ==> r@[j].0 == v@[j].0 && r@[j].1@ == v@[j].1@,
        decreases v.len() - i,
    {
        let entry = &v[i];
        let values = copy_values(&entry.1);
        r.push((entry.0, values));
        i = i + 1;
    }
    proof {
        assert(pairs_view(r@) =~= pairs_view(v@));
    }
    r
}

/// The sweep controller. It walks the configured address range in
/// ascending order, exactly one probe in flight at a time: the caller
/// asks for the next address with `begin_probe`, performs the one timed
/// read, hands the outcome to `record_outcome`, waits the returned
/// settling delay, and repeats; `finish` (at the end of the range, or
/// early on cancellation) closes the stream and yields the report.
pub struct SweepController {
    start_id: u8,
    end_id: u8,
    test_register: u16,
    register_count: u16,
    scan_delay_ms: u64,
    probed: u8,
    awaiting: bool,
    finished: bool,
    responding: Vec<(u8, Vec<u16>)>,
    events: Vec<ScanEvent>,
    history: Ghost<Seq<ScanResult>>,
}

impl SweepController {
    /// First address of the range.
    pub closed spec fn start(self) -> u8 {
        self.start_id
    }

    /// Last address of the range.
    pub closed spec fn end(self) -> u8 {
        self.end_id
    }

    /// Register each probe reads.
    pub closed spec fn register(self) -> u16 {
        self.test_register
    }

    /// How many registers each probe reads.
    pub closed spec fn count(self) -> u16 {
        self.register_count
    }

    /// Settling delay owed between probes, in milliseconds.
    pub closed spec fn delay_ms(self) -> u64 {
        self.scan_delay_ms
    }

    /// The probe outcomes recorded so far, in address order.
    pub closed spec fn outcomes(self) -> Seq<ScanResult> {
        self.history@
    }

    /// The event stream emitted so far.
    pub closed spec fn trace(self) -> Seq<ScanEvent> {
        self.events@
    }

    /// A probe is in flight: an address was handed out and its outcome
    /// is still owed.
    pub closed spec fn in_probe(self) -> bool {
        self.awaiting
    }

    /// The sweep has been closed.
    pub closed spec fn is_finished(self) -> bool {
        self.finished
    }

    /// Number of candidate addresses in the range.
    pub open spec fn span(self) -> int {
        self.end() - self.start() + 1
    }

    /// Both controllers run the same sweep parameters.
    pub open spec fn same_sweep(self, other: Self) -> bool {
        &&& self.start() == other.start()
        &&& self.end() == other.end()
        &&& self.register() == other.register()
        &&& self.count() == other.count()
        &&& self.delay_ms() == other.delay_ms()
    }

    /// The event stream an unfinished sweep shows: the full trace of the
    /// recorded outcomes, plus the probing event of the in-flight probe.
    closed spec fn live_trace(self) -> Seq<ScanEvent> {
        trace_of(self.start_id as int, self.history@) + (if self.awaiting {
            seq![ScanEvent::ProbingAddress(((self.start_id + self.history@.len()) as u8))]
        } else {
            Seq::<ScanEvent>::empty()
        })
    }

    /// Internal consistency: the range is the validated one, the
    /// responder list and the event stream are exactly the ones owed for
    /// the recorded outcomes, and a closed stream ends in a completion
    /// event carrying the owed report.
    pub closed spec fn wf(self) -> bool {
        &&& 1 <= self.start_id
        &&& self.start_id <= self.end_id
        &&& self.end_id <= 247
        &&& self.probed == self.history@.len()
        &&& self.history@.len() <= self.end_id - self.start_id + 1
        &&& pairs_view(self.responding@) == responders_of(self.start_id as int, self.history@)
        &&& (self.awaiting ==> !self.finished)
        &&& (self.awaiting ==> self.history@.len() < self.end_id - self.start_id + 1)
        &&& (!self.finished ==> self.events@ == self.live_trace())
        &&& (self.finished ==> !self.awaiting)
        &&& (self.finished ==> self.events@.len() == trace_of(self.start_id as int, self.history@).len()
            + 1)
        &&& (self.finished ==> self.events@.drop_last() == trace_of(
            self.start_id as int,
            self.history@,
        ))
        &&& (self.finished ==> (self.events@.last() matches ScanEvent::Completed(r)
            && report_matches(r, self.start_id as int, self.history@)))
    }

    /// A sweep over the validated range of `scan`, not yet started.
    pub fn new(scan: &ScanConfig) -> (s: Self)
        requires
            valid_scan_config(*scan),
        ensures
            s.wf(),
            s.start() == scan.scan_id@[0],
            s.end() == scan.scan_id@[1],
            s.register() == scan.test_register,
            s.count() == scan.register_count,
            s.delay_ms() == scan.scan_delay_ms,
            s.outcomes() == Seq::<ScanResult>::empty(),
            s.trace() == Seq::<ScanEvent>::empty(),
            !s.in_probe(),
            !s.is_finished(),
    {
        let s = SweepController {
            start_id: scan.scan_id[0],
            end_id: scan.scan_id[1],
            test_register: scan.test_register,
            register_count: scan.register_count,
            scan_delay_ms: scan.scan_delay_ms,
            probed: 0,
            awaiting: false,
            finished: false,
            responding: Vec::new(),
            events: Vec::new(),
            history: Ghost(Seq::empty()),
        };
        proof {
            assert(pairs_view(s.responding@) =~= responders_of(s.start_id as int, s.history@));
            assert(s.events@ =~= s.live_trace());
        }
        s
    }

    /// Hand out the next address to probe, in ascending order, and emit
    /// its probing event; `None` once every address in the range has
    /// been probed.
    pub fn begin_probe(&mut self) -> (r: Option<u8>)
        requires
            old(self).wf(),
            !old(self).in_probe(),
            !old(self).is_finished(),
        ensures
            final(self).wf(),
            final(self).same_sweep(*old(self)),
            final(self).outcomes() == old(self).outcomes(),
            !final(self).is_finished(),
            old(self).outcomes().len() < old(self).span() ==> {
                &&& r == Option::Some(((old(self).start() + old(self).outcomes().len()) as u8))
                &&& final(self).in_probe()
                &&& final(self).trace() == old(self).trace().push(
                    ScanEvent::ProbingAddress(((old(self).start() + old(self).outcomes().len()) as u8)),
                )
            },
            old(self).outcomes().len() >= old(self).span() ==> {
                &&& r is None
                &&& !final(self).in_probe()
                &&& final(self).trace() == old(self).trace()
            },
    {
        if self.probed >= self.end_id - self.start_id + 1 {
            return Option::None;
        }
        let addr: u8 = self.start_id + self.probed;
        self.events.push(ScanEvent::ProbingAddress(addr));
        self.awaiting = true;
        proof {
            assert(self.events@ =~= self.live_trace());
        }
        Option::Some(addr)
    }

    /// Record the outcome of the in-flight probe: a responding probe is
    /// appended to the responder list and announced with a responded
    /// event; any other outcome leaves no mark beyond the probe count.
    /// Returns the settling delay the caller owes the bus before the
    /// next probe.
    pub fn record_outcome(&mut self, outcome: ScanResult) -> (d: u64)
        requires
            old(self).wf(),
            old(self).in_probe(),
        ensures
            final(self).wf(),
            final(self).same_sweep(*old(self)),
            !final(self).in_probe(),
            !final(self).is_finished(),
            d == old(self).delay_ms(),
            final(self).outcomes() == old(self).outcomes().push(outcome),
            final(self).trace() == old(self).trace() + (if spec_is_responder(outcome) {
                seq![
                    ScanEvent::Responded(
                        ((old(self).start() + old(self).outcomes().len()) as u8),
                        spec_values(outcome)[0],
                        outcome.response_time_ms,
                    ),
                ]
            } else {
                Seq::<ScanEvent>::empty()
            }),
    {
        let ghost o = outcome;
        let ghost prev = self.history@;
        let addr: u8 = self.start_id + self.probed;
        let ScanResult { success, response_data, response_time_ms } = outcome;
        if success {
            if let Option::Some(values) = response_data {
                if values.len() > 0 {
                    let first: u16 = values[0];
                    self.events.push(ScanEvent::Responded(addr, first, response_time_ms));
                    self.responding.push((addr, values));
                }
            }
        }
        self.probed = self.probed + 1;
        self.awaiting = false;
        self.history = Ghost(prev.push(o));
        proof {
            let start = self.start_id as int;
            let h = self.history@;
            assert(h.drop_last() =~= prev);
            assert(h.last() == o);
            assert(pairs_view(self.responding@) =~= responders_of(start, h));
            assert(self.events@ =~= trace_of(start, h));
            assert(self.events@ =~= self.live_trace());
        }
        self.scan_delay_ms
    }

    /// Close the sweep — after the last address, or early when the
    /// caller cancels between probes — emit the completion event, and
    /// hand back the report of everything recorded so far.
    pub fn finish(&mut self) -> (rep: ScanReport)
        requires
            old(self).wf(),
            !old(self).in_probe(),
            !old(self).is_finished(),
        ensures
            final(self).wf(),
            final(self).same_sweep(*old(self)),
            final(self).is_finished(),
            final(self).outcomes() == old(self).outcomes(),
            report_matches(rep, old(self).start() as int, old(self).outcomes()),
            final(self).trace().len() == old(self).trace().len() + 1,
            final(self).trace().drop_last() == old(self).trace(),
            (final(self).trace().last() matches ScanEvent::Completed(r) && report_matches(
                r,
                old(self).start() as int,
                old(self).outcomes(),
            )),
    {
        let total: u64 = self.probed as u64;
        let for_event = ScanReport { responding: copy_pairs(&self.responding), total_probed: total };
        self.events.push(ScanEvent::Completed(for_event));
        self.finished = true;
        proof {
            assert(self.events@.drop_last() =~= trace_of(self.start_id as int, self.history@));
        }
        ScanReport { responding: copy_pairs(&self.responding), total_probed: total }
    }

    /// The events emitted so far, oldest first.
    pub fn events(&self) -> (e: &Vec<ScanEvent>)
        ensures
            e@ == self.trace(),
    {
        &self.events
    }

    /// Bounds every well-formed controller keeps: the range is the
    /// validated one and never more outcomes are recorded than it has
    /// addresses.
    pub proof fn wf_bounds(self)
        requires
            self.wf(),
        ensures
            1 <= self.start(),
            self.start() <= self.end(),
            self.end() <= 247,
            self.outcomes().len() <= self.span(),
            self.in_probe() ==> self.outcomes().len() < self.span(),
    {
    }

    /// What a closed sweep's stream amounts to: every event before the
    /// last is owed to a recorded outcome, the probing events among them
    /// name the probed addresses in ascending order — each exactly once —
    /// and the last event is the completion, carrying the owed report.
    pub proof fn lemma_finished_trace(self)
        requires
            self.wf(),
            self.is_finished(),
        ensures
            self.trace().len() == trace_of(self.start() as int, self.outcomes()).len() + 1,
            self.trace().drop_last() == trace_of(self.start() as int, self.outcomes()),
            (self.trace().last() matches ScanEvent::Completed(r) && report_matches(
                r,
                self.start() as int,
                self.outcomes(),
            )),
            probed_addresses(self.trace().drop_last()) == Seq::new(
                self.outcomes().len(),
                |i: int| ((self.start() + i) as u8),
            ),
    {
        lemma_probe_order(self.start() as int, self.outcomes());
    }
}

/// The addresses named by the probing events of a trace, in stream
/// order.
pub open spec fn probed_addresses(t: Seq<ScanEvent>) -> Seq<u8>
    decreases t.len(),
{
    if t.len() == 0 {
        Seq::empty()
    } else {
        let rest = probed_addresses(t.drop_last());
        match t.last() {
            ScanEvent::ProbingAddress(a) => rest.push(a),
            _ => rest,
        }
    }
}

/// One probe's chunk of the stream contributes exactly one probing
/// event, whatever its outcome.
proof fn lemma_probed_addresses_probe_trace(t: Seq<ScanEvent>, addr: u8, r: ScanResult)
    ensures
        probed_addresses(t + probe_trace(addr, r)) == probed_addresses(t).push(addr),
{
    let t1 = t + probe_trace(addr, r);
    if spec_is_responder(r) {
        let t2 = t.push(ScanEvent::ProbingAddress(addr));
        assert(t1.drop_last() =~= t2);
        assert(t1.last() == ScanEvent::Responded(addr, spec_values(r)[0], r.response_time_ms));
        assert(t2.drop_last() =~= t);
        assert(t2.last() == ScanEvent::ProbingAddress(addr));
        assert(probed_addresses(t1) == probed_addresses(t2));
        assert(probed_addresses(t2) == probed_addresses(t).push(addr));
    } else {
        assert(t1.drop_last() =~= t);
        assert(t1.last() == ScanEvent::ProbingAddress(addr));
        assert(probed_addresses(t1) == probed_addresses(t).push(addr));
    }
}

/// Sweep order: over the outcomes of a sweep from `start`, the probing
/// events of the stream name the addresses `start`, `start + 1`, ... —
/// each candidate exactly once, in strictly ascending order.
pub proof fn lemma_probe_order(start: int, outcomes: Seq<ScanResult>)
    requires
        0 <= start,
        start + outcomes.len() <= 256,
    ensures
        probed_addresses(trace_of(start, outcomes)) == Seq::new(
            outcomes.len(),
            |i: int| ((start + i) as u8),
        ),
    decreases outcomes.len(),
{
    if outcomes.len() == 0 {
        assert(probed_addresses(trace_of(start, outcomes)) =~= Seq::new(
            0nat,
            |i: int| ((start + i) as u8),
        ));
    } else {
        let prefix = outcomes.drop_last();
        let addr = ((start + outcomes.len() - 1) as u8);
        lemma_probe_order(start, prefix);
        lemma_probed_addresses_probe_trace(trace_of(start, prefix), addr, outcomes.last());
        assert(probed_addresses(trace_of(start, outcomes)) =~= Seq::new(
            outcomes.len(),
            |i: int| ((start + i) as u8),
        ));
    }
}

/// A sweep in which no probe carried usable data owes an empty
/// responder list, however many candidates were probed.
pub proof fn lemma_all_failures_no_responders(start: int, outcomes: Seq<ScanResult>)
    requires
        forall|i: int| 0 <= i < outcomes.len() ==> !spec_is_responder(#[trigger] outcomes[i]),
    ensures
        responders_of(start, outcomes) == Seq::<(u8, Seq<u16>)>::empty(),
    decreases outcomes.len(),
{
    if outcomes.len() == 0 {
        assert(responders_of(start, outcomes) =~= Seq::<(u8, Seq<u16>)>::empty());
    } else {
        assert(outcomes.last() == outcomes[outcomes.len() - 1]);
        lemma_all_failures_no_responders(start, outcomes.drop_last());
    }
}

/// The responder list is sound in shape: every entry's address lies in
/// the probed range, every entry carries at least one value, and the
/// addresses are strictly ascending.
pub proof fn lemma_responders_sorted(start: int, outcomes: Seq<ScanResult>)
    requires
        0 <= start,
        start + outcomes.len() <= 256,
    ensures
        forall|j: int|
            0 <= j < responders_of(start, outcomes).len() ==> {
                let p = #[trigger] responders_of(start, outcomes)[j];
                start <= p.0 < start + outcomes.len() && p.1.len() > 0
            },
        forall|j1: int, j2: int|
            0 <= j1 < j2 < responders_of(start, outcomes).len()
                ==> (#[trigger] responders_of(start, outcomes)[j1]).0
                < (#[trigger] responders_of(start, outcomes)[j2]).0,
    decreases outcomes.len(),
{
    if outcomes.len() == 0 {
    } else {
        let prefix = outcomes.drop_last();
        lemma_responders_sorted(start, prefix);
        if spec_is_responder(outcomes.last()) {
            let r = responders_of(start, outcomes);
            let prior = responders_of(start, prefix);
            assert(r == prior.push(
                (((start + outcomes.len() - 1) as u8), spec_values(outcomes.last())),
            ));
            assert(forall|j: int| 0 <= j < prior.len() ==> r[j] == prior[j]);
        }
    }
}

/// A probe that carried data appears in the responder list under its
/// address with exactly the values it returned; a probe that did not
/// never appears. Together with `lemma_responders_sorted`, a responder
/// stands at the position ascending address order assigns it.
pub proof fn lemma_responders_membership(start: int, outcomes: Seq<ScanResult>, i: int)
    requires
        0 <= start,
        start + outcomes.len() <= 256,
        0 <= i < outcomes.len(),
    ensures
        spec_is_responder(outcomes[i]) ==> responders_of(start, outcomes).contains(
            (((start + i) as u8), spec_values(outcomes[i])),
        ),
        !spec_is_responder(outcomes[i]) ==> forall|j: int|
            0 <= j < responders_of(start, outcomes).len()
                ==> (#[trigger] responders_of(start, outcomes)[j]).0 != ((start + i) as u8),
    decreases outcomes.len(),
{
    let r = responders_of(start, outcomes);
    let prefix = outcomes.drop_last();
    let prior = responders_of(start, prefix);
    if i == outcomes.len() - 1 {
        lemma_responders_sorted(start, prefix);
        if spec_is_responder(outcomes[i]) {
            assert(outcomes.last() == outcomes[i]);
            assert(r[r.len() - 1] == (((start + i) as u8), spec_values(outcomes[i])));
        } else {
            assert(r == prior);
        }
    } else {
        assert(prefix[i] == outcomes[i]);
        lemma_responders_membership(start, prefix, i);
        if spec_is_responder(outcomes[i]) {
            let entry = (((start + i) as u8), spec_values(outcomes[i]));
            let k = choose|k: int| 0 <= k < prior.len() && prior[k] == entry;
            assert(r[k] == entry);
            assert(r.contains(entry));
        } else {
            if spec_is_responder(outcomes.last()) {
                assert(forall|j: int| 0 <= j < prior.len() ==> r[j] == prior[j]);
                assert(r[r.len() - 1].0 == ((start + outcomes.len() - 1) as u8));
            }
        }
    }
}

/// A probe that carried data leaves a responded event in the stream,
/// naming its address, the first value it returned, and its elapsed
/// time; the stream's completion event can only come after it.
pub proof fn lemma_responded_event(start: int, outcomes: Seq<ScanResult>, i: int)
    requires
        0 <= start,
        start + outcomes.len() <= 256,
        0 <= i < outcomes.len(),
        spec_is_responder(outcomes[i]),
    ensures
        trace_of(start, outcomes).contains(
            ScanEvent::Responded(
                ((start + i) as u8),
                spec_values(outcomes[i])[0],
                outcomes[i].response_time_ms,
            ),
        ),
    decreases outcomes.len(),
{
    let t = trace_of(start, outcomes);
    let prefix = outcomes.drop_last();
    let ev = ScanEvent::Responded(
        ((start + i) as u8),
        spec_values(outcomes[i])[0],
        outcomes[i].response_time_ms,
    );
    if i == outcomes.len() - 1 {
        assert(outcomes.last() == outcomes[i]);
        assert(t[t.len() - 1] == ev);
        assert(t.contains(ev));
    } else {
        assert(prefix[i] == outcomes[i]);
        lemma_responded_event(start, prefix, i);
        let tp = trace_of(start, prefix);
        let k = choose|k: int| 0 <= k < tp.len() && tp[k] == ev;
        assert(t[k] == ev);
        assert(t.contains(ev));
    }
}

/// The summary owed for a responder list: one entry per responder, its
/// address and the first value it returned.
pub open spec fn spec_summary(pairs: Seq<(u8, Seq<u16>)>) -> Seq<(u8, u16)> {
    pairs.map_values(|p: (u8, Seq<u16>)| (p.0, p.1[0]))
}

/// One summary entry per responding address, in report order: the
/// address and the first value it returned.
pub fn summary_entries(report: &ScanReport) -> (s: Vec<(u8, u16)>)
    requires
        forall|j: int|
            0 <= j < report.responding@.len() ==> (#[trigger] report.responding@[j]).1@.len() > 0,
    ensures
        s@ == spec_summary(pairs_view(report.responding@)),
{
    let mut s: Vec<(u8, u16)> = Vec::new();
    let mut i: usize = 0;
    while i < report.responding.len()
        invariant
            i <= report.responding@.len(),
            s@.len() == i,
            forall|j: int|
                0 <= j < report.responding@.len() ==> (#[trigger] report.responding@[j]).1@.len()
                    > 0,
            forall|j: int|
                0 <= j < i ==> s@[j] == (report.responding@[j].0, report.responding@[j].1@[0]),
        decreases report.responding@.len() - i,
    {
        let entry = &report.responding[i];
        s.push((entry.0, entry.1[0]));
        i = i + 1;
    }
    proof {
        assert(s@ =~= spec_summary(pairs_view(report.responding@)));
    }
    s
}

} // verus!
