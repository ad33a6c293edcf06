//! The in-memory statistics aggregate and its transition logic.
//!
//! One `Stats` value exists per process; every request handler reads and
//! writes it under mutual exclusion supplied by the surrounding glue. The
//! methods here are the only mutations, each one an atomic transaction in
//! the mathematical model `StatsModel`, so the laws proved over
//! `beat_step` and `fold_beats` describe every interleaving of serialized
//! concurrent traffic.
//!
//! Instants are whole milliseconds since the Unix epoch; durations are
//! millisecond counts.

use vstd::prelude::*;

verus! {

/// A heartbeat gap at least this long is worth an absence notification.
pub const ABSENCE_NOTIFY_MILLIS: i64 = 3_600_000;

/// A registered heartbeat source.
pub struct Device {
    /// Identifier issued at registration; unique within the aggregate.
    pub id: u64,
    /// Display name, if one was requested.
    pub name: Option<String>,
    /// Instant of this device's most recent heartbeat.
    pub last_beat: Option<i64>,
    /// How many heartbeats this device has submitted.
    pub num_beats: u64,
}

/// Mathematical model of a `Device`.
pub ghost struct DeviceModel {
    pub id: u64,
    pub name: Option<Seq<char>>,
    pub last_beat: Option<int>,
    pub num_beats: int,
}

impl View for Device {
    type V = DeviceModel;

    open spec fn view(&self) -> DeviceModel {
        DeviceModel {
            id: self.id,
            name: match self.name {
                Option::Some(n) => Option::Some(n@),
                Option::None => Option::None,
            },
            last_beat: match self.last_beat {
                Option::Some(t) => Option::Some(t as int),
                Option::None => Option::None,
            },
            num_beats: self.num_beats as int,
        }
    }
}

/// The process-wide statistics aggregate.
pub struct Stats {
    /// Most recent heartbeat instant across all devices.
    pub last_seen: Option<i64>,
    /// Largest observed gap between consecutive heartbeats, in
    /// milliseconds; never decreases except by reseeding.
    pub longest_absence: i64,
    /// Count of accepted heartbeat submissions.
    pub total_beats: u64,
    /// Count of page views.
    pub num_visits: u64,
    /// Every device ever successfully registered.
    pub devices: Vec<Device>,
    /// Fixed at process start.
    pub server_start_time: i64,
}

/// Mathematical model of the aggregate.
#[verifier::ext_equal]
pub ghost struct StatsModel {
    pub last_seen: Option<int>,
    pub longest_absence: int,
    pub total_beats: int,
    pub num_visits: int,
    pub devices: Seq<DeviceModel>,
    pub server_start_time: int,
}

impl View for Stats {
    type V = StatsModel;

    open spec fn view(&self) -> StatsModel {
        StatsModel {
            last_seen: match self.last_seen {
                Option::Some(t) => Option::Some(t as int),
                Option::None => Option::None,
            },
            longest_absence: self.longest_absence as int,
            total_beats: self.total_beats as int,
            num_visits: self.num_visits as int,
            devices: self.devices@.map_values(|d: Device| d@),
            server_start_time: self.server_start_time as int,
        }
    }
}

/// The aggregate's invariant: the longest absence is a duration, device
/// identifiers are pairwise distinct, and no device has submitted more
/// beats than were counted in total.
pub open spec fn stats_wf(m: StatsModel) -> bool {
    &&& m.longest_absence >= 0
    &&& forall|i: int, j: int|
        0 <= i < j < m.devices.len() ==> m.devices[i].id != m.devices[j].id
    &&& forall|i: int| 0 <= i < m.devices.len() ==> m.devices[i].num_beats <= m.total_beats
}

/// One heartbeat submission as the aggregate sees it: the authenticated
/// device, the receipt instant, and the instant of the preceding
/// system-wide heartbeat as durable storage reported it.
pub ghost struct BeatEvent {
    pub device_id: u64,
    pub now: int,
    pub prev: Option<int>,
}

/// What one heartbeat asks of the surrounding glue.
#[derive(Clone, Copy, PartialEq, Eq, Structural, Debug)]
pub struct BeatOutcome {
    /// The stored longest absence grew, so its durable copy is owed an
    /// update.
    pub update_longest_absence: bool,
    /// The gap just closed was long enough for an absence notification.
    pub notify_absence: bool,
    /// The acknowledgment instant returned to the caller.
    pub ack: i64,
}

/// The device list after a heartbeat: the device wearing the submitting
/// identifier gets the beat instant and one more beat; the rest stand.
pub open spec fn devices_after_beat(ds: Seq<DeviceModel>, device_id: u64, now: int) -> Seq<
    DeviceModel,
> {
    ds.map(
        |i: int, d: DeviceModel|
            if d.id == device_id {
                DeviceModel { last_beat: Option::Some(now), num_beats: d.num_beats + 1, ..d }
            } else {
                d
            },
    )
}

/// One heartbeat as a transaction on the model: the longest absence grows
/// to the just-closed gap when that gap beats it, the last-seen instant
/// becomes the receipt instant, the submitting device and the total count
/// each gain a beat, and nothing else moves.
pub open spec fn beat_step(s: StatsModel, ev: BeatEvent) -> StatsModel {
    StatsModel {
        last_seen: Option::Some(ev.now),
        longest_absence: match ev.prev {
            Option::Some(p) => if ev.now - p > s.longest_absence {
                ev.now - p
            } else {
                s.longest_absence
            },
            Option::None => s.longest_absence,
        },
        total_beats: s.total_beats + 1,
        num_visits: s.num_visits,
        devices: devices_after_beat(s.devices, ev.device_id, ev.now),
        server_start_time: s.server_start_time,
    }
}

/// A millisecond reading lifted into the model.
pub open spec fn opt_millis(o: Option<i64>) -> Option<int> {
    match o {
        Option::Some(t) => Option::Some(t as int),
        Option::None => Option::None,
    }
}

/// A display name lifted into the model.
pub open spec fn opt_name(o: Option<String>) -> Option<Seq<char>> {
    match o {
        Option::Some(n) => Option::Some(n@),
        Option::None => Option::None,
    }
}

/// Whether some registered device wears this identifier.
pub open spec fn has_device(m: StatsModel, id: u64) -> bool {
    exists|k: int| 0 <= k < m.devices.len() && m.devices[k].id == id
}

/// A successful registration on the model: the new device joins with zero
/// beats and no last-beat instant; everything else stands.
pub open spec fn register_step(s: StatsModel, id: u64, name: Option<Seq<char>>) -> StatsModel {
    StatsModel {
        devices: s.devices.push(
            DeviceModel { id, name, last_beat: Option::None, num_beats: 0 },
        ),
        ..s
    }
}

impl Stats {
    /// The invariant, stated of this value's model.
    pub open spec fn wf(self) -> bool {
        stats_wf(self@)
    }

    /// A fresh aggregate: nothing seen, no absence, zero counters, no
    /// devices.
    pub fn new(server_start_time: i64) -> (s: Stats)
        ensures
            s.wf(),
            s@.last_seen == Option::<int>::None,
            s@.longest_absence == 0,
            s@.total_beats == 0,
            s@.num_visits == 0,
            s@.devices == Seq::<DeviceModel>::empty(),
            s@.server_start_time == server_start_time as int,
    {
        let s = Stats {
            last_seen: None,
            longest_absence: 0,
            total_beats: 0,
            num_visits: 0,
            devices: Vec::new(),
            server_start_time,
        };
        proof {
            assert(s@.devices =~= Seq::<DeviceModel>::empty());
        }
        s
    }

    /// Applies one heartbeat as a single transaction, and reports what the
    /// surrounding glue owes afterwards: a durable longest-absence update
    /// exactly when the stored value grew, an absence notification exactly
    /// when the closed gap reached the notification threshold, and the
    /// acknowledgment instant.
    pub fn apply_beat(&mut self, device_id: u64, now: i64, prev: Option<i64>) -> (r: BeatOutcome)
        requires
            old(self).wf(),
            old(self).total_beats < u64::MAX,
            match prev {
                Option::Some(p) => i64::MIN <= now - p <= i64::MAX,
                Option::None => true,
            },
        ensures
            final(self).wf(),
            final(self)@ == beat_step(
                old(self)@,
                BeatEvent { device_id, now: now as int, prev: opt_millis(prev) },
            ),
            r.ack == now,
            r.update_longest_absence == match prev {
                Option::Some(p) => now - p > old(self).longest_absence,
                Option::None => false,
            },
            r.notify_absence == match prev {
                Option::Some(p) => now - p >= ABSENCE_NOTIFY_MILLIS,
                Option::None => false,
            },
    {
        let ghost target = beat_step(
            old(self)@,
            BeatEvent { device_id, now: now as int, prev: opt_millis(prev) },
        );
        let mut update_longest_absence = false;
        let mut notify_absence = false;
        match prev {
            Some(p) => {
                let diff: i64 = now - p;
                if diff > self.longest_absence {
                    self.longest_absence = diff;
                    update_longest_absence = true;
                }
                if diff >= ABSENCE_NOTIFY_MILLIS {
                    notify_absence = true;
                }
            },
            None => {},
        }
        self.last_seen = Some(now);
        let n = self.devices.len();
        let mut i: usize = 0;
        let mut found = false;
        while i < n && !found
            invariant
                n == self.devices.len(),
                i <= n,
                !found ==> forall|k: int| 0 <= k < i ==> self.devices@[k].id != device_id,
                found ==> i < n && self.devices@[i as int].id == device_id,
            decreases n - i + (if found { 0int } else { 1int }),
        {
            if self.devices[i].id == device_id {
                found = true;
            } else {
                i = i + 1;
            }
        }
        if found {
            proof {
                assert(old(self)@.devices[i as int] == old(self).devices@[i as int]@);
                assert(old(self)@.devices[i as int].num_beats <= old(self)@.total_beats);
            }
            let dev = self.devices.remove(i);
            let updated = Device { last_beat: Some(now), num_beats: dev.num_beats + 1, ..dev };
            self.devices.insert(i, updated);
            proof {
                assert(self.devices@ =~= old(self).devices@.update(i as int, updated));
            }
        }
        self.total_beats = self.total_beats + 1;
        proof {
            let prem = old(self)@.devices;
            assert forall|k: int| 0 <= k < prem.len() implies self@.devices[k] == target.devices[k]
            by {
                assert(self@.devices[k] == self.devices@[k]@);
                assert(old(self)@.devices[k] == old(self).devices@[k]@);
                assert(target.devices[k] == if prem[k].id == device_id {
                    DeviceModel {
                        last_beat: Option::Some(now as int),
                        num_beats: prem[k].num_beats + 1,
                        ..prem[k]
                    }
                } else {
                    prem[k]
                });
                if found {
                    assert(old(self)@.devices[i as int] == old(self).devices@[i as int]@);
                    if k != i as int {
                        assert(prem[k].id != prem[i as int].id);
                    }
                }
            }
            assert(self@.devices =~~= target.devices);
            assert(self@ =~~= target);
        }
        BeatOutcome { update_longest_absence, notify_absence, ack: now }
    }

    /// Inserts a newly registered device with zero beats and no last-beat
    /// instant. When the identifier is already present — the conflict that
    /// unique identifier issue rules out — nothing changes and the call
    /// reports failure.
    pub fn register_device(&mut self, id: u64, name: Option<String>) -> (r: bool)
        requires
            old(self).wf(),
        ensures
            final(self).wf(),
            r == !has_device(old(self)@, id),
            r ==> final(self)@ == register_step(old(self)@, id, opt_name(name)),
            !r ==> final(self)@ == old(self)@,
    {
        let n = self.devices.len();
        let mut i: usize = 0;
        while i < n
            invariant
                *self == *old(self),
                old(self).wf(),
                n == self.devices.len(),
                i <= n,
                forall|k: int| 0 <= k < i ==> self.devices@[k].id != id,
            decreases n - i,
        {
            if self.devices[i].id == id {
                proof {
                    assert(self@.devices[i as int].id == id);
                }
                return false;
            }
            i = i + 1;
        }
        proof {
            assert forall|k: int| 0 <= k < self@.devices.len() implies self@.devices[k].id != id
            by {
                assert(self@.devices[k] == self.devices@[k]@);
            }
        }
        self.devices.push(Device { id, name, last_beat: None, num_beats: 0 });
        proof {
            assert(self@.devices =~~= register_step(old(self)@, id, opt_name(name)).devices);
            assert(self@ =~~= register_step(old(self)@, id, opt_name(name)));
        }
        true
    }

    /// Rebuilds the aggregate from durable rows at process start. Succeeds
    /// exactly when the rows satisfy the invariant; a negative stored
    /// absence, a duplicated identifier or a device with more beats than
    /// the total is rejected rather than admitted into the aggregate.
    #[verifier::loop_isolation(false)]
    pub fn from_parts(
        last_seen: Option<i64>,
        longest_absence: i64,
        total_beats: u64,
        num_visits: u64,
        devices: Vec<Device>,
        server_start_time: i64,
    ) -> (r: Option<Stats>)
        ensures
            ({
                let m = StatsModel {
                    last_seen: opt_millis(last_seen),
                    longest_absence: longest_absence as int,
                    total_beats: total_beats as int,
                    num_visits: num_visits as int,
                    devices: devices@.map_values(|d: Device| d@),
                    server_start_time: server_start_time as int,
                };
                match r {
                    Option::Some(s) => s@ == m && s.wf() && stats_wf(m),
                    Option::None => !stats_wf(m),
                }
            }),
    {
        let ghost m = StatsModel {
            last_seen: opt_millis(last_seen),
            longest_absence: longest_absence as int,
            total_beats: total_beats as int,
            num_visits: num_visits as int,
            devices: devices@.map_values(|d: Device| d@),
            server_start_time: server_start_time as int,
        };
        if longest_absence < 0 {
            return None;
        }
        let n = devices.len();
        let mut i: usize = 0;
        while i < n
            invariant
                n == devices.len(),
                i <= n,
                m.devices == devices@.map_values(|d: Device| d@),
                forall|a: int, b: int| 0 <= a < b < i && b < n ==> m.devices[a].id != m.devices[b].id,
                forall|a: int| 0 <= a < i ==> m.devices[a].num_beats <= m.total_beats,
            decreases n - i,
        {
            let beats_here = devices[i].num_beats;
            if beats_here > total_beats {
                proof {
                    assert(m.devices[i as int] == devices@[i as int]@);
                }
                return None;
            }
            let mut j: usize = 0;
            while j < i
                invariant
                    n == devices.len(),
                    j <= i < n,
                    m.devices == devices@.map_values(|d: Device| d@),
                    beats_here == devices@[i as int].num_beats,
                    beats_here <= total_beats,
                    forall|a: int| 0 <= a < j ==> m.devices[a].id != m.devices[i as int].id,
                decreases i - j,
            {
                if devices[j].id == devices[i].id {
                    proof {
                        assert(m.devices[j as int] == devices@[j as int]@);
                        assert(m.devices[i as int] == devices@[i as int]@);
                    }
                    return None;
                }
                proof {
                    assert(m.devices[j as int] == devices@[j as int]@);
                    assert(m.devices[i as int] == devices@[i as int]@);
                }
                j = j + 1;
            }
            proof {
                assert(m.devices[i as int] == devices@[i as int]@);
                assert(beats_here == devices@[i as int].num_beats);
                assert(m.devices[i as int].num_beats <= m.total_beats);
            }
            i = i + 1;
        }
        let s = Stats { last_seen, longest_absence, total_beats, num_visits, devices, server_start_time };
        proof {
            assert(s@ =~~= m);
        }
        Some(s)
    }

    /// Counts one page view; nothing else changes.
    pub fn record_visit(&mut self)
        requires
            old(self).num_visits < u64::MAX,
        ensures
            final(self)@ == (StatsModel { num_visits: old(self)@.num_visits + 1, ..old(self)@ }),
            old(self).wf() ==> final(self).wf(),
    {
        self.num_visits = self.num_visits + 1;
        proof {
            assert(self@ =~= (StatsModel { num_visits: old(self)@.num_visits + 1, ..old(self)@ }));
        }
    }
}

/// A run of heartbeat transactions applied in serialization order.
pub open spec fn fold_beats(s: StatsModel, evs: Seq<BeatEvent>) -> StatsModel
    decreases evs.len(),
{
    if evs.len() == 0 {
        s
    } else {
        fold_beats(beat_step(s, evs[0]), evs.drop_first())
    }
}

/// Law: no lost updates. However many concurrent submissions there were,
/// once their transactions are serialized, N heartbeats raise the total
/// beat count by exactly N.
pub proof fn lemma_no_lost_beats(s: StatsModel, evs: Seq<BeatEvent>)
    ensures
        fold_beats(s, evs).total_beats == s.total_beats + evs.len(),
    decreases evs.len(),
{
    if evs.len() > 0 {
        lemma_no_lost_beats(beat_step(s, evs[0]), evs.drop_first());
    }
}

/// A run of heartbeats never shrinks the stored longest absence.
pub proof fn lemma_fold_longest_monotone(s: StatsModel, evs: Seq<BeatEvent>)
    ensures
        fold_beats(s, evs).longest_absence >= s.longest_absence,
    decreases evs.len(),
{
    if evs.len() > 0 {
        lemma_fold_longest_monotone(beat_step(s, evs[0]), evs.drop_first());
    }
}

/// A run splits at any point: apply a prefix, then the rest.
pub proof fn lemma_fold_split(s: StatsModel, evs: Seq<BeatEvent>, k: int)
    requires
        0 <= k <= evs.len(),
    ensures
        fold_beats(s, evs) == fold_beats(fold_beats(s, evs.take(k)), evs.skip(k)),
    decreases k,
{
    if k == 0 {
        assert(evs.take(0) =~= Seq::<BeatEvent>::empty());
        assert(evs.skip(0) =~= evs);
    } else {
        let stepped = beat_step(s, evs[0]);
        lemma_fold_split(stepped, evs.drop_first(), k - 1);
        assert(evs.take(k)[0] == evs[0]);
        assert(evs.take(k).drop_first() =~= evs.drop_first().take(k - 1));
        assert(evs.skip(k) =~= evs.drop_first().skip(k - 1));
    }
}

/// A chronological run: every submission's reported previous instant is
/// the instant of the submission just before it.
pub open spec fn chained(evs: Seq<BeatEvent>) -> bool {
    forall|i: int| 1 <= i < evs.len() ==> evs[i].prev == Option::Some(evs[i - 1].now)
}

/// Law: after any chronological run of heartbeats, the stored longest
/// absence is at least every gap between consecutive submissions.
pub proof fn lemma_longest_absence_dominates(s: StatsModel, evs: Seq<BeatEvent>)
    requires
        chained(evs),
    ensures
        forall|i: int|
            1 <= i < evs.len() ==> fold_beats(s, evs).longest_absence >= #[trigger] evs[i].now
                - evs[i - 1].now,
{
    assert forall|i: int| 1 <= i < evs.len() implies fold_beats(s, evs).longest_absence
        >= #[trigger] evs[i].now - evs[i - 1].now by {
        let prefix = evs.take(i + 1);
        let before = fold_beats(s, evs.take(i));
        lemma_fold_split(s, prefix, i);
        assert(prefix.take(i) =~= evs.take(i));
        let single = seq![evs[i]];
        assert(prefix.skip(i) =~= single);
        assert(single[0] == evs[i]);
        assert(single.drop_first() =~= Seq::<BeatEvent>::empty());
        assert(fold_beats(s, prefix) == fold_beats(before, single));
        assert(fold_beats(before, single) == fold_beats(
            beat_step(before, evs[i]),
            single.drop_first(),
        ));
        assert(fold_beats(s, prefix) == beat_step(before, evs[i]));
        assert(beat_step(before, evs[i]).longest_absence >= evs[i].now - evs[i - 1].now);
        lemma_fold_split(s, evs, i + 1);
        lemma_fold_longest_monotone(fold_beats(s, prefix), evs.skip(i + 1));
    }
}

/// Law: a snapshot mutates nothing, so two snapshots with no mutation in
/// between show the same last-seen instant, counters, devices and stored
/// statistics; only the two clock-derived fields move, by exactly the
/// time that passed; and two readings of one instant are identical.
pub proof fn lemma_snapshot_idempotent(s: StatsModel, n1: int, n2: int)
    ensures
        snapshot_model(s, n1).total_beats == snapshot_model(s, n2).total_beats,
        snapshot_model(s, n1).num_visits == snapshot_model(s, n2).num_visits,
        snapshot_model(s, n1).devices == snapshot_model(s, n2).devices,
        snapshot_model(s, n1).last_seen == snapshot_model(s, n2).last_seen,
        snapshot_model(s, n2).last_seen_relative - snapshot_model(s, n1).last_seen_relative == n2
            - n1,
        snapshot_model(s, n2).uptime - snapshot_model(s, n1).uptime == n2 - n1,
        n1 == n2 ==> snapshot_model(s, n1) == snapshot_model(s, n2),
{
}

/// A point-in-time read-only copy of the aggregate, as handed to polling
/// and streaming consumers.
pub struct StatsView {
    /// Most recent heartbeat instant, if any.
    pub last_seen: Option<i64>,
    /// Milliseconds from the most recent heartbeat (the epoch when none
    /// exists) to the reading instant.
    pub last_seen_relative: i64,
    /// The reported longest absence: the stored one, or the absence in
    /// progress when that is longer. Only an actual heartbeat writes the
    /// stored value back.
    pub longest_absence: i64,
    /// Count of page views.
    pub num_visits: u64,
    /// Count of accepted heartbeat submissions.
    pub total_beats: u64,
    /// The registered devices.
    pub devices: Vec<Device>,
    /// Milliseconds since process start.
    pub uptime: i64,
}

/// Mathematical model of a `StatsView`.
#[verifier::ext_equal]
pub ghost struct StatsViewModel {
    pub last_seen: Option<int>,
    pub last_seen_relative: int,
    pub longest_absence: int,
    pub num_visits: int,
    pub total_beats: int,
    pub devices: Seq<DeviceModel>,
    pub uptime: int,
}

impl View for StatsView {
    type V = StatsViewModel;

    open spec fn view(&self) -> StatsViewModel {
        StatsViewModel {
            last_seen: opt_millis(self.last_seen),
            last_seen_relative: self.last_seen_relative as int,
            longest_absence: self.longest_absence as int,
            num_visits: self.num_visits as int,
            total_beats: self.total_beats as int,
            devices: self.devices@.map_values(|d: Device| d@),
            uptime: self.uptime as int,
        }
    }
}

/// What a snapshot at reading instant `now` shows of a model state:
/// counters and devices verbatim, the relative and uptime clocks
/// recomputed, and the longest absence corrected upward by the absence in
/// progress — without writing anything back.
pub open spec fn snapshot_model(s: StatsModel, now: int) -> StatsViewModel {
    let rel = match s.last_seen {
        Option::Some(t) => now - t,
        Option::None => now,
    };
    StatsViewModel {
        last_seen: s.last_seen,
        last_seen_relative: rel,
        longest_absence: if rel > s.longest_absence {
            rel
        } else {
            s.longest_absence
        },
        num_visits: s.num_visits,
        total_beats: s.total_beats,
        devices: s.devices,
        uptime: now - s.server_start_time,
    }
}

/// An exact copy of one device record.
fn copy_device(d: &Device) -> (r: Device)
    ensures
        r == *d,
{
    Device {
        id: d.id,
        name: match &d.name {
            Some(n) => Some(n.clone()),
            None => None,
        },
        last_beat: d.last_beat,
        num_beats: d.num_beats,
    }
}

/// An exact copy of the device list.
fn copy_devices(v: &Vec<Device>) -> (r: Vec<Device>)
    ensures
        r@ == v@,
{
    let mut out: Vec<Device> = Vec::new();
    let n = v.len();
    let mut i: usize = 0;
    while i < n
        invariant
            n == v.len(),
            i <= n,
            out@ == v@.subrange(0, i as int),
        decreases n - i,
    {
        out.push(copy_device(&v[i]));
        proof {
            assert(out@ =~= v@.subrange(0, i + 1));
        }
        i = i + 1;
    }
    proof {
        assert(out@ =~= v@);
    }
    out
}

impl Stats {
    /// Assembles the read-only snapshot for the reading instant `now`;
    /// the aggregate itself does not move.
    pub fn snapshot(&self, now: i64) -> (v: StatsView)
        requires
            match self.last_seen {
                Option::Some(t) => i64::MIN <= now - t <= i64::MAX,
                Option::None => true,
            },
            i64::MIN <= now - self.server_start_time <= i64::MAX,
        ensures
            v@ == snapshot_model(self@, now as int),
    {
        let last_seen_relative: i64 = match self.last_seen {
            Some(t) => now - t,
            None => now,
        };
        let v = StatsView {
            last_seen: self.last_seen,
            last_seen_relative,
            longest_absence: if last_seen_relative > self.longest_absence {
                last_seen_relative
            } else {
                self.longest_absence
            },
            num_visits: self.num_visits,
            total_beats: self.total_beats,
            devices: copy_devices(&self.devices),
            uptime: now - self.server_start_time,
        };
        proof {
            assert(v@ =~~= snapshot_model(self@, now as int));
        }
        v
    }
}

} // verus!

