//! Bounded sample histories, one series per metric, for the sparklines.
use vstd::prelude::*;

use crate::text::str_eq;

verus! {

/// The metric a series belongs to.
#[derive(Clone, Debug, PartialEq, Eq, Hash)]
pub enum SeriesKey {
    Cpu,
    Memory,
    Disk,
    NetRx(String),
    NetTx(String),
}

/// A series key as a mathematical value.
pub enum SeriesId {
    Cpu,
    Memory,
    Disk,
    NetRx(Seq<char>),
    NetTx(Seq<char>),
}

impl View for SeriesKey {
    type V = SeriesId;

    open spec fn view(&self) -> SeriesId {
        match self {
            SeriesKey::Cpu => SeriesId::Cpu,
            SeriesKey::Memory => SeriesId::Memory,
            SeriesKey::Disk => SeriesId::Disk,
            SeriesKey::NetRx(name) => SeriesId::NetRx(name@),
            SeriesKey::NetTx(name) => SeriesId::NetTx(name@),
        }
    }
}

fn same_key(a: &SeriesKey, b: &SeriesKey) -> (r: bool)
    ensures
        r == (a@ == b@),
{
    match (a, b) {
        (SeriesKey::Cpu, SeriesKey::Cpu) => true,
        (SeriesKey::Memory, SeriesKey::Memory) => true,
        (SeriesKey::Disk, SeriesKey::Disk) => true,
        (SeriesKey::NetRx(x), SeriesKey::NetRx(y)) => str_eq(x.as_str(), y.as_str()),
        (SeriesKey::NetTx(x), SeriesKey::NetTx(y)) => str_eq(x.as_str(), y.as_str()),
        _ => false,
    }
}

/// One interface's rates for a history sample, already in whole bytes per second.
pub struct InterfaceSample {
    pub name: String,
    pub rx: Option<u64>,
    pub tx: Option<u64>,
}

/// The values one refresh adds to the history, already converted to whole numbers.
pub struct HistorySample {
    pub cpu: Option<u64>,
    pub memory: Option<u64>,
    pub disk: Option<u64>,
    pub interfaces: Vec<InterfaceSample>,
}

/// The last `cap` values of `s`.
pub open spec fn window(s: Seq<u64>, cap: nat) -> Seq<u64> {
    if s.len() > cap {
        s.skip(s.len() - cap)
    } else {
        s
    }
}

/// The series after one push: a missing value changes nothing, a present one is
/// appended to its series, which keeps only its last `cap` values.
pub open spec fn after_push(
    f: spec_fn(SeriesId) -> Seq<u64>,
    key: SeriesId,
    value: Option<u64>,
    cap: nat,
) -> spec_fn(SeriesId) -> Seq<u64> {
    |id: SeriesId|
        if value is Some && id == key {
            window(f(id).push(value->0), cap)
        } else {
            f(id)
        }
}

/// The series after pushing each interface's received and sent rate, in order.
pub open spec fn after_interfaces(
    f: spec_fn(SeriesId) -> Seq<u64>,
    interfaces: Seq<InterfaceSample>,
    cap: nat,
) -> spec_fn(SeriesId) -> Seq<u64>
    decreases interfaces.len(),
{
    if interfaces.len() == 0 {
        f
    } else {
        let g = after_interfaces(f, interfaces.drop_last(), cap);
        let last = interfaces.last();
        after_push(
            after_push(g, SeriesId::NetRx(last.name@), last.rx, cap),
            SeriesId::NetTx(last.name@),
            last.tx,
            cap,
        )
    }
}

/// Whether a series belongs to a metric that still exists: network series only
/// while their interface is reported.
pub open spec fn kept(id: SeriesId, interfaces: Seq<InterfaceSample>) -> bool {
    match id {
        SeriesId::NetRx(name) => exists|i: int|
            0 <= i < interfaces.len() && (#[trigger] interfaces[i]).name@ == name,
        SeriesId::NetTx(name) => exists|i: int|
            0 <= i < interfaces.len() && (#[trigger] interfaces[i]).name@ == name,
        _ => true,
    }
}

/// The series after recording one sample: CPU, memory, disk, then every interface,
/// after which the series of vanished interfaces are dropped.
pub open spec fn after_record(
    f: spec_fn(SeriesId) -> Seq<u64>,
    sample: HistorySample,
    cap: nat,
) -> spec_fn(SeriesId) -> Seq<u64> {
    let base = after_push(
        after_push(after_push(f, SeriesId::Cpu, sample.cpu, cap), SeriesId::Memory, sample.memory, cap),
        SeriesId::Disk,
        sample.disk,
        cap,
    );
    let g = after_interfaces(base, sample.interfaces@, cap);
    |id: SeriesId|
        if kept(id, sample.interfaces@) {
            g(id)
        } else {
            Seq::empty()
        }
}

/// No key occurs in two entries.
pub open spec fn distinct_keys(entries: Seq<(SeriesId, Seq<u64>)>) -> bool {
    forall|j: int, k: int| 0 <= j < k < entries.len() ==> (#[trigger] entries[j]).0 != (#[trigger] entries[k]).0
}

/// The values of the last entry with key `id`, or none.
pub open spec fn lookup(entries: Seq<(SeriesId, Seq<u64>)>, id: SeriesId) -> Seq<u64>
    decreases entries.len(),
{
    if entries.len() == 0 {
        Seq::empty()
    } else if entries.last().0 == id {
        entries.last().1
    } else {
        lookup(entries.drop_last(), id)
    }
}

/// The entries whose key is kept, in order.
pub open spec fn kept_entries(entries: Seq<(SeriesId, Seq<u64>)>, interfaces: Seq<InterfaceSample>) -> Seq<
    (SeriesId, Seq<u64>),
>
    decreases entries.len(),
{
    if entries.len() == 0 {
        Seq::empty()
    } else {
        let rest = kept_entries(entries.drop_last(), interfaces);
        if kept(entries.last().0, interfaces) {
            rest.push(entries.last())
        } else {
            rest
        }
    }
}

proof fn lemma_lookup_update(s: Seq<(SeriesId, Seq<u64>)>, i: int, e: (SeriesId, Seq<u64>), id: SeriesId)
    requires
        0 <= i < s.len(),
        s[i].0 == e.0,
        forall|j: int| i < j < s.len() ==> (#[trigger] s[j]).0 != e.0,
    ensures
        lookup(s.update(i, e), id) == (if id == e.0 {
            e.1
        } else {
            lookup(s, id)
        }),
    decreases s.len(),
{
    let t = s.update(i, e);
    if i == s.len() - 1 {
        assert(t.drop_last() =~= s.drop_last());
    } else {
        assert(t.drop_last() =~= s.drop_last().update(i, e));
        assert(s[s.len() - 1].0 != e.0);
        lemma_lookup_update(s.drop_last(), i, e, id);
    }
}

proof fn lemma_lookup_kept(s: Seq<(SeriesId, Seq<u64>)>, interfaces: Seq<InterfaceSample>, id: SeriesId)
    ensures
        lookup(kept_entries(s, interfaces), id) == (if kept(id, interfaces) {
            lookup(s, id)
        } else {
            Seq::empty()
        }),
    decreases s.len(),
{
    if s.len() > 0 {
        lemma_lookup_kept(s.drop_last(), interfaces, id);
        let rest = kept_entries(s.drop_last(), interfaces);
        if kept(s.last().0, interfaces) {
            assert(rest.push(s.last()).drop_last() =~= rest);
        }
    }
}

proof fn lemma_kept_bounded(s: Seq<(SeriesId, Seq<u64>)>, interfaces: Seq<InterfaceSample>, cap: nat)
    requires
        forall|j: int| 0 <= j < s.len() ==> (#[trigger] s[j]).1.len() <= cap,
    ensures
        forall|j: int|
            0 <= j < kept_entries(s, interfaces).len() ==> (#[trigger] kept_entries(s, interfaces)[j]).1.len()
                <= cap,
    decreases s.len(),
{
    if s.len() > 0 {
        let d = s.drop_last();
        assert forall|j: int| 0 <= j < d.len() implies (#[trigger] d[j]).1.len() <= cap by {
            assert(d[j] == s[j]);
        }
        lemma_kept_bounded(d, interfaces, cap);
        let rest = kept_entries(d, interfaces);
        assert(s.last() == s[s.len() - 1]);
        if kept(s.last().0, interfaces) {
            assert forall|j: int| 0 <= j < rest.len() + 1 implies (#[trigger] rest.push(s.last())[j]).1.len()
                <= cap by {
                if j < rest.len() {
                    assert(rest.push(s.last())[j] == rest[j]);
                }
            }
        }
    }
}

proof fn lemma_kept_distinct(s: Seq<(SeriesId, Seq<u64>)>, interfaces: Seq<InterfaceSample>)
    requires
        distinct_keys(s),
    ensures
        distinct_keys(kept_entries(s, interfaces)),
        forall|j: int|
            0 <= j < kept_entries(s, interfaces).len() ==> s.contains(#[trigger] kept_entries(s, interfaces)[j]),
    decreases s.len(),
{
    if s.len() > 0 {
        let d = s.drop_last();
        assert forall|j: int, k: int| 0 <= j < k < d.len() implies (#[trigger] d[j]).0 != (#[trigger] d[k]).0 by {
            assert(d[j] == s[j] && d[k] == s[k]);
        }
        lemma_kept_distinct(d, interfaces);
        let rest = kept_entries(d, interfaces);
        assert forall|j: int| 0 <= j < rest.len() implies s.contains(#[trigger] rest[j]) && rest[j].0 != s.last().0 by {
            let k = choose|k: int| 0 <= k < d.len() && d[k] == rest[j];
            assert(s[k] == d[k]);
            assert(s[s.len() - 1] == s.last());
        }
        if kept(s.last().0, interfaces) {
            let t = rest.push(s.last());
            assert(s[s.len() - 1] == s.last());
            assert forall|j: int, k: int| 0 <= j < k < t.len() implies (#[trigger] t[j]).0 != (#[trigger] t[k]).0 by {
                if k == t.len() - 1 {
                    assert(t[j] == rest[j]);
                } else {
                    assert(t[j] == rest[j] && t[k] == rest[k]);
                }
            }
            assert forall|j: int| 0 <= j < t.len() implies s.contains(#[trigger] t[j]) by {
                if j < rest.len() {
                    assert(t[j] == rest[j]);
                }
            }
        }
    }
}

/// Whether an interface of this name is reported.
fn has_interface(name: &String, interfaces: &Vec<InterfaceSample>) -> (r: bool)
    ensures
        r == exists|i: int| 0 <= i < interfaces@.len() && (#[trigger] interfaces@[i]).name@ == name@,
{
    let mut i: usize = 0;
    while i < interfaces.len()
        invariant
            i <= interfaces@.len(),
            forall|k: int| 0 <= k < i ==> (#[trigger] interfaces@[k]).name@ != name@,
        decreases interfaces@.len() - i,
    {
        if str_eq(interfaces[i].name.as_str(), name.as_str()) {
            assert(interfaces@[i as int].name@ == name@);
            return true;
        }
        i = i + 1;
    }
    false
}

/// Recent values of each metric, at most `capacity` per series.
#[derive(Clone, Debug)]
pub struct History {
    series: Vec<(SeriesKey, Vec<u64>)>,
    capacity: usize,
}

impl History {
    /// The entries as mathematical values.
    pub closed spec fn entries(&self) -> Seq<(SeriesId, Seq<u64>)> {
        self.series@.map_values(|e: (SeriesKey, Vec<u64>)| (e.0@, e.1@))
    }

    /// The values held for each series, oldest first; empty where none are held.
    pub closed spec fn model(&self) -> spec_fn(SeriesId) -> Seq<u64> {
        |id: SeriesId| lookup(self.entries(), id)
    }

    /// How many values a series keeps.
    pub closed spec fn capacity_spec(&self) -> nat {
        self.capacity as nat
    }

    /// The capacity is at least one, no series holds more than it, and no key has two
    /// entries.
    pub closed spec fn wf(&self) -> bool {
        &&& self.capacity >= 1
        &&& forall|j: int| 0 <= j < self.series@.len() ==> (#[trigger] self.series@[j]).1@.len() <= self.capacity
        &&& distinct_keys(self.entries())
    }

    pub fn new(capacity: usize) -> (r: Self)
        ensures
            r.wf(),
            r.capacity_spec() == (if capacity < 1 {
                1
            } else {
                capacity as nat
            }),
            forall|id: SeriesId| #[trigger] r.model()(id) == Seq::<u64>::empty(),
    {
        let capacity: usize = if capacity < 1 {
            1
        } else {
            capacity
        };
        History { series: Vec::new(), capacity }
    }

    /// The position of the last entry with this key, if any.
    fn find(&self, key: &SeriesKey) -> (r: Option<usize>)
        ensures
            match r {
                Some(i) => {
                    &&& i < self.series@.len()
                    &&& self.entries()[i as int].0 == key@
                    &&& forall|j: int| i < j < self.series@.len() ==> (#[trigger] self.entries()[j]).0 != key@
                    &&& lookup(self.entries(), key@) == self.entries()[i as int].1
                },
                None => {
                    &&& lookup(self.entries(), key@) == Seq::<u64>::empty()
                    &&& forall|j: int| 0 <= j < self.series@.len() ==> (#[trigger] self.entries()[j]).0 != key@
                },
            },
    {
        let ghost e = self.entries();
        let mut i: usize = self.series.len();
        assert(e.take(i as int) =~= e);
        while i > 0
            invariant
                i <= self.series@.len(),
                e == self.entries(),
                e.len() == self.series@.len(),
                lookup(e, key@) == lookup(e.take(i as int), key@),
                forall|j: int| i <= j < e.len() ==> (#[trigger] e[j]).0 != key@,
            decreases i,
        {
            assert(e.take(i as int).drop_last() =~= e.take(i - 1));
            assert(e[i - 1] == (self.series@[i - 1].0@, self.series@[i - 1].1@));
            if same_key(&self.series[i - 1].0, key) {
                return Some(i - 1);
            }
            i = i - 1;
        }
        None
    }

    /// Append a value to a series, dropping its oldest value past the capacity; a
    /// missing value is skipped.
    pub fn push(&mut self, key: SeriesKey, value: Option<u64>)
        requires
            old(self).wf(),
        ensures
            final(self).wf(),
            final(self).capacity_spec() == old(self).capacity_spec(),
            final(self).model() == after_push(old(self).model(), key@, value, old(self).capacity_spec()),
    {
        let v = match value {
            Some(v) => v,
            None => {
                assert(self.model() =~= after_push(self.model(), key@, value, self.capacity_spec()));
                return ;
            },
        };
        let ghost old_entries = self.entries();
        let ghost kid = key@;
        match self.find(&key) {
            Some(i) => {
                let (_, mut values) = self.series.remove(i);
                assert(values@ == old_entries[i as int].1);
                let ghost grown = values@.push(v);
                values.push(v);
                if values.len() > self.capacity {
                    values.remove(0);
                }
                assert(values@ =~= window(grown, self.capacity as nat));
                self.series.insert(i, (key, values));
                proof {
                    assert(self.entries() =~= old_entries.update(i as int, (kid, window(grown, self.capacity as nat))));
                    assert forall|id: SeriesId| #[trigger] self.model()(id) == after_push(
                        old(self).model(),
                        kid,
                        value,
                        self.capacity as nat,
                    )(id) by {
                        lemma_lookup_update(old_entries, i as int, (kid, window(grown, self.capacity as nat)), id);
                    }
                    assert(self.model() =~= after_push(old(self).model(), kid, value, self.capacity as nat));
                }
            },
            None => {
                let mut values: Vec<u64> = Vec::new();
                values.push(v);
                assert(values@ =~= window(Seq::<u64>::empty().push(v), self.capacity as nat));
                self.series.push((key, values));
                proof {
                    assert(self.entries() =~= old_entries.push((kid, seq![v])));
                    assert(self.entries().drop_last() =~= old_entries);
                    assert forall|id: SeriesId| #[trigger] self.model()(id) == after_push(
                        old(self).model(),
                        kid,
                        value,
                        self.capacity as nat,
                    )(id) by {}
                    assert(self.model() =~= after_push(old(self).model(), kid, value, self.capacity as nat));
                }
            },
        }
    }

    /// The values of a series, oldest first.
    pub fn series(&self, key: &SeriesKey) -> (r: Vec<u64>)
        ensures
            r@ == self.model()(key@),
    {
        match self.find(key) {
            Some(i) => {
                let values = &self.series[i].1;
                let mut r: Vec<u64> = Vec::new();
                let mut k: usize = 0;
                while k < values.len()
                    invariant
                        k <= values@.len(),
                        r@ == values@.take(k as int),
                    decreases values@.len() - k,
                {
                    r.push(values[k]);
                    k = k + 1;
                    assert(r@ =~= values@.take(k as int));
                }
                assert(values@.take(k as int) =~= values@);
                r
            },
            None => Vec::new(),
        }
    }

    /// How many values a series holds.
    pub fn len(&self, key: &SeriesKey) -> (r: usize)
        ensures
            r == self.model()(key@).len(),
    {
        match self.find(key) {
            Some(i) => self.series[i].1.len(),
            None => 0,
        }
    }

    /// Drop the series of interfaces that are no longer reported.
    fn retain_interfaces(&mut self, interfaces: &Vec<InterfaceSample>)
        requires
            old(self).wf(),
        ensures
            final(self).wf(),
            final(self).capacity_spec() == old(self).capacity_spec(),
            forall|id: SeriesId| #[trigger] final(self).model()(id) == (if kept(id, interfaces@) {
                old(self).model()(id)
            } else {
                Seq::<u64>::empty()
            }),
    {
        let ghost o = self.entries();
        let ghost m: int = 0;
        let mut i: usize = 0;
        while i < self.series.len()
            invariant
                0 <= m <= o.len(),
                self.entries() == kept_entries(o.take(m), interfaces@) + o.skip(m),
                i == kept_entries(o.take(m), interfaces@).len(),
                i <= self.series@.len(),
                self.series@.len() == i + (o.len() - m),
                self.capacity == old(self).capacity,
                o == old(self).entries(),
                forall|j: int| 0 <= j < o.len() ==> (#[trigger] o[j]).1.len() <= self.capacity,
            decreases o.len() - m,
        {
            assert(o.take(m + 1).drop_last() =~= o.take(m));
            assert(o.take(m + 1).last() == o[m]);
            assert(self.entries()[i as int] == o[m]);
            if self.is_kept(&self.series[i].0, interfaces) {
                proof {
                    assert(kept_entries(o.take(m + 1), interfaces@) == kept_entries(o.take(m), interfaces@).push(
                        o[m],
                    ));
                    assert(self.entries() =~= kept_entries(o.take(m + 1), interfaces@) + o.skip(m + 1));
                    m = m + 1;
                }
                i = i + 1;
            } else {
                let ghost before = self.entries();
                self.series.remove(i);
                proof {
                    assert(kept_entries(o.take(m + 1), interfaces@) == kept_entries(o.take(m), interfaces@));
                    assert(self.entries() =~= before.remove(i as int));
                    assert(self.entries() =~= kept_entries(o.take(m + 1), interfaces@) + o.skip(m + 1));
                    m = m + 1;
                }
            }
        }
        proof {
            assert(o.take(m) =~= o);
            assert(o.skip(m) =~= Seq::<(SeriesId, Seq<u64>)>::empty());
            assert(self.entries() =~= kept_entries(o, interfaces@));
            lemma_kept_bounded(o, interfaces@, self.capacity as nat);
            lemma_kept_distinct(o, interfaces@);
            assert forall|j: int| 0 <= j < self.series@.len() implies (#[trigger] self.series@[j]).1@.len()
                <= self.capacity by {
                assert(self.entries()[j] == (self.series@[j].0@, self.series@[j].1@));
            }
            assert forall|id: SeriesId| #[trigger] self.model()(id) == (if kept(id, interfaces@) {
                old(self).model()(id)
            } else {
                Seq::<u64>::empty()
            }) by {
                lemma_lookup_kept(o, interfaces@, id);
            }
        }
    }

    /// Whether a series' metric is still reported.
    fn is_kept(&self, key: &SeriesKey, interfaces: &Vec<InterfaceSample>) -> (r: bool)
        ensures
            r == kept(key@, interfaces@),
    {
        match key {
            SeriesKey::NetRx(name) => has_interface(name, interfaces),
            SeriesKey::NetTx(name) => has_interface(name, interfaces),
            _ => true,
        }
    }

    /// Record one sample per series, then forget the series of interfaces that are
    /// gone.
    pub fn record(&mut self, sample: &HistorySample)
        requires
            old(self).wf(),
        ensures
            final(self).wf(),
            final(self).capacity_spec() == old(self).capacity_spec(),
            final(self).model() == after_record(old(self).model(), *sample, old(self).capacity_spec()),
    {
        let ghost cap = self.capacity_spec();
        self.push(SeriesKey::Cpu, sample.cpu);
        self.push(SeriesKey::Memory, sample.memory);
        self.push(SeriesKey::Disk, sample.disk);
        let ghost base = self.model();
        let mut i: usize = 0;
        assert(sample.interfaces@.take(0) =~= Seq::<InterfaceSample>::empty());
        while i < sample.interfaces.len()
            invariant
                i <= sample.interfaces@.len(),
                self.wf(),
                self.capacity_spec() == cap,
                self.model() == after_interfaces(base, sample.interfaces@.take(i as int), cap),
            decreases sample.interfaces@.len() - i,
        {
            let rx_key = SeriesKey::NetRx(sample.interfaces[i].name.clone());
            self.push(rx_key, sample.interfaces[i].rx);
            let tx_key = SeriesKey::NetTx(sample.interfaces[i].name.clone());
            self.push(tx_key, sample.interfaces[i].tx);
            assert(sample.interfaces@.take(i + 1).drop_last() =~= sample.interfaces@.take(i as int));
            i = i + 1;
        }
        assert(sample.interfaces@.take(i as int) =~= sample.interfaces@);
        let ghost pushed = self.model();
        self.retain_interfaces(&sample.interfaces);
        assert(self.model() =~= after_record(old(self).model(), *sample, cap));
    }
}

proof fn lemma_lookup_is_an_entry(entries: Seq<(SeriesId, Seq<u64>)>, id: SeriesId)
    ensures
        lookup(entries, id).len() == 0 || exists|j: int|
            0 <= j < entries.len() && (#[trigger] entries[j]).1 == lookup(entries, id),
    decreases entries.len(),
{
    if entries.len() > 0 {
        let d = entries.drop_last();
        lemma_lookup_is_an_entry(d, id);
        if entries.last().0 != id && lookup(d, id).len() > 0 {
            let j = choose|j: int| 0 <= j < d.len() && (#[trigger] d[j]).1 == lookup(d, id);
            assert(entries[j] == d[j]);
        } else if entries.last().0 == id {
            assert(entries[entries.len() - 1] == entries.last());
        }
    }
}

/// No series ever holds more values than the history's capacity.
pub proof fn lemma_series_bounded(h: History, id: SeriesId)
    requires
        h.wf(),
    ensures
        h.model()(id).len() <= h.capacity_spec(),
{
    lemma_lookup_is_an_entry(h.entries(), id);
    if h.model()(id).len() > 0 {
        let j = choose|j: int| 0 <= j < h.entries().len() && (#[trigger] h.entries()[j]).1 == lookup(h.entries(), id);
        assert(h.entries()[j] == (h.series@[j].0@, h.series@[j].1@));
    }
}

/// The values that are present, in order.
pub open spec fn present(values: Seq<Option<u64>>) -> Seq<u64>
    decreases values.len(),
{
    if values.len() == 0 {
        Seq::empty()
    } else {
        let rest = present(values.drop_last());
        match values.last() {
            Some(v) => rest.push(v),
            None => rest,
        }
    }
}

/// Each history after the first is what `push` makes of the one before with the next
/// value for `key`.
pub open spec fn pushed_in_turn(hs: Seq<History>, key: SeriesId, values: Seq<Option<u64>>) -> bool {
    &&& hs.len() == values.len() + 1
    &&& forall|i: int|
        0 <= i < values.len() ==> {
            &&& (#[trigger] hs[i + 1]).wf()
            &&& hs[i + 1].capacity_spec() == hs[i].capacity_spec()
            &&& hs[i + 1].model() == after_push(hs[i].model(), key, values[i], hs[i].capacity_spec())
        }
}

proof fn lemma_window_push(s: Seq<u64>, v: u64, cap: nat)
    requires
        cap >= 1,
    ensures
        window(window(s, cap).push(v), cap) == window(s.push(v), cap),
{
    assert(window(window(s, cap).push(v), cap) =~= window(s.push(v), cap));
}

/// Pushing values to one series, one call at a time, leaves that series holding the
/// last `capacity` of what it held followed by the present values, oldest first; every
/// other series, the capacity and well-formedness stay, and no series ever holds more
/// than the capacity.
pub proof fn lemma_pushes_keep_latest(hs: Seq<History>, key: SeriesId, values: Seq<Option<u64>>)
    requires
        hs.len() >= 1,
        hs[0].wf(),
        pushed_in_turn(hs, key, values),
    ensures
        hs.last().wf(),
        hs.last().capacity_spec() == hs[0].capacity_spec(),
        hs.last().model()(key) == window(hs[0].model()(key) + present(values), hs[0].capacity_spec()),
        forall|id: SeriesId| id != key ==> #[trigger] hs.last().model()(id) == hs[0].model()(id),
        forall|id: SeriesId| #[trigger] hs.last().model()(id).len() <= hs[0].capacity_spec(),
    decreases values.len(),
{
    let cap = hs[0].capacity_spec();
    lemma_series_bounded(hs[0], key);
    if values.len() == 0 {
        assert(hs[0].model()(key) + present(values) =~= hs[0].model()(key));
        assert forall|id: SeriesId| #[trigger] hs.last().model()(id).len() <= cap by {
            lemma_series_bounded(hs.last(), id);
        }
    } else {
        let n = values.len() - 1;
        let front = hs.drop_last();
        assert forall|i: int| 0 <= i < values.drop_last().len() implies {
            &&& (#[trigger] front[i + 1]).wf()
            &&& front[i + 1].capacity_spec() == front[i].capacity_spec()
            &&& front[i + 1].model() == after_push(front[i].model(), key, values.drop_last()[i], front[i].capacity_spec())
        } by {
            assert(front[i + 1] == hs[i + 1]);
            assert(front[i] == hs[i]);
        }
        lemma_pushes_keep_latest(front, key, values.drop_last());
        assert(front.last() == hs[n]);
        assert(hs[n + 1] == hs.last());
        let before = hs[0].model()(key) + present(values.drop_last());
        match values.last() {
            Some(v) => {
                lemma_window_push(before, v, cap);
                assert(before.push(v) =~= hs[0].model()(key) + present(values));
            },
            None => {
                assert(hs[0].model()(key) + present(values) =~= before);
            },
        }
        assert forall|id: SeriesId| #[trigger] hs.last().model()(id).len() <= cap by {
            lemma_series_bounded(hs.last(), id);
        }
    }
}

/// A history made by `new(c)` and given `n` present values for one series holds the
/// last of them, `min(n, max(c, 1))` values, oldest first.
pub proof fn lemma_new_then_pushes(hs: Seq<History>, c: usize, key: SeriesId, values: Seq<Option<u64>>)
    requires
        hs.len() >= 1,
        hs[0].wf(),
        hs[0].capacity_spec() == (if c < 1 { 1 } else { c as nat }),
        forall|id: SeriesId| #[trigger] hs[0].model()(id) == Seq::<u64>::empty(),
        pushed_in_turn(hs, key, values),
    ensures
        hs.last().model()(key) == window(present(values), if c < 1 { 1 } else { c as nat }),
        hs.last().model()(key).len() == (if present(values).len() < (if c < 1 { 1 } else { c as nat }) {
            present(values).len()
        } else {
            if c < 1 { 1 } else { c as nat }
        }),
{
    lemma_pushes_keep_latest(hs, key, values);
    assert(hs[0].model()(key) + present(values) =~= present(values));
}

/// Each history after the first keeps the one before's capacity and well-formedness,
/// as `push` and `record` both do.
pub open spec fn capacity_kept(hs: Seq<History>) -> bool {
    forall|i: int|
        0 <= i < hs.len() - 1 ==> {
            &&& (#[trigger] hs[i + 1]).wf()
            &&& hs[i + 1].capacity_spec() == hs[i].capacity_spec()
        }
}

/// Whatever mix of `push` and `record` calls follows `new(c)`, no series ever holds more
/// than `max(c, 1)` values.
pub proof fn lemma_series_stay_within_new_capacity(hs: Seq<History>, c: usize, i: int, id: SeriesId)
    requires
        hs.len() >= 1,
        hs[0].wf(),
        hs[0].capacity_spec() == (if c < 1 { 1 } else { c as nat }),
        capacity_kept(hs),
        0 <= i < hs.len(),
    ensures
        hs[i].capacity_spec() == (if c < 1 { 1 } else { c as nat }),
        hs[i].model()(id).len() <= (if c < 1 { 1 } else { c as nat }),
    decreases i,
{
    if i > 0 {
        lemma_series_stay_within_new_capacity(hs, c, i - 1, id);
        assert(hs[(i - 1) + 1] == hs[i]);
    }
    lemma_series_bounded(hs[i], id);
}

} // verus!
