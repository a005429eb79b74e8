//! Process records, the two-step process actions, and process filtering and sorting.
use vstd::prelude::*;

use crate::text::{
    chars_of, contains_chars, has_substring, lowercase, string_of, to_lowercase, trim_chars,
    trimmed,
};

verus! {

/// Stable process identity for distinguishing PID reuse across process lifetimes.
#[derive(Clone, Copy, Debug, PartialEq, Eq, Hash, Structural)]
pub struct ProcessIdentity {
    pub pid: u32,
    pub start_time: u64,
}

#[derive(Clone, Copy, Debug, PartialEq, Eq, Structural)]
pub enum ActionKind {
    Terminate,
    Kill,
}

/// A signal the user asked for and has not yet confirmed.
#[derive(Clone, Copy, Debug, PartialEq, Eq, Structural)]
pub struct PendingAction {
    identity: ProcessIdentity,
    kind: ActionKind,
}

/// A signal the user confirmed; only this can be executed.
#[derive(Clone, Copy, Debug, PartialEq, Eq, Structural)]
pub struct ConfirmedAction {
    identity: ProcessIdentity,
    kind: ActionKind,
}

/// A signal the user turned down; it carries no way to execute it.
#[derive(Clone, Copy, Debug, PartialEq, Eq, Structural)]
pub struct CancelledAction {
    identity: ProcessIdentity,
    kind: ActionKind,
}

impl PendingAction {
    pub closed spec fn identity_spec(self) -> ProcessIdentity {
        self.identity
    }

    pub closed spec fn kind_spec(self) -> ActionKind {
        self.kind
    }

    pub fn new(identity: ProcessIdentity, kind: ActionKind) -> (r: Self)
        ensures
            r.identity_spec() == identity,
            r.kind_spec() == kind,
    {
        PendingAction { identity, kind }
    }

    pub fn identity(&self) -> (r: ProcessIdentity)
        ensures
            r == self.identity_spec(),
    {
        self.identity
    }

    pub fn kind(&self) -> (r: ActionKind)
        ensures
            r == self.kind_spec(),
    {
        self.kind
    }

    /// The confirmed form of this action.
    pub closed spec fn confirm_spec(self) -> ConfirmedAction {
        ConfirmedAction { identity: self.identity, kind: self.kind }
    }

    /// The explicit confirmation step: the same target and signal, now executable.
    pub fn confirm(self) -> (r: ConfirmedAction)
        ensures
            r == self.confirm_spec(),
            r.identity_spec() == self.identity_spec(),
            r.kind_spec() == self.kind_spec(),
    {
        ConfirmedAction { identity: self.identity, kind: self.kind }
    }

    pub fn cancel(self) -> (r: CancelledAction)
        ensures
            r.identity_spec() == self.identity_spec(),
            r.kind_spec() == self.kind_spec(),
    {
        CancelledAction { identity: self.identity, kind: self.kind }
    }
}

/// Confirming keeps the target and the signal: the confirmed action is for the pending
/// action's process and sends its signal.
pub proof fn lemma_confirm_keeps_target(p: PendingAction)
    ensures
        p.confirm_spec().identity_spec() == p.identity_spec(),
        p.confirm_spec().kind_spec() == p.kind_spec(),
{
}

impl ConfirmedAction {
    pub closed spec fn identity_spec(self) -> ProcessIdentity {
        self.identity
    }

    pub closed spec fn kind_spec(self) -> ActionKind {
        self.kind
    }

    pub fn identity(&self) -> (r: ProcessIdentity)
        ensures
            r == self.identity_spec(),
    {
        self.identity
    }

    pub fn kind(&self) -> (r: ActionKind)
        ensures
            r == self.kind_spec(),
    {
        self.kind
    }
}

impl CancelledAction {
    pub closed spec fn identity_spec(self) -> ProcessIdentity {
        self.identity
    }

    pub closed spec fn kind_spec(self) -> ActionKind {
        self.kind
    }

    pub fn identity(&self) -> (r: ProcessIdentity)
        ensures
            r == self.identity_spec(),
    {
        self.identity
    }

    pub fn kind(&self) -> (r: ActionKind)
        ensures
            r == self.kind_spec(),
    {
        self.kind
    }
}

/// An `f64` measurement, held by its IEEE-754 bit pattern (`f64::to_bits`).
#[derive(Clone, Copy, Debug, PartialEq, Eq, Hash, Structural)]
pub struct Float64(pub u64);

/// An `f32` measurement, held by its IEEE-754 bit pattern (`f32::to_bits`).
#[derive(Clone, Copy, Debug, PartialEq, Eq, Hash, Structural)]
pub struct Float32(pub u32);

/// Per-process network traffic over one measurement interval: the bytes received and
/// sent during `elapsed_nanos` nanoseconds. The rate in bytes per second is
/// `bytes * 1e9 / elapsed_nanos`.
#[derive(Clone, Copy, Debug, PartialEq, Eq, Structural)]
pub struct TrafficRate {
    pub rx_bytes: u64,
    pub tx_bytes: u64,
    pub elapsed_nanos: u64,
}

/// Process data captured during one collection cycle.
#[derive(Clone, Debug, PartialEq)]
pub struct ProcessInfo {
    pub identity: ProcessIdentity,
    pub name: String,
    pub command: String,
    /// The CPU share in percent.
    pub cpu_percent: Option<Float32>,
    pub memory_bytes: Option<u64>,
    pub user: Option<String>,
    pub status: Option<String>,
    pub traffic: Option<TrafficRate>,
}

fn copy_optional_string(s: &Option<String>) -> (r: Option<String>)
    ensures
        r == *s,
{
    match s {
        Some(text) => Some(text.clone()),
        None => None,
    }
}

impl ProcessInfo {
    /// A field-by-field copy.
    pub fn duplicate(&self) -> (r: Self)
        ensures
            r == *self,
    {
        ProcessInfo {
            identity: self.identity,
            name: self.name.clone(),
            command: self.command.clone(),
            cpu_percent: self.cpu_percent,
            memory_bytes: self.memory_bytes,
            user: copy_optional_string(&self.user),
            status: copy_optional_string(&self.status),
            traffic: self.traffic,
        }
    }
}

#[derive(Clone, Copy, Debug, PartialEq, Eq, Structural)]
pub enum SortMode {
    Cpu,
    Memory,
}

#[derive(Clone, Copy, Debug, PartialEq, Eq, Structural)]
pub enum AppMode {
    Dashboard,
    ProcessDetail,
    Filtering,
    ConfirmingAction,
}

/// The position of an `f32` with these bits in `f32::total_cmp`'s order: negative
/// values, from the most negative, then positive values, ascending.
pub open spec fn f32_order_key(bits: u32) -> int {
    if bits < 0x8000_0000 {
        bits as int
    } else {
        0x7fff_ffff - bits
    }
}

pub fn f32_total_key(bits: u32) -> (r: i64)
    ensures
        r == f32_order_key(bits),
{
    if bits < 0x8000_0000 {
        bits as i64
    } else {
        0x7fff_ffff_i64 - bits as i64
    }
}

/// Rank of an optional measurement for a descending sort that puts missing values
/// last: `(group, value)`, compared in ascending order.
pub open spec fn optional_rank(key: Option<int>) -> (int, int) {
    match key {
        Some(k) => (0, -k),
        None => (1, 0),
    }
}

/// The resource rank a process sorts by in `mode`.
pub open spec fn resource_rank(p: ProcessInfo, mode: SortMode) -> (int, int) {
    match mode {
        SortMode::Cpu => optional_rank(
            match p.cpu_percent {
                Some(b) => Some(f32_order_key(b.0)),
                None => None,
            },
        ),
        SortMode::Memory => optional_rank(
            match p.memory_bytes {
                Some(m) => Some(m as int),
                None => None,
            },
        ),
    }
}

/// `a` may come before `b`: higher resource first, missing measurements last, then by PID.
pub open spec fn process_le(a: ProcessInfo, b: ProcessInfo, mode: SortMode) -> bool {
    let ra = resource_rank(a, mode);
    let rb = resource_rank(b, mode);
    ||| ra.0 < rb.0
    ||| ra.0 == rb.0 && ra.1 < rb.1
    ||| ra.0 == rb.0 && ra.1 == rb.1 && a.identity.pid <= b.identity.pid
}

/// Every process may come before each one after it.
pub open spec fn sorted_for(s: Seq<ProcessInfo>, mode: SortMode) -> bool {
    forall|i: int, j: int| 0 <= i < j < s.len() ==> process_le(#[trigger] s[i], #[trigger] s[j], mode)
}

pub open spec fn optional_desc_order(left: Option<int>, right: Option<int>) -> std::cmp::Ordering {
    match (left, right) {
        (Some(l), Some(r)) => if r < l {
            std::cmp::Ordering::Less
        } else if r == l {
            std::cmp::Ordering::Equal
        } else {
            std::cmp::Ordering::Greater
        },
        (Some(_), None) => std::cmp::Ordering::Less,
        (None, Some(_)) => std::cmp::Ordering::Greater,
        (None, None) => std::cmp::Ordering::Equal,
    }
}

pub open spec fn some_f32_key(v: Option<Float32>) -> Option<int> {
    match v {
        Some(b) => Some(f32_order_key(b.0)),
        None => None,
    }
}

pub open spec fn some_u64(v: Option<u64>) -> Option<int> {
    match v {
        Some(m) => Some(m as int),
        None => None,
    }
}

fn optional_f32_key(v: Option<Float32>) -> (r: Option<i64>)
    ensures
        match r {
            Some(k) => some_f32_key(v) == Some(k as int),
            None => some_f32_key(v) is None,
        },
{
    match v {
        Some(b) => Some(f32_total_key(b.0)),
        None => None,
    }
}

/// Descending order of optional CPU shares (given as `f32` bits), missing values last.
fn compare_optional_f32_desc(left: Option<Float32>, right: Option<Float32>) -> (r: std::cmp::Ordering)
    ensures
        r == optional_desc_order(some_f32_key(left), some_f32_key(right)),
{
    let l = optional_f32_key(left);
    let k = optional_f32_key(right);
    match (l, k) {
        (Some(a), Some(b)) => if b < a {
            std::cmp::Ordering::Less
        } else if b == a {
            std::cmp::Ordering::Equal
        } else {
            std::cmp::Ordering::Greater
        },
        (Some(_), None) => std::cmp::Ordering::Less,
        (None, Some(_)) => std::cmp::Ordering::Greater,
        (None, None) => std::cmp::Ordering::Equal,
    }
}

/// Descending order of optional byte counts, missing values last.
fn compare_optional_u64_desc(left: Option<u64>, right: Option<u64>) -> (r: std::cmp::Ordering)
    ensures
        r == optional_desc_order(some_u64(left), some_u64(right)),
{
    match (left, right) {
        (Some(l), Some(k)) => if k < l {
            std::cmp::Ordering::Less
        } else if k == l {
            std::cmp::Ordering::Equal
        } else {
            std::cmp::Ordering::Greater
        },
        (Some(_), None) => std::cmp::Ordering::Less,
        (None, Some(_)) => std::cmp::Ordering::Greater,
        (None, None) => std::cmp::Ordering::Equal,
    }
}

/// Whether `a` may come before `b` in `mode`.
fn process_before_or_equal(a: &ProcessInfo, b: &ProcessInfo, mode: SortMode) -> (r: bool)
    ensures
        r == process_le(*a, *b, mode),
{
    let order = match mode {
        SortMode::Cpu => compare_optional_f32_desc(a.cpu_percent, b.cpu_percent),
        SortMode::Memory => compare_optional_u64_desc(a.memory_bytes, b.memory_bytes),
    };
    match order {
        std::cmp::Ordering::Less => true,
        std::cmp::Ordering::Greater => false,
        std::cmp::Ordering::Equal => a.identity.pid <= b.identity.pid,
    }
}

proof fn lemma_process_le_total(a: ProcessInfo, b: ProcessInfo, mode: SortMode)
    ensures
        process_le(a, b, mode) || process_le(b, a, mode),
{
}

proof fn lemma_process_le_transitive(a: ProcessInfo, b: ProcessInfo, c: ProcessInfo, mode: SortMode)
    requires
        process_le(a, b, mode),
        process_le(b, c, mode),
    ensures
        process_le(a, c, mode),
{
}

/// The first position at or after `i` before which `x` may stand, or the length.
pub open spec fn first_le_from(s: Seq<ProcessInfo>, x: ProcessInfo, mode: SortMode, i: int) -> int
    decreases s.len() - i,
{
    if i >= s.len() || i < 0 {
        s.len() as int
    } else if process_le(x, s[i], mode) {
        i
    } else {
        first_le_from(s, x, mode, i + 1)
    }
}

/// `s` sorted by insertion from its last element to its first, each element going
/// before the first one it may precede: a stable sort.
pub open spec fn sorted_seq(s: Seq<ProcessInfo>, mode: SortMode) -> Seq<ProcessInfo>
    decreases s.len(),
{
    if s.len() == 0 {
        Seq::empty()
    } else {
        let rest = sorted_seq(s.drop_first(), mode);
        rest.insert(first_le_from(rest, s[0], mode, 0), s[0])
    }
}

proof fn lemma_first_le_from_range(s: Seq<ProcessInfo>, x: ProcessInfo, mode: SortMode, i: int)
    requires
        0 <= i <= s.len(),
    ensures
        i <= first_le_from(s, x, mode, i) <= s.len(),
    decreases s.len() - i,
{
    if i < s.len() && !process_le(x, s[i], mode) {
        lemma_first_le_from_range(s, x, mode, i + 1);
    }
}

/// Sorting keeps the number of processes.
pub proof fn lemma_sorted_seq_len(s: Seq<ProcessInfo>, mode: SortMode)
    ensures
        sorted_seq(s, mode).len() == s.len(),
    decreases s.len(),
{
    if s.len() > 0 {
        lemma_sorted_seq_len(s.drop_first(), mode);
        lemma_first_le_from_range(sorted_seq(s.drop_first(), mode), s[0], mode, 0);
    }
}

/// The first place in `sorted` before which `x` may stand.
fn insertion_point(sorted: &Vec<ProcessInfo>, x: &ProcessInfo, mode: SortMode) -> (r: usize)
    ensures
        r <= sorted@.len(),
        r == first_le_from(sorted@, *x, mode, 0),
        forall|k: int| 0 <= k < r ==> !process_le(*x, #[trigger] sorted@[k], mode),
        r < sorted@.len() ==> process_le(*x, sorted@[r as int], mode),
{
    let mut i: usize = 0;
    while i < sorted.len()
        invariant
            i <= sorted@.len(),
            forall|k: int| 0 <= k < i ==> !process_le(*x, #[trigger] sorted@[k], mode),
            first_le_from(sorted@, *x, mode, 0) == first_le_from(sorted@, *x, mode, i as int),
        decreases sorted@.len() - i,
    {
        if process_before_or_equal(x, &sorted[i], mode) {
            return i;
        }
        i = i + 1;
    }
    i
}

/// Sort processes by the selected resource, highest first, then by PID.
/// Missing measurements sort after available values.
pub fn sort_processes(processes: &mut Vec<ProcessInfo>, mode: SortMode)
    ensures
        final(processes)@ == sorted_seq(old(processes)@, mode),
        final(processes)@.to_multiset() == old(processes)@.to_multiset(),
        sorted_for(final(processes)@, mode),
{
    broadcast use vstd::seq_lib::group_to_multiset_ensures, vstd::seq_lib::to_multiset_insert,
        vstd::multiset::group_multiset_axioms;

    let ghost original = processes@;
    let mut rest: Vec<ProcessInfo> = Vec::new();
    std::mem::swap(&mut rest, processes);
    let mut sorted: Vec<ProcessInfo> = Vec::new();
    while rest.len() > 0
        invariant
            sorted@.to_multiset().add(rest@.to_multiset()) == original.to_multiset(),
            sorted_for(sorted@, mode),
            rest@.len() <= original.len(),
            rest@ == original.take(rest@.len() as int),
            sorted@ == sorted_seq(original.skip(rest@.len() as int), mode),
        decreases rest@.len(),
    {
        let ghost before_rest = rest@;
        let ghost before_sorted = sorted@;
        let x = rest.pop().unwrap();
        assert(before_rest == rest@.push(x));
        let p = insertion_point(&sorted, &x, mode);
        sorted.insert(p, x);
        proof {
            let m = rest@.len() as int;
            assert(original.skip(m).drop_first() =~= original.skip(m + 1));
            assert(original.skip(m)[0] == original[m]);
            assert(x == original[m]);
            assert(rest@ =~= original.take(m));
            assert(sorted@ == before_sorted.insert(p as int, x));
            vstd::seq_lib::to_multiset_insert(before_sorted, p as int, x);
            assert(sorted@.to_multiset() == before_sorted.to_multiset().insert(x));
            rest@.to_multiset_ensures();
            assert(before_rest.to_multiset() == rest@.to_multiset().insert(x));
            assert(sorted@.to_multiset().add(rest@.to_multiset()) =~= before_sorted.to_multiset().add(
                before_rest.to_multiset(),
            ));
            assert forall|i: int, j: int| 0 <= i < j < sorted@.len() implies process_le(
                #[trigger] sorted@[i],
                #[trigger] sorted@[j],
                mode,
            ) by {
                let pi = p as int;
                if i < pi && j < pi {
                    assert(sorted@[i] == before_sorted[i] && sorted@[j] == before_sorted[j]);
                } else if i < pi && j == pi {
                    lemma_process_le_total(before_sorted[i], x, mode);
                } else if i < pi && j > pi {
                    assert(sorted@[i] == before_sorted[i] && sorted@[j] == before_sorted[j - 1]);
                } else if i == pi {
                    assert(sorted@[j] == before_sorted[j - 1]);
                    if j - 1 > pi {
                        lemma_process_le_transitive(x, before_sorted[pi], before_sorted[j - 1], mode);
                    }
                } else {
                    assert(sorted@[i] == before_sorted[i - 1] && sorted@[j] == before_sorted[j - 1]);
                }
            }
        }
    }
    proof {
        assert(rest@ =~= Seq::<ProcessInfo>::empty());
        assert(original.skip(0) =~= original);
        assert(sorted@.to_multiset() =~= original.to_multiset());
    }
    *processes = sorted;
}

/// A process matches a query when its lowercased name or command contains the
/// lowercased query.
pub open spec fn process_matches_spec(p: ProcessInfo, query: Seq<char>) -> bool {
    has_substring(lowercase(p.name@), lowercase(query)) || has_substring(
        lowercase(p.command@),
        lowercase(query),
    )
}

/// The processes of `ps` that match `query`, in order.
pub open spec fn matching(ps: Seq<ProcessInfo>, query: Seq<char>) -> Seq<ProcessInfo>
    decreases ps.len(),
{
    if ps.len() == 0 {
        Seq::empty()
    } else {
        let rest = matching(ps.drop_last(), query);
        if process_matches_spec(ps.last(), query) {
            rest.push(ps.last())
        } else {
            rest
        }
    }
}

/// What `filter_processes` keeps: everything for a blank query, else the matches of
/// the trimmed query.
pub open spec fn filtered(ps: Seq<ProcessInfo>, query: Seq<char>) -> Seq<ProcessInfo> {
    if trimmed(query).len() == 0 {
        ps
    } else {
        matching(ps, trimmed(query))
    }
}

/// Whether a process whose lowercased name and command are given matches a lowercased query.
pub fn process_matches(name_lower: &str, command_lower: &str, query_lower: &str) -> (r: bool)
    ensures
        r == (has_substring(name_lower@, query_lower@) || has_substring(
            command_lower@,
            query_lower@,
        )),
{
    let query = chars_of(query_lower);
    let name = chars_of(name_lower);
    if contains_chars(&name, &query) {
        return true;
    }
    let command = chars_of(command_lower);
    contains_chars(&command, &query)
}

/// Return processes whose name or command contains `query`, ignoring case.
/// An empty or whitespace-only query returns every process.
pub fn filter_processes(processes: &[ProcessInfo], query: &str) -> (r: Vec<ProcessInfo>)
    ensures
        r@ == filtered(processes@, query@),
{
    let trimmed_query = trim_chars(&chars_of(query));
    let mut result: Vec<ProcessInfo> = Vec::new();
    if trimmed_query.len() == 0 {
        let mut i: usize = 0;
        while i < processes.len()
            invariant
                i <= processes@.len(),
                result@ == processes@.take(i as int),
            decreases processes@.len() - i,
        {
            result.push(processes[i].duplicate());
            assert(processes@.take(i + 1) == processes@.take(i as int).push(processes@[i as int]));
            i = i + 1;
        }
        assert(processes@.take(processes@.len() as int) == processes@);
        return result;
    }
    let query_lower = to_lowercase(string_of(&trimmed_query).as_str());
    let mut i: usize = 0;
    while i < processes.len()
        invariant
            i <= processes@.len(),
            trimmed_query@ == trimmed(query@),
            query_lower@ == lowercase(trimmed(query@)),
            result@ == matching(processes@.take(i as int), trimmed(query@)),
        decreases processes@.len() - i,
    {
        let process = &processes[i];
        let name_lower = to_lowercase(process.name.as_str());
        let command_lower = to_lowercase(process.command.as_str());
        let keep = process_matches(name_lower.as_str(), command_lower.as_str(), query_lower.as_str());
        assert(processes@.take(i + 1).drop_last() == processes@.take(i as int));
        if keep {
            result.push(process.duplicate());
        }
        i = i + 1;
    }
    assert(processes@.take(processes@.len() as int) == processes@);
    result
}

} // verus!
