//! Per-process network traffic from the CSV stream of `nettop -P -x -L 0`: the line
//! parser, the tracker that turns cumulative counters into per-interval deltas, and the
//! restart bookkeeping of the worker that runs `nettop`.
use vstd::prelude::*;

use std::time::Duration;

use crate::model::TrafficRate;
use crate::state::ProcessTraffic;
use crate::text::{
    chars_of, concat, find_last, parse_unsigned, parsed_unsigned, split_chars,
    split_on, starts_with, suffix_from, trim_chars, trimmed, views_of, is_prefix_chars, last_index,
};

verus! {

/// One process's cumulative byte counters from a `nettop` block.
#[derive(Clone, Copy, Debug, PartialEq, Eq, Structural)]
pub struct NettopRow {
    pub pid: u32,
    pub bytes_in: u64,
    pub bytes_out: u64,
}

/// The position of the first field whose trimmed text is `name`, from `i` on, or the
/// number of fields.
pub open spec fn field_position(fields: Seq<Seq<char>>, name: Seq<char>, i: int) -> int
    decreases fields.len() - i,
{
    if i < 0 || i >= fields.len() {
        fields.len() as int
    } else if trimmed(fields[i]) == name {
        i
    } else {
        field_position(fields, name, i + 1)
    }
}

/// The columns of the received and sent byte counters a header line names.
pub open spec fn header_columns(line: Seq<char>) -> Option<(usize, usize)> {
    let fields = split_on(line, ',');
    let rx = field_position(fields, "bytes_in"@, 0);
    let tx = field_position(fields, "bytes_out"@, 0);
    if rx < fields.len() && tx < fields.len() {
        Some((rx as usize, tx as usize))
    } else {
        None
    }
}

/// The number a field holds, once trimmed, if it parses and is at most `max`.
pub open spec fn field_number(field: Seq<char>, max: int) -> Option<int> {
    parsed_unsigned(trimmed(field), max)
}

/// The row a data line gives with the counters in columns `rx` and `tx`: the PID is
/// what follows the last dot of the second field.
pub open spec fn parse_row(line: Seq<char>, rx: usize, tx: usize) -> Option<NettopRow> {
    let fields = split_on(line, ',');
    if fields.len() < 2 {
        None
    } else {
        match last_index(fields[1], '.') {
            None => None,
            Some(k) => match field_number(fields[1].skip(k + 1), u32::MAX as int) {
                None => None,
                Some(pid) => if rx >= fields.len() {
                    None
                } else {
                    match field_number(fields[rx as int], u64::MAX as int) {
                        None => None,
                        Some(bytes_in) => if tx >= fields.len() {
                            None
                        } else {
                            match field_number(fields[tx as int], u64::MAX as int) {
                                None => None,
                                Some(bytes_out) => Some(
                                    NettopRow {
                                        pid: pid as u32,
                                        bytes_in: bytes_in as u64,
                                        bytes_out: bytes_out as u64,
                                    },
                                ),
                            }
                        },
                    }
                },
            },
        }
    }
}

fn chars_equal(a: &Vec<char>, b: &str) -> (r: bool)
    ensures
        r == (a@ == b@),
{
    let bc = chars_of(b);
    if a.len() != bc.len() {
        return false;
    }
    let mut i: usize = 0;
    while i < a.len()
        invariant
            i <= a@.len(),
            bc@ == b@,
            a@.len() == bc@.len(),
            forall|k: int| 0 <= k < i ==> a@[k] == bc@[k],
        decreases a@.len() - i,
    {
        if a[i] != bc[i] {
            assert(a@[i as int] != bc@[i as int]);
            return false;
        }
        i = i + 1;
    }
    assert(a@ =~= bc@);
    true
}

fn position_of_field(fields: &Vec<Vec<char>>, name: &str) -> (r: usize)
    ensures
        r == field_position(views_of(fields@), name@, 0),
{
    let ghost v = views_of(fields@);
    let mut i: usize = 0;
    while i < fields.len()
        invariant
            i <= fields@.len(),
            v == views_of(fields@),
            field_position(v, name@, 0) == field_position(v, name@, i as int),
        decreases fields@.len() - i,
    {
        assert(v[i as int] == fields@[i as int]@);
        let t = trim_chars(&fields[i]);
        if chars_equal(&t, name) {
            return i;
        }
        i = i + 1;
    }
    i
}

fn field_value(field: &Vec<char>, max: u64) -> (r: Option<u64>)
    requires
        max >= 9,
    ensures
        match r {
            Some(v) => field_number(field@, max as int) == Some(v as int),
            None => field_number(field@, max as int) is None,
        },
{
    parse_unsigned(&trim_chars(field), max)
}

fn parse_data_line(line: &str, rx: usize, tx: usize) -> (r: Option<NettopRow>)
    ensures
        r == parse_row(line@, rx, tx),
{
    let fields = split_chars(&chars_of(line), ',');
    let ghost v = views_of(fields@);
    if fields.len() < 2 {
        return None;
    }
    assert(v[1] == fields@[1]@);
    let dot = match find_last(&fields[1], '.') {
        Some(k) => k,
        None => {
            return None;
        },
    };
    let field_len = fields[1].len();
    let name_tail = suffix_from(&fields[1], dot + 1);
    let pid = match field_value(&name_tail, 0xffff_ffff) {
        Some(p) => p,
        None => {
            return None;
        },
    };
    if rx >= fields.len() {
        return None;
    }
    assert(v[rx as int] == fields@[rx as int]@);
    let bytes_in = match field_value(&fields[rx], u64::MAX) {
        Some(b) => b,
        None => {
            return None;
        },
    };
    if tx >= fields.len() {
        return None;
    }
    assert(v[tx as int] == fields@[tx as int]@);
    let bytes_out = match field_value(&fields[tx], u64::MAX) {
        Some(b) => b,
        None => {
            return None;
        },
    };
    Some(NettopRow { pid: pid as u32, bytes_in, bytes_out })
}

fn parse_header(line: &str) -> (r: Option<(usize, usize)>)
    ensures
        r == header_columns(line@),
{
    let fields = split_chars(&chars_of(line), ',');
    let rx = position_of_field(&fields, "bytes_in");
    let tx = position_of_field(&fields, "bytes_out");
    if rx < fields.len() && tx < fields.len() {
        Some((rx, tx))
    } else {
        None
    }
}

/// A returned block as its rows.
pub open spec fn block_view(r: Option<Vec<NettopRow>>) -> Option<Seq<NettopRow>> {
    match r {
        Some(block) => Some(block@),
        None => None,
    }
}

/// Whether `line` starts a new block.
pub open spec fn is_header(line: Seq<char>) -> bool {
    is_prefix_chars("time,"@, line)
}

/// What `push_line` does: a header takes its columns and hands back the rows gathered
/// since the previous header, if there was one; a data line adds the row it parses to,
/// once the columns are known, and hands back nothing.
pub open spec fn line_pushed(
    old: NettopParser,
    new: NettopParser,
    line: Seq<char>,
    r: Option<Seq<NettopRow>>,
) -> bool {
    &&& is_header(line) ==> {
        &&& new.columns_spec() == header_columns(line)
        &&& new.started_spec()
        &&& if old.started_spec() {
            &&& r == Some(old.current_spec())
            &&& new.current_spec().len() == 0
        } else {
            &&& r is None
            &&& new.current_spec() == old.current_spec()
        }
    }
    &&& !is_header(line) ==> {
        &&& r is None
        &&& new.columns_spec() == old.columns_spec()
        &&& new.started_spec() == old.started_spec()
        &&& new.current_spec() == match old.columns_spec() {
            None => old.current_spec(),
            Some((rx, tx)) => match parse_row(line, rx, tx) {
                Some(row) => old.current_spec().push(row),
                None => old.current_spec(),
            },
        }
    }
}

/// Incremental parser for `nettop -P -x -L 0` CSV output.
#[derive(Debug)]
pub struct NettopParser {
    columns: Option<(usize, usize)>,
    current: Vec<NettopRow>,
    started: bool,
}

impl NettopParser {
    /// The counter columns of the last header, if it named both.
    pub closed spec fn columns_spec(&self) -> Option<(usize, usize)> {
        self.columns
    }

    /// The rows of the block being read.
    pub closed spec fn current_spec(&self) -> Seq<NettopRow> {
        self.current@
    }

    /// Whether a header has been seen.
    pub closed spec fn started_spec(&self) -> bool {
        self.started
    }

    pub fn new() -> (r: Self)
        ensures
            r.columns_spec() is None,
            r.current_spec().len() == 0,
            !r.started_spec(),
    {
        NettopParser { columns: None, current: Vec::new(), started: false }
    }

    /// Feed one line; returns the finished block when the next header starts.
    pub fn push_line(&mut self, line: &str) -> (r: Option<Vec<NettopRow>>)
        ensures
            line_pushed(*old(self), *final(self), line@, block_view(r)),
    {
        if starts_with(line, "time,") {
            self.columns = parse_header(line);
            let finished = if self.started {
                let mut block: Vec<NettopRow> = Vec::new();
                std::mem::swap(&mut block, &mut self.current);
                Some(block)
            } else {
                None
            };
            self.started = true;
            return finished;
        }
        let (rx, tx) = match self.columns {
            Some(c) => c,
            None => {
                return None;
            },
        };
        match parse_data_line(line, rx, tx) {
            Some(row) => self.current.push(row),
            None => {},
        }
        None
    }
}

impl Default for NettopParser {
    fn default() -> (r: Self)
        ensures
            r.columns_spec() is None,
            r.current_spec().len() == 0,
            !r.started_spec(),
    {
        NettopParser::new()
    }
}

/// The last counters reported for a PID, if any.
pub open spec fn counters_for(rows: Seq<NettopRow>, pid: u32) -> Option<NettopRow>
    decreases rows.len(),
{
    if rows.len() == 0 {
        None
    } else if rows.last().pid == pid {
        Some(rows.last())
    } else {
        counters_for(rows.drop_last(), pid)
    }
}

/// The nanoseconds since the previous block, if there was one; zero if the clock went
/// back.
pub open spec fn elapsed_since(previous_at: Option<u64>, now: u64) -> Option<u64> {
    match previous_at {
        Some(at) => Some(
            if now >= at {
                (now - at) as u64
            } else {
                0
            },
        ),
        None => None,
    }
}

/// The traffic a row reports against the previous block: it is reported when its
/// process was in the previous block, time has passed, neither counter went back, and
/// it sent or received something; the rate holds the byte deltas and the time.
pub open spec fn reported(previous: Seq<NettopRow>, elapsed: Option<u64>, row: NettopRow) -> Option<ProcessTraffic> {
    match (counters_for(previous, row.pid), elapsed) {
        (Some(p), Some(e)) => if e > 0 && row.bytes_in >= p.bytes_in && row.bytes_out >= p.bytes_out
            && (row.bytes_in - p.bytes_in) + (row.bytes_out - p.bytes_out) > 0 {
            Some(
                ProcessTraffic {
                    pid: row.pid,
                    rate: TrafficRate {
                        rx_bytes: (row.bytes_in - p.bytes_in) as u64,
                        tx_bytes: (row.bytes_out - p.bytes_out) as u64,
                        elapsed_nanos: e,
                    },
                },
            )
        } else {
            None
        },
        _ => None,
    }
}

/// The traffic of each row against the previous block, in row order, for the rows
/// that report some.
pub open spec fn traffic_between(
    previous: Seq<NettopRow>,
    elapsed: Option<u64>,
    rows: Seq<NettopRow>,
) -> Seq<ProcessTraffic>
    decreases rows.len(),
{
    if rows.len() == 0 {
        Seq::empty()
    } else {
        let rest = traffic_between(previous, elapsed, rows.drop_last());
        match reported(previous, elapsed, rows.last()) {
            Some(t) => rest.push(t),
            None => rest,
        }
    }
}

fn last_counters(rows: &Vec<NettopRow>, pid: u32) -> (r: Option<NettopRow>)
    ensures
        r == counters_for(rows@, pid),
{
    let mut i: usize = rows.len();
    assert(rows@.take(i as int) =~= rows@);
    while i > 0
        invariant
            i <= rows@.len(),
            counters_for(rows@, pid) == counters_for(rows@.take(i as int), pid),
        decreases i,
    {
        assert(rows@.take(i as int).drop_last() =~= rows@.take(i - 1));
        if rows[i - 1].pid == pid {
            return Some(rows[i - 1]);
        }
        i = i - 1;
    }
    None
}

/// Turns cumulative per-process byte counters into per-interval traffic.
#[derive(Debug)]
pub struct TrafficTracker {
    previous: Vec<NettopRow>,
    previous_at: Option<u64>,
}

impl TrafficTracker {
    /// The rows of the previous block.
    pub closed spec fn previous_spec(&self) -> Seq<NettopRow> {
        self.previous@
    }

    /// When the previous block arrived, in nanoseconds on a monotonic clock.
    pub closed spec fn previous_at_spec(&self) -> Option<u64> {
        self.previous_at
    }

    pub fn new() -> (r: Self)
        ensures
            r.previous_spec().len() == 0,
            r.previous_at_spec() is None,
    {
        TrafficTracker { previous: Vec::new(), previous_at: None }
    }

    /// The traffic since the previous block; the rows become the new reference.
    pub fn update(&mut self, rows: &[NettopRow], now: u64) -> (r: Vec<ProcessTraffic>)
        ensures
            r@ == traffic_between(
                old(self).previous_spec(),
                elapsed_since(old(self).previous_at_spec(), now),
                rows@,
            ),
            final(self).previous_spec() == rows@,
            final(self).previous_at_spec() == Some(now),
    {
        let elapsed: Option<u64> = match self.previous_at {
            Some(at) => Some(now.saturating_sub(at)),
            None => None,
        };
        let ghost prev = self.previous@;
        let mut traffic: Vec<ProcessTraffic> = Vec::new();
        let mut i: usize = 0;
        while i < rows.len()
            invariant
                i <= rows@.len(),
                prev == self.previous@,
                elapsed == elapsed_since(self.previous_at, now),
                traffic@ == traffic_between(prev, elapsed, rows@.take(i as int)),
            decreases rows@.len() - i,
        {
            let row = rows[i];
            assert(rows@.take(i + 1).drop_last() =~= rows@.take(i as int));
            assert(rows@.take(i + 1).last() == row);
            match (last_counters(&self.previous, row.pid), elapsed) {
                (Some(p), Some(e)) => {
                    if e > 0 && row.bytes_in >= p.bytes_in && row.bytes_out >= p.bytes_out {
                        let rx = row.bytes_in - p.bytes_in;
                        let tx = row.bytes_out - p.bytes_out;
                        if rx > 0 || tx > 0 {
                            traffic.push(
                                ProcessTraffic {
                                    pid: row.pid,
                                    rate: TrafficRate { rx_bytes: rx, tx_bytes: tx, elapsed_nanos: e },
                                },
                            );
                        }
                    }
                },
                _ => {},
            }
            i = i + 1;
        }
        assert(rows@.take(i as int) =~= rows@);
        let mut kept: Vec<NettopRow> = Vec::new();
        let mut k: usize = 0;
        while k < rows.len()
            invariant
                k <= rows@.len(),
                kept@ == rows@.take(k as int),
            decreases rows@.len() - k,
        {
            kept.push(rows[k]);
            k = k + 1;
            assert(kept@ =~= rows@.take(k as int));
        }
        assert(rows@.take(k as int) =~= rows@);
        self.previous = kept;
        self.previous_at = Some(now);
        traffic
    }
}

impl Default for TrafficTracker {
    fn default() -> (r: Self)
        ensures
            r.previous_spec().len() == 0,
            r.previous_at_spec() is None,
    {
        TrafficTracker::new()
    }
}

/// The duration `Duration::from_secs` makes of a number of whole seconds.
pub uninterp spec fn duration_from_secs(secs: u64) -> Duration;

/// `Duration::from_secs`, made callable here. The one claim is that the duration
/// depends on the seconds alone: it is `duration_from_secs` of them. vstd gives
/// `Duration` no view, so what the duration holds is not stated.
pub assume_specification[ core::time::Duration::from_secs ](secs: u64) -> (r: Duration)
    ensures
        r == duration_from_secs(secs),
;

/// How the traffic worker runs `nettop` and restarts it.
#[derive(Debug)]
pub struct TrafficConfig {
    pub program: String,
    pub args: Vec<String>,
    pub retry_delay: Duration,
    pub max_restarts: u32,
}

impl Default for TrafficConfig {
    /// `/usr/bin/nettop -P -x -L 0 -s 2`, retried after ten seconds, at most three times.
    fn default() -> (r: Self)
        ensures
            r.program@ == "/usr/bin/nettop"@,
            r.args@.len() == 6,
            r.args@[0]@ == "-P"@,
            r.args@[1]@ == "-x"@,
            r.args@[2]@ == "-L"@,
            r.args@[3]@ == "0"@,
            r.args@[4]@ == "-s"@,
            r.args@[5]@ == "2"@,
            r.retry_delay == duration_from_secs(10),
            r.max_restarts == 3,
    {
        let mut args: Vec<String> = Vec::new();
        args.push("-P".to_owned());
        args.push("-x".to_owned());
        args.push("-L".to_owned());
        args.push("0".to_owned());
        args.push("-s".to_owned());
        args.push("2".to_owned());
        TrafficConfig {
            program: "/usr/bin/nettop".to_owned(),
            args,
            retry_delay: Duration::from_secs(10),
            max_restarts: 3,
        }
    }
}

/// The traffic worker's count of consecutive failed runs of `nettop`.
#[derive(Clone, Copy, Debug, Default, PartialEq, Eq)]
pub struct Restarts {
    pub failures: u32,
}

impl Restarts {
    /// A run of `nettop` ended; one that delivered at least one block resets the count.
    pub fn run_ended(&mut self, delivered: bool)
        ensures
            final(self).failures == (if delivered {
                0
            } else {
                old(self).failures
            }),
    {
        if delivered {
            self.failures = 0;
        }
    }

    /// A failure was reported; says whether the worker gives up.
    pub fn failed(&mut self, max_restarts: u32) -> (give_up: bool)
        requires
            old(self).failures < u32::MAX,
        ensures
            final(self).failures == old(self).failures + 1,
            give_up == (final(self).failures > max_restarts),
    {
        self.failures = self.failures + 1;
        self.failures > max_restarts
    }
}

/// The failure reported when a run of `nettop` ends: it exited, or it could not start.
pub fn exit_message(spawn_error: Option<&str>) -> (r: String)
    ensures
        r@ == match spawn_error {
            None => "nettop exited"@,
            Some(e) => "nettop unavailable: "@ + e@,
        },
{
    match spawn_error {
        None => "nettop exited".to_owned(),
        Some(e) => concat("nettop unavailable: ", e),
    }
}

/// The first block, with nothing to compare against, reports no traffic; neither does
/// a block compared against an empty one.
pub proof fn lemma_first_block_reports_nothing(previous: Seq<NettopRow>, elapsed: Option<u64>, rows: Seq<NettopRow>)
    ensures
        traffic_between(previous, None, rows).len() == 0,
        traffic_between(Seq::empty(), elapsed, rows).len() == 0,
    decreases rows.len(),
{
    if rows.len() > 0 {
        lemma_first_block_reports_nothing(previous, elapsed, rows.drop_last());
    }
}

/// The position of the last header among `lines`, or -1.
pub open spec fn last_header(lines: Seq<Seq<char>>) -> int
    decreases lines.len(),
{
    if lines.len() == 0 {
        -1
    } else if is_header(lines.last()) {
        lines.len() - 1
    } else {
        last_header(lines.drop_last())
    }
}

/// The rows that data lines give with the counter columns of their header, in order.
pub open spec fn block_rows(lines: Seq<Seq<char>>, columns: Option<(usize, usize)>) -> Seq<NettopRow>
    decreases lines.len(),
{
    if lines.len() == 0 {
        Seq::empty()
    } else {
        let rest = block_rows(lines.drop_last(), columns);
        match columns {
            None => rest,
            Some((rx, tx)) => match parse_row(lines.last(), rx, tx) {
                Some(row) => rest.push(row),
                None => rest,
            },
        }
    }
}

/// What the parser holds after reading `seen`: nothing before the first header, and
/// after it the last header's columns and the rows of the lines read since.
pub open spec fn parser_after(p: NettopParser, seen: Seq<Seq<char>>) -> bool {
    let h = last_header(seen);
    if h < 0 {
        &&& !p.started_spec()
        &&& p.columns_spec() is None
        &&& p.current_spec().len() == 0
    } else {
        &&& p.started_spec()
        &&& p.columns_spec() == header_columns(seen[h])
        &&& p.current_spec() == block_rows(seen.subrange(h + 1, seen.len() as int), header_columns(seen[h]))
    }
}

/// What the `i`th pushed line hands back: at a header after an earlier one, the rows of
/// the lines between the two; otherwise nothing.
pub open spec fn block_at(lines: Seq<Seq<char>>, i: int) -> Option<Seq<NettopRow>> {
    let h = last_header(lines.take(i));
    if is_header(lines[i]) && h >= 0 {
        Some(block_rows(lines.subrange(h + 1, i), header_columns(lines[h])))
    } else {
        None
    }
}

proof fn lemma_last_header_bounds(lines: Seq<Seq<char>>)
    ensures
        -1 <= last_header(lines) < lines.len(),
    decreases lines.len(),
{
    if lines.len() > 0 {
        lemma_last_header_bounds(lines.drop_last());
    }
}

proof fn lemma_parser_step(p: NettopParser, q: NettopParser, seen: Seq<Seq<char>>, line: Seq<char>, r: Option<Seq<NettopRow>>)
    requires
        parser_after(p, seen),
        line_pushed(p, q, line, r),
    ensures
        parser_after(q, seen.push(line)),
        r == (if is_header(line) && last_header(seen) >= 0 {
            Some(block_rows(seen.subrange(last_header(seen) + 1, seen.len() as int), header_columns(seen[last_header(seen)])))
        } else {
            None
        }),
{
    let s2 = seen.push(line);
    lemma_last_header_bounds(seen);
    assert(s2.drop_last() =~= seen);
    assert(s2.last() == line);
    if is_header(line) {
        assert(s2[seen.len() as int] == line);
        assert(s2.subrange(seen.len() as int + 1, s2.len() as int) =~= Seq::<Seq<char>>::empty());
        assert(last_header(s2) == seen.len());
        assert(q.current_spec() =~= Seq::<NettopRow>::empty());
    } else {
        assert(last_header(s2) == last_header(seen));
        let h = last_header(seen);
        if h >= 0 {
            assert(s2[h] == seen[h]);
            let sub2 = s2.subrange(h + 1, s2.len() as int);
            assert(sub2.drop_last() =~= seen.subrange(h + 1, seen.len() as int));
            assert(sub2.last() == line);
        }
    }
}

/// Fed line by line from a fresh start, the parser hands back, at each header after
/// the first, exactly the rows parsed from the lines since the previous header with that
/// header's columns, in order; every other line gives nothing.
pub proof fn lemma_parser_blocks(ps: Seq<NettopParser>, lines: Seq<Seq<char>>, results: Seq<Option<Seq<NettopRow>>>)
    requires
        ps.len() == lines.len() + 1,
        results.len() == lines.len(),
        ps[0].columns_spec() is None,
        ps[0].current_spec().len() == 0,
        !ps[0].started_spec(),
        forall|i: int| 0 <= i < lines.len() ==> line_pushed(#[trigger] ps[i], ps[i + 1], lines[i], results[i]),
    ensures
        forall|i: int| 0 <= i < lines.len() ==> #[trigger] results[i] == block_at(lines, i),
        parser_after(ps.last(), lines),
    decreases lines.len(),
{
    if lines.len() == 0 {
        assert(parser_after(ps[0], lines));
    } else {
        let n = lines.len() - 1;
        let front = ps.drop_last();
        let fl = lines.drop_last();
        let fr = results.drop_last();
        assert forall|i: int| 0 <= i < fl.len() implies line_pushed(#[trigger] front[i], front[i + 1], fl[i], fr[i]) by {
            assert(line_pushed(ps[i], ps[i + 1], lines[i], results[i]));
        }
        lemma_parser_blocks(front, fl, fr);
        assert(front.last() == ps[n]);
        assert(line_pushed(ps[n], ps[n + 1], lines[n], results[n]));
        lemma_parser_step(ps[n], ps[n + 1], fl, lines[n], results[n]);
        assert(fl.push(lines[n]) =~= lines);
        assert(lines.take(n) =~= fl);
        assert forall|i: int| 0 <= i < lines.len() implies #[trigger] results[i] == block_at(lines, i) by {
            lemma_last_header_bounds(lines.take(i));
            if i < n {
                assert(fr[i] == block_at(fl, i));
                assert(lines.take(i) =~= fl.take(i));
                assert(lines.subrange(last_header(fl.take(i)) + 1, i) =~= fl.subrange(last_header(fl.take(i)) + 1, i));
            } else {
                assert(lines.subrange(last_header(fl) + 1, n) =~= fl.subrange(last_header(fl) + 1, fl.len() as int));
            }
        }
    }
}

/// An update reports exactly the traffic that some row reports against the previous
/// block, and no more entries than there are rows.
pub proof fn lemma_traffic_is_what_rows_report(previous: Seq<NettopRow>, elapsed: Option<u64>, rows: Seq<NettopRow>)
    ensures
        traffic_between(previous, elapsed, rows).len() <= rows.len(),
        forall|x: ProcessTraffic|
            #[trigger] traffic_between(previous, elapsed, rows).contains(x) <==> exists|k: int|
                0 <= k < rows.len() && reported(previous, elapsed, #[trigger] rows[k]) == Some(x),
    decreases rows.len(),
{
    if rows.len() > 0 {
        let d = rows.drop_last();
        lemma_traffic_is_what_rows_report(previous, elapsed, d);
        let rest = traffic_between(previous, elapsed, d);
        let t = traffic_between(previous, elapsed, rows);
        assert forall|x: ProcessTraffic| #[trigger] t.contains(x) <==> exists|k: int|
            0 <= k < rows.len() && reported(previous, elapsed, #[trigger] rows[k]) == Some(x) by {
            if t.contains(x) {
                match reported(previous, elapsed, rows.last()) {
                    Some(y) => {
                        let j = choose|j: int| 0 <= j < t.len() && t[j] == x;
                        if j == t.len() - 1 {
                            assert(rows[rows.len() - 1] == rows.last());
                        } else {
                            assert(rest[j] == x);
                            assert(rest.contains(x));
                            let k = choose|k: int| 0 <= k < d.len() && reported(previous, elapsed, #[trigger] d[k]) == Some(x);
                            assert(rows[k] == d[k]);
                        }
                    },
                    None => {
                        let k = choose|k: int| 0 <= k < d.len() && reported(previous, elapsed, #[trigger] d[k]) == Some(x);
                        assert(rows[k] == d[k]);
                    },
                }
            }
            if exists|k: int| 0 <= k < rows.len() && reported(previous, elapsed, #[trigger] rows[k]) == Some(x) {
                let k = choose|k: int| 0 <= k < rows.len() && reported(previous, elapsed, #[trigger] rows[k]) == Some(x);
                if k == rows.len() - 1 {
                    assert(rows[k] == rows.last());
                    assert(t[t.len() - 1] == x);
                } else {
                    assert(d[k] == rows[k]);
                    assert(rest.contains(x));
                    let j = choose|j: int| 0 <= j < rest.len() && rest[j] == x;
                    match reported(previous, elapsed, rows.last()) {
                        Some(y) => {
                            assert(t[j] == x);
                        },
                        None => {},
                    }
                }
            }
        }
    }
}

} // verus!
