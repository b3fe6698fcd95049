//! The in-memory log ring buffer behind the live log viewer.
//!
//! The last `cap` records are kept as structured rows (sequence number,
//! timestamp, level, target, message) so a viewer can poll incrementally by
//! sequence number. Sequence numbers are consecutive; the oldest record is
//! evicted once the ring is full.

use vstd::prelude::*;
use std::collections::VecDeque;
use crate::json::{push_json_string, quoted};
use crate::text::{decimal, push_decimal, chars_of, has_prefix, push_str, seq_eq, starts_with, str_eq, trim, trimmed};

verus! {

broadcast use vstd::string::group_string_axioms;

/// Records kept by the process-wide ring.
pub const RING_CAP: usize = 2000;

/// One captured log record.
#[derive(Clone, Debug, PartialEq)]
pub struct Record {
    /// Monotonic capture sequence number.
    pub seq: u64,
    /// Epoch milliseconds at capture.
    pub ts_ms: u64,
    /// `TRACE` | `DEBUG` | `INFO` | `WARN` | `ERROR` (display).
    pub level: &'static str,
    /// Severity rank, 0 = TRACE .. 4 = ERROR.
    pub sev: u8,
    pub target: String,
    pub msg: String,
}

impl Record {
    /// A field-for-field copy.
    pub fn duplicate(&self) -> (r: Record)
        ensures
            r == *self,
    {
        Record {
            seq: self.seq,
            ts_ms: self.ts_ms,
            level: self.level,
            sev: self.sev,
            target: self.target.clone(),
            msg: self.msg.clone(),
        }
    }
}

/// A ring query: records newer than `since_seq`, of at least `level_min`
/// severity, whose target starts with `target_prefix`. All optional.
#[derive(Clone)]
pub struct LogQuery {
    pub target_prefix: Option<String>,
    pub level_min: Option<u8>,
    pub since_seq: Option<u64>,
}

impl Default for LogQuery {
    fn default() -> (q: Self)
        ensures
            q.target_prefix is None && q.level_min is None && q.since_seq is None,
    {
        LogQuery { target_prefix: None, level_min: None, since_seq: None }
    }
}

/// Does record `r` pass query `q`?
pub open spec fn passes(r: Record, q: LogQuery) -> bool {
    &&& (q.since_seq matches Some(s) ==> r.seq > s)
    &&& (q.level_min matches Some(m) ==> r.sev >= m)
    &&& (q.target_prefix matches Some(p) ==> starts_with(r.target@, p@))
}

/// The records of `rs` that pass `q`, oldest first.
pub open spec fn filtered(rs: Seq<Record>, q: LogQuery) -> Seq<Record>
    decreases rs.len(),
{
    if rs.len() == 0 {
        Seq::empty()
    } else {
        let init = filtered(rs.drop_last(), q);
        if passes(rs.last(), q) {
            init.push(rs.last())
        } else {
            init
        }
    }
}

/// The bounded ring with its own monotonic sequence counter.
pub struct RingInner {
    buf: VecDeque<Record>,
    next_seq: u64,
    cap: usize,
}

impl RingInner {
    /// The kept records, oldest first.
    pub closed spec fn records(&self) -> Seq<Record> {
        self.buf@
    }

    /// The sequence number the next record gets.
    pub closed spec fn next(&self) -> u64 {
        self.next_seq
    }

    /// The capacity the ring was made with.
    pub closed spec fn capacity(&self) -> usize {
        self.cap
    }

    /// Records carry consecutive sequence numbers ending just below `next`,
    /// and the ring never holds more than `max(capacity, 1)` records.
    pub closed spec fn wf(&self) -> bool {
        &&& self.buf@.len() <= self.next_seq
        &&& (self.buf@.len() <= self.cap || self.buf@.len() <= 1)
        &&& forall|i: int|
            0 <= i < self.buf@.len() ==> (#[trigger] self.buf@[i]).seq == self.next_seq
                - self.buf@.len() + i
    }

    /// An empty ring holding at most `cap` records.
    pub fn with_cap(cap: usize) -> (r: Self)
        ensures
            r.wf(),
            r.records() == Seq::<Record>::empty(),
            r.next() == 0,
            r.capacity() == cap,
    {
        RingInner { buf: VecDeque::new(), next_seq: 0, cap }
    }

    /// Append a record, evicting the oldest when at capacity; returns the
    /// record's sequence number.
    pub fn push(&mut self, ts_ms: u64, level: &'static str, sev: u8, target: String, msg: String) -> (seq: u64)
        requires
            old(self).wf(),
            old(self).next() < u64::MAX,
        ensures
            final(self).wf(),
            seq == old(self).next(),
            final(self).next() == old(self).next() + 1,
            final(self).capacity() == old(self).capacity(),
            final(self).records() == (if old(self).records().len() >= old(self).capacity()
                && old(self).records().len() > 0 {
                old(self).records().drop_first()
            } else {
                old(self).records()
            }).push(Record { seq, ts_ms, level, sev, target, msg }),
    {
        let seq = self.next_seq;
        self.next_seq = self.next_seq + 1;
        let ghost before = self.buf@;
        if self.buf.len() >= self.cap {
            let _ = self.buf.pop_front();
            proof {
                if before.len() > 0 {
                    assert(self.buf@ =~= before.drop_first());
                }
            }
        }
        self.buf.push_back(Record { seq, ts_ms, level, sev, target, msg });
        assert forall|i: int| 0 <= i < self.buf@.len() implies (#[trigger] self.buf@[i]).seq
            == self.next_seq - self.buf@.len() + i by {
            if i < self.buf@.len() - 1 {
                if before.len() >= self.cap && before.len() > 0 {
                    assert(self.buf@[i] == before[i + 1]);
                } else {
                    assert(self.buf@[i] == before[i]);
                }
            }
        }
        seq
    }

    /// The sequence number the next record gets.
    pub fn next_seq(&self) -> (n: u64)
        ensures
            n == self.next(),
    {
        self.next_seq
    }

    /// The records that pass `q`, oldest first.
    pub fn query(&self, q: &LogQuery) -> (out: Vec<Record>)
        ensures
            out@ == filtered(self.records(), *q),
    {
        let prefix: Option<Vec<char>> = match &q.target_prefix {
            Some(p) => Some(chars_of(p.as_str())),
            None => None,
        };
        let mut out: Vec<Record> = Vec::new();
        let mut i: usize = 0;
        while i < self.buf.len()
            invariant
                i <= self.buf@.len(),
                out@ == filtered(self.buf@.take(i as int), *q),
                match q.target_prefix {
                    Some(p) => prefix matches Some(v) && v@ == p@,
                    None => prefix is None,
                },
            decreases self.buf@.len() - i,
        {
            let r = &self.buf[i];
            let since_ok = match q.since_seq {
                Some(s) => r.seq > s,
                None => true,
            };
            let level_ok = match q.level_min {
                Some(m) => r.sev >= m,
                None => true,
            };
            let target_ok = match &prefix {
                Some(p) => {
                    let t = chars_of(r.target.as_str());
                    has_prefix(t.as_slice(), p.as_slice())
                },
                None => true,
            };
            assert(self.buf@.take(i + 1).drop_last() =~= self.buf@.take(i as int));
            if since_ok && level_ok && target_ok {
                out.push(r.duplicate());
            }
            i = i + 1;
        }
        assert(self.buf@.take(self.buf@.len() as int) =~= self.buf@);
        out
    }
}

/// Query a ring.
pub fn query(ring: &RingInner, q: &LogQuery) -> (out: Vec<Record>)
    ensures
        out@ == filtered(ring.records(), *q),
{
    ring.query(q)
}

/// ASCII lower-casing of one character.
pub open spec fn ascii_lower(c: char) -> char {
    if 'A' <= c && c <= 'Z' {
        ((c as u32) + 32) as char
    } else {
        c
    }
}

/// The severity rank a level word names, compared case-insensitively after
/// trimming white space: `trace` 0, `debug` 1, `info` 2, `warn`/`warning` 3,
/// `error` 4.
pub open spec fn sev_of_word(w: Seq<char>) -> Option<u8> {
    if w == "trace"@ {
        Some(0u8)
    } else if w == "debug"@ {
        Some(1u8)
    } else if w == "info"@ {
        Some(2u8)
    } else if w == "warn"@ || w == "warning"@ {
        Some(3u8)
    } else if w == "error"@ {
        Some(4u8)
    } else {
        None
    }
}

/// Map a `level_min` request word to a severity rank (`None` when unknown,
/// so the filter leaves severity unconstrained).
pub fn sev_from_name(name: &str) -> (r: Option<u8>)
    ensures
        r == sev_of_word(trim(name@).map_values(|c: char| ascii_lower(c))),
{
    let all = chars_of(name);
    let t = trimmed(all.as_slice());
    let mut w: Vec<char> = Vec::new();
    let mut i: usize = 0;
    while i < t.len()
        invariant
            i <= t@.len(),
            w@ == t@.take(i as int).map_values(|c: char| ascii_lower(c)),
        decreases t.len() - i,
    {
        let c = t[i];
        let l = if 'A' <= c && c <= 'Z' {
            ((c as u32) + 32) as u8 as char
        } else {
            c
        };
        assert(l == ascii_lower(c));
        w.push(l);
        assert(t@.take(i + 1).map_values(|c: char| ascii_lower(c)) =~= t@.take(i as int).map_values(
            |c: char| ascii_lower(c),
        ).push(ascii_lower(c)));
        i = i + 1;
    }
    assert(t@.take(t@.len() as int) =~= t@);
    let ws = w.as_slice();
    if seq_eq(ws, chars_of("trace").as_slice()) {
        Some(0)
    } else if seq_eq(ws, chars_of("debug").as_slice()) {
        Some(1)
    } else if seq_eq(ws, chars_of("info").as_slice()) {
        Some(2)
    } else if seq_eq(ws, chars_of("warn").as_slice()) || seq_eq(ws, chars_of("warning").as_slice()) {
        Some(3)
    } else if seq_eq(ws, chars_of("error").as_slice()) {
        Some(4)
    } else {
        None
    }
}

/// The level the Tor client's own log targets run at, from the tracing
/// switch `var` (the environment's value, when set): info when unset,
/// empty or `0`; trace for `trace` or `2`; debug for any other value.
pub open spec fn tor_trace_level(var: Option<Seq<char>>) -> Seq<char> {
    match var {
        None => "info"@,
        Some(v) => if v.len() == 0 || v == "0"@ {
            "info"@
        } else if v == "trace"@ || v == "2"@ {
            "trace"@
        } else {
            "debug"@
        },
    }
}

/// The Tor client's log targets that carry the bootstrap detail.
pub open spec fn tor_targets() -> Seq<Seq<char>> {
    seq![
        "arti_client"@,
        "tor_dirmgr"@,
        "tor_dirclient"@,
        "tor_guardmgr"@,
        "tor_chanmgr"@,
        "tor_proto"@,
        "tor_circmgr"@,
        "tor_netdir"@,
        "tor_netdoc"@,
        "tor_memquota"@,
    ]
}

/// `,target=level` for each of `ts`.
pub open spec fn target_directives(ts: Seq<Seq<char>>, level: Seq<char>) -> Seq<char>
    decreases ts.len(),
{
    if ts.len() == 0 {
        Seq::empty()
    } else {
        target_directives(ts.drop_last(), level) + ","@ + ts.last() + "="@ + level
    }
}

/// The default log filter: everything at info, this app at debug, and the
/// Tor client's targets at the level the tracing switch selects.
pub fn default_filter(var: Option<&str>) -> (f: String)
    ensures
        f@ == "info,cyberdesk=debug"@ + target_directives(
            tor_targets(),
            tor_trace_level(
                match var {
                    Some(v) => Some(v@),
                    None => None,
                },
            ),
        ),
{
    let level: &'static str = match var {
        None => "info",
        Some(v) => {
            if v.unicode_len() == 0 || str_eq(v, "0") {
                "info"
            } else if str_eq(v, "trace") || str_eq(v, "2") {
                "trace"
            } else {
                "debug"
            }
        },
    };
    let targets = [
        "arti_client",
        "tor_dirmgr",
        "tor_dirclient",
        "tor_guardmgr",
        "tor_chanmgr",
        "tor_proto",
        "tor_circmgr",
        "tor_netdir",
        "tor_netdoc",
        "tor_memquota",
    ];
    let ghost names = tor_targets();
    assert(forall|k: int| 0 <= k < 10 ==> #[trigger] targets@[k]@ == names[k]);
    let mut f = String::from_str("info,cyberdesk=debug");
    let ghost base = f@;
    let mut i: usize = 0;
    while i < 10
        invariant
            i <= 10,
            names == tor_targets(),
            forall|k: int| 0 <= k < 10 ==> #[trigger] targets@[k]@ == names[k],
            f@ == base + target_directives(names.take(i as int), level@),
        decreases 10 - i,
    {
        push_str(&mut f, ",");
        push_str(&mut f, targets[i]);
        push_str(&mut f, "=");
        push_str(&mut f, level);
        assert(names.take(i + 1).drop_last() =~= names.take(i as int));
        assert(names.take(i + 1).last() == names[i as int]);
        i = i + 1;
    }
    assert(names.take(10) =~= names);
    f
}

/// One record as the log viewer reads it: a JSON object with its keys in
/// order.
pub open spec fn record_text(r: Record) -> Seq<char> {
    "{\"level\":"@ + quoted(r.level@) + ",\"msg\":"@ + quoted(r.msg@) + ",\"seq\":"@ + decimal(r.seq as nat)
        + ",\"target\":"@ + quoted(r.target@) + ",\"ts\":"@ + decimal(r.ts_ms as nat) + "}"@
}

/// The records `rs` as a JSON array, oldest first.
pub open spec fn records_text(rs: Seq<Record>) -> Seq<char> {
    "["@ + join_records(rs) + "]"@
}

/// The records' texts separated by commas.
pub open spec fn join_records(rs: Seq<Record>) -> Seq<char>
    decreases rs.len(),
{
    if rs.len() == 0 {
        Seq::empty()
    } else if rs.len() == 1 {
        record_text(rs[0])
    } else {
        join_records(rs.drop_last()) + ","@ + record_text(rs.last())
    }
}

fn push_record(out: &mut String, r: &Record)
    ensures
        final(out)@ == old(out)@ + record_text(*r),
{
    let ghost start = out@;
    push_str(out, "{\"level\":");
    push_json_string(out, r.level);
    push_str(out, ",\"msg\":");
    push_json_string(out, r.msg.as_str());
    push_str(out, ",\"seq\":");
    push_decimal(out, r.seq);
    push_str(out, ",\"target\":");
    push_json_string(out, r.target.as_str());
    push_str(out, ",\"ts\":");
    push_decimal(out, r.ts_ms);
    push_str(out, "}");
    assert(out@ =~= start + record_text(*r));
}

/// The log viewer's reply: the records as a JSON array.
pub fn records_json(rs: &Vec<Record>) -> (out: String)
    ensures
        out@ == records_text(rs@),
{
    let mut body = String::new();
    let mut i: usize = 0;
    while i < rs.len()
        invariant
            i <= rs@.len(),
            body@ == join_records(rs@.take(i as int)),
        decreases rs.len() - i,
    {
        if i > 0 {
            push_str(&mut body, ",");
        }
        push_record(&mut body, &rs[i]);
        assert(rs@.take(i + 1).drop_last() =~= rs@.take(i as int));
        assert(rs@.take(i + 1).last() == rs@[i as int]);
        if i == 0 {
            assert(rs@.take(1) =~= seq![rs@[0]]);
        }
        i = i + 1;
    }
    assert(rs@.take(rs@.len() as int) =~= rs@);
    let mut out = String::from_str("[");
    push_str(&mut out, body.as_str());
    push_str(&mut out, "]");
    out
}

} // verus!
