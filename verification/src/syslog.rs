//! Run-time log entries and the bounded in-memory buffer the debug panel reads.

use crate::text::{
    all_ascii, ascii_upper, chars_of, copy_opt_string, copy_string, eq, eq_str, opt_view,
    to_lowercase, to_uppercase, unicode_lower, unicode_upper,
};
use std::collections::VecDeque;
use vstd::prelude::*;

verus! {

/// Capacity of the system log buffer.
pub const MAX_LOGS: usize = 800;

/// One log entry; `detail` holds JSON text.
pub struct LogEntry {
    pub time: String,
    pub level: String,
    pub source: String,
    pub action: String,
    pub message: String,
    pub sensor_id: Option<i64>,
    pub device_code: Option<String>,
    pub host: Option<String>,
    pub detail: Option<String>,
    pub elapsed_ms: Option<u64>,
}

/// The content of a log entry.
pub struct LogEntryView {
    pub time: Seq<char>,
    pub level: Seq<char>,
    pub source: Seq<char>,
    pub action: Seq<char>,
    pub message: Seq<char>,
    pub sensor_id: Option<i64>,
    pub device_code: Option<Seq<char>>,
    pub host: Option<Seq<char>>,
    pub detail: Option<Seq<char>>,
    pub elapsed_ms: Option<u64>,
}

impl View for LogEntry {
    type V = LogEntryView;

    open spec fn view(&self) -> LogEntryView {
        LogEntryView {
            time: self.time@,
            level: self.level@,
            source: self.source@,
            action: self.action@,
            message: self.message@,
            sensor_id: self.sensor_id,
            device_code: opt_view(self.device_code),
            host: opt_view(self.host),
            detail: opt_view(self.detail),
            elapsed_ms: self.elapsed_ms,
        }
    }
}

impl LogEntry {
    /// A copy of the entry.
    pub fn duplicate(&self) -> (r: LogEntry)
        ensures
            r@ == self@,
    {
        LogEntry {
            time: copy_string(&self.time),
            level: copy_string(&self.level),
            source: copy_string(&self.source),
            action: copy_string(&self.action),
            message: copy_string(&self.message),
            sensor_id: self.sensor_id,
            device_code: copy_opt_string(&self.device_code),
            host: copy_opt_string(&self.host),
            detail: copy_opt_string(&self.detail),
            elapsed_ms: self.elapsed_ms,
        }
    }
}

/// The view of an optional character vector.
pub open spec fn opt_chars(v: Option<Vec<char>>) -> Option<Seq<char>> {
    match v {
        Some(x) => Some(x@),
        None => None,
    }
}

/// The view of an optional string slice.
pub open spec fn opt_str(s: Option<&str>) -> Option<Seq<char>> {
    match s {
        Some(x) => Some(x@),
        None => None,
    }
}

fn own_opt(s: Option<&str>) -> (r: Option<String>)
    ensures
        opt_view(r) == opt_str(s),
{
    match s {
        Some(x) => Some(String::from_str(x)),
        None => None,
    }
}

/// A log entry made at `time`: the level is uppercased, the other values are kept.
pub fn entry(
    time: String,
    level: &str,
    source: &str,
    action: &str,
    message: &str,
    sensor_id: Option<i64>,
    device_code: Option<&str>,
    host: Option<&str>,
    detail: Option<String>,
    elapsed_ms: Option<u64>,
) -> (r: LogEntry)
    ensures
        r@ == (LogEntryView {
            time: time@,
            level: unicode_upper(level@),
            source: source@,
            action: action@,
            message: message@,
            sensor_id,
            device_code: opt_str(device_code),
            host: opt_str(host),
            detail: opt_view(detail),
            elapsed_ms,
        }),
        all_ascii(level@) ==> r@.level == level@.map_values(|c: char| ascii_upper(c)),
{
    LogEntry {
        time,
        level: to_uppercase(level),
        source: String::from_str(source),
        action: String::from_str(action),
        message: String::from_str(message),
        sensor_id,
        device_code: own_opt(device_code),
        host: own_opt(host),
        detail,
        elapsed_ms,
    }
}

/// A plain entry of the given uppercase ASCII level.
pub open spec fn plain_entry(
    time: Seq<char>,
    level: Seq<char>,
    source: Seq<char>,
    action: Seq<char>,
    message: Seq<char>,
) -> LogEntryView {
    LogEntryView {
        time,
        level,
        source,
        action,
        message,
        sensor_id: None,
        device_code: None,
        host: None,
        detail: None,
        elapsed_ms: None,
    }
}

fn plain(time: String, level: &str, source: &str, action: &str, message: &str) -> (r: LogEntry)
    requires
        all_ascii(level@),
        level@ == level@.map_values(|c: char| ascii_upper(c)),
    ensures
        r@ == plain_entry(time@, level@, source@, action@, message@),
{
    let e = entry(time, level, source, action, message, None, None, None, None, None);
    e
}

proof fn lemma_upper_literal(s: Seq<char>)
    requires
        forall|i: int| 0 <= i < s.len() ==> 'A' <= #[trigger] s[i] <= 'Z',
    ensures
        all_ascii(s),
        s == s.map_values(|c: char| ascii_upper(c)),
{
    assert(s =~= s.map_values(|c: char| ascii_upper(c)));
}

/// An `INFO` entry.
pub fn info(time: String, source: &str, action: &str, message: &str) -> (r: LogEntry)
    ensures
        r@ == plain_entry(time@, "INFO"@, source@, action@, message@),
{
    proof {
        reveal_strlit("INFO");
        lemma_upper_literal("INFO"@);
    }
    plain(time, "INFO", source, action, message)
}

/// A `WARN` entry.
pub fn warn(time: String, source: &str, action: &str, message: &str) -> (r: LogEntry)
    ensures
        r@ == plain_entry(time@, "WARN"@, source@, action@, message@),
{
    proof {
        reveal_strlit("WARN");
        lemma_upper_literal("WARN"@);
    }
    plain(time, "WARN", source, action, message)
}

/// An `ERROR` entry.
pub fn error(time: String, source: &str, action: &str, message: &str) -> (r: LogEntry)
    ensures
        r@ == plain_entry(time@, "ERROR"@, source@, action@, message@),
{
    proof {
        reveal_strlit("ERROR");
        lemma_upper_literal("ERROR"@);
    }
    plain(time, "ERROR", source, action, message)
}

/// The file an entry from `source` is appended to: Modbus entries go to their own
/// file.
pub fn log_file_for(source: &str) -> (r: String)
    ensures
        r@ == if source@ == "modbus"@ {
            "modbus-poll.log"@
        } else {
            "app.log"@
        },
{
    let c = chars_of(source);
    if eq_str(c.as_slice(), "modbus") {
        String::from_str("modbus-poll.log")
    } else {
        String::from_str("app.log")
    }
}

// ---------------------------------------------------------------------------
// The bounded buffer
// ---------------------------------------------------------------------------

/// The buffer after appending `e`: when full, the oldest entry is dropped first.
pub open spec fn appended(entries: Seq<LogEntryView>, e: LogEntryView, capacity: nat) -> Seq<
    LogEntryView,
> {
    if entries.len() >= capacity {
        entries.skip(1).push(e)
    } else {
        entries.push(e)
    }
}

/// An entry passes the optional level and source filters.
pub open spec fn passes(e: LogEntryView, level: Option<Seq<char>>, source: Option<Seq<char>>) -> bool {
    &&& level matches Some(l) ==> e.level == l
    &&& source matches Some(s) ==> e.source == s
}

/// Up to `limit` entries that pass the filters, newest first.
pub open spec fn newest(
    entries: Seq<LogEntryView>,
    level: Option<Seq<char>>,
    source: Option<Seq<char>>,
    limit: nat,
) -> Seq<LogEntryView>
    decreases entries.len(),
{
    if entries.len() == 0 || limit == 0 {
        Seq::empty()
    } else if passes(entries.last(), level, source) {
        seq![entries.last()] + newest(entries.drop_last(), level, source, (limit - 1) as nat)
    } else {
        newest(entries.drop_last(), level, source, limit)
    }
}

/// `limit.unwrap_or(default).clamp(1, max)`.
pub open spec fn clamped_limit(limit: Option<usize>, default: usize, max: nat) -> nat {
    let l: nat = match limit {
        Some(l) => l as nat,
        None => default as nat,
    };
    if l < 1 {
        1
    } else if l > max {
        max
    } else {
        l
    }
}

/// A buffer of the most recent log entries, holding at most `capacity` of them.
pub struct LogStore {
    entries: VecDeque<LogEntry>,
    capacity: usize,
}

impl LogStore {
    /// The entries, oldest first.
    pub closed spec fn contents(&self) -> Seq<LogEntryView> {
        self.entries@.map_values(|e: LogEntry| e@)
    }

    /// The capacity.
    pub closed spec fn max_len(&self) -> nat {
        self.capacity as nat
    }

    /// The buffer holds no more than its capacity, which is positive.
    pub closed spec fn wf(&self) -> bool {
        &&& 1 <= self.capacity
        &&& self.entries@.len() <= self.capacity
    }

    /// An empty buffer of the given capacity.
    pub fn new(capacity: usize) -> (r: LogStore)
        requires
            capacity >= 1,
        ensures
            r.wf(),
            r.contents() == Seq::<LogEntryView>::empty(),
            r.max_len() == capacity,
    {
        let r = LogStore { entries: VecDeque::new(), capacity };
        assert(r.contents() =~= Seq::<LogEntryView>::empty());
        r
    }

    /// The number of entries held.
    pub fn len(&self) -> (r: usize)
        requires
            self.wf(),
        ensures
            r == self.contents().len(),
    {
        self.entries.len()
    }

    /// Appends an entry, dropping the oldest one when the buffer is full.
    pub fn push(&mut self, e: LogEntry)
        requires
            old(self).wf(),
        ensures
            final(self).wf(),
            final(self).max_len() == old(self).max_len(),
            final(self).contents() == appended(old(self).contents(), e@, old(self).max_len()),
    {
        let ghost before = self.entries@;
        let ghost ev = e@;
        if self.entries.len() >= self.capacity {
            self.entries.pop_front();
            assert(self.entries@ =~= before.skip(1));
            assert(before.skip(1).map_values(|x: LogEntry| x@) =~= before.map_values(
                |x: LogEntry| x@,
            ).skip(1));
        }
        let ghost mid = self.entries@;
        self.entries.push_back(e);
        assert(self.entries@.map_values(|x: LogEntry| x@) =~= mid.map_values(|x: LogEntry| x@).push(
            ev,
        ));
    }

    /// Up to `limit` entries (default `default_limit`, clamped to `1..=capacity`),
    /// newest first, of the given level (compared in uppercase) and source
    /// (compared in lowercase) when these are given.
    pub fn recent(
        &self,
        limit: Option<usize>,
        default_limit: usize,
        level: Option<&str>,
        source: Option<&str>,
    ) -> (r: Vec<LogEntry>)
        requires
            self.wf(),
        ensures
            r@.map_values(|e: LogEntry| e@) == newest(
                self.contents(),
                match level {
                    Some(l) => Some(unicode_upper(l@)),
                    None => None,
                },
                match source {
                    Some(s) => Some(unicode_lower(s@)),
                    None => None,
                },
                clamped_limit(limit, default_limit, self.max_len()),
            ),
    {
        let mut lim: usize = match limit {
            Some(l) => l,
            None => default_limit,
        };
        if lim < 1 {
            lim = 1;
        } else if lim > self.capacity {
            lim = self.capacity;
        }
        let lv: Option<Vec<char>> = match level {
            Some(l) => {
                let u = to_uppercase(l);
                Some(chars_of(u.as_str()))
            },
            None => None,
        };
        let sv: Option<Vec<char>> = match source {
            Some(s) => {
                let u = to_lowercase(s);
                Some(chars_of(u.as_str()))
            },
            None => None,
        };
        let ghost lf: Option<Seq<char>> = opt_chars(lv);
        let ghost sf: Option<Seq<char>> = opt_chars(sv);
        let ghost all = self.contents();
        let mut out: Vec<LogEntry> = Vec::new();
        let mut remaining: usize = lim;
        let mut i: usize = self.entries.len();
        assert(all.take(i as int) =~= all);
        while i > 0 && remaining > 0
            invariant
                i <= self.entries@.len(),
                all == self.contents(),
                all.len() == self.entries@.len(),
                lf == opt_chars(lv),
                sf == opt_chars(sv),
                out@.map_values(|e: LogEntry| e@) + newest(
                    all.take(i as int),
                    lf,
                    sf,
                    remaining as nat,
                ) == newest(all, lf, sf, lim as nat),
            decreases i,
        {
            let e = &self.entries[i - 1];
            let ghost prefix = all.take(i as int);
            assert(prefix.drop_last() =~= all.take(i - 1));
            assert(prefix.last() == e@);
            let ok_level = match &lv {
                Some(l) => {
                    let c = chars_of(e.level.as_str());
                    eq(c.as_slice(), l.as_slice())
                },
                None => true,
            };
            let ok_source = match &sv {
                Some(s) => {
                    let c = chars_of(e.source.as_str());
                    eq(c.as_slice(), s.as_slice())
                },
                None => true,
            };
            if ok_level && ok_source {
                let ghost before = out@.map_values(|x: LogEntry| x@);
                out.push(e.duplicate());
                assert(out@.map_values(|x: LogEntry| x@) =~= before.push(e@));
                assert(before.push(e@) + newest(prefix.drop_last(), lf, sf, (remaining - 1) as nat)
                    =~= before + (seq![e@] + newest(
                    prefix.drop_last(),
                    lf,
                    sf,
                    (remaining - 1) as nat,
                )));
                remaining -= 1;
            }
            i -= 1;
        }
        assert(newest(all.take(i as int), lf, sf, remaining as nat) =~= Seq::<LogEntryView>::empty());
        assert(out@.map_values(|e: LogEntry| e@) =~= out@.map_values(|e: LogEntry| e@) + Seq::<
            LogEntryView,
        >::empty());
        out
    }
}

/// The buffer never holds more than its capacity, and the entry just appended is
/// the newest one.
pub proof fn law_buffer_bounded(entries: Seq<LogEntryView>, e: LogEntryView, capacity: nat)
    requires
        capacity >= 1,
        entries.len() <= capacity,
    ensures
        appended(entries, e, capacity).len() <= capacity,
        appended(entries, e, capacity).last() == e,
        entries.len() < capacity ==> appended(entries, e, capacity).drop_last() == entries,
{
    if entries.len() < capacity {
        assert(entries.push(e).drop_last() =~= entries);
    }
}

/// Reading the buffer right after appending an entry that passes the filters
/// returns that entry first.
pub proof fn law_newest_first(
    entries: Seq<LogEntryView>,
    e: LogEntryView,
    capacity: nat,
    level: Option<Seq<char>>,
    source: Option<Seq<char>>,
    limit: nat,
)
    requires
        capacity >= 1,
        entries.len() <= capacity,
        limit >= 1,
        passes(e, level, source),
    ensures
        newest(appended(entries, e, capacity), level, source, limit).len() >= 1,
        newest(appended(entries, e, capacity), level, source, limit)[0] == e,
{
    let a = appended(entries, e, capacity);
    assert(a.last() == e);
    assert(a.len() > 0);
}

/// The entries that pass the filters, oldest first.
pub open spec fn matching(
    entries: Seq<LogEntryView>,
    level: Option<Seq<char>>,
    source: Option<Seq<char>>,
) -> Seq<LogEntryView> {
    entries.filter(|e: LogEntryView| passes(e, level, source))
}

/// Reading the buffer gives the newest entries that pass the filters, newest first:
/// as many as the limit allows and as many as there are; the limit counts only the
/// entries that pass. So when fewer than `limit` come back, every passing entry of
/// the buffer is among them.
pub proof fn law_recent_matching(
    entries: Seq<LogEntryView>,
    level: Option<Seq<char>>,
    source: Option<Seq<char>>,
    limit: nat,
)
    ensures
        ({
            let m = matching(entries, level, source);
            let r = newest(entries, level, source, limit);
            &&& r.len() == if limit < m.len() {
                limit
            } else {
                m.len()
            }
            &&& forall|i: int| 0 <= i < r.len() ==> #[trigger] r[i] == m[m.len() - 1 - i]
            &&& forall|i: int| 0 <= i < r.len() ==> passes(#[trigger] r[i], level, source)
            &&& forall|i: int|
                0 <= i < r.len() ==> (level matches Some(l) ==> (#[trigger] r[i]).level == l) && (
                source matches Some(so) ==> r[i].source == so)
        }),
    decreases entries.len(),
{
    let pred = |e: LogEntryView| passes(e, level, source);
    reveal(Seq::filter);
    let m = matching(entries, level, source);
    let r = newest(entries, level, source, limit);
    if entries.len() == 0 {
        assert(m.len() == 0);
    } else if limit == 0 {
    } else {
        let d = entries.drop_last();
        let md = matching(d, level, source);
        assert(m == if pred(entries.last()) {
            md.push(entries.last())
        } else {
            md
        });
        if passes(entries.last(), level, source) {
            law_recent_matching(d, level, source, (limit - 1) as nat);
            let rd = newest(d, level, source, (limit - 1) as nat);
            assert(r == seq![entries.last()] + rd);
            assert forall|i: int| 0 <= i < r.len() implies #[trigger] r[i] == m[m.len() - 1 - i] by {
                if i > 0 {
                    assert(r[i] == rd[i - 1]);
                    assert(m[m.len() - 1 - i] == md[md.len() - 1 - (i - 1)]);
                }
            }
            assert forall|i: int| 0 <= i < r.len() implies passes(#[trigger] r[i], level, source) by {
                if i > 0 {
                    assert(r[i] == rd[i - 1]);
                }
            }
        } else {
            law_recent_matching(d, level, source, limit);
        }
    }
}

/// An `INFO` entry that carries JSON detail.
pub fn info_detail(time: String, source: &str, action: &str, message: &str, detail: String) -> (r:
    LogEntry)
    ensures
        r@ == (LogEntryView { detail: Some(detail@), ..plain_entry(time@, "INFO"@, source@, action@, message@) }),
{
    let e = entry(time, "INFO", source, action, message, None, None, None, Some(detail), None);
    proof {
        reveal_strlit("INFO");
        lemma_upper_literal("INFO"@);
    }
    e
}

/// An entry of the Modbus poller: its source is `modbus`.
pub fn modbus_log(
    time: String,
    level: &str,
    action: &str,
    message: &str,
    sensor_id: Option<i64>,
    device_code: Option<&str>,
    host: Option<&str>,
    detail: Option<String>,
    elapsed_ms: Option<u64>,
) -> (r: LogEntry)
    ensures
        r@ == (LogEntryView {
            time: time@,
            level: unicode_upper(level@),
            source: "modbus"@,
            action: action@,
            message: message@,
            sensor_id,
            device_code: opt_str(device_code),
            host: opt_str(host),
            detail: opt_view(detail),
            elapsed_ms,
        }),
{
    entry(time, level, "modbus", action, message, sensor_id, device_code, host, detail, elapsed_ms)
}

/// Records an entry in the buffer, dropping the oldest one when it is full.
pub fn push(store: &mut LogStore, e: LogEntry)
    requires
        old(store).wf(),
    ensures
        final(store).wf(),
        final(store).max_len() == old(store).max_len(),
        final(store).contents() == appended(old(store).contents(), e@, old(store).max_len()),
{
    store.push(e);
}

} // verus!
