//! Which HTTP requests are audited automatically, and how a request maps to an
//! audit action, target type and target id.

use crate::text::{
    all_digits, chars_of, contains_str, copy_string, ends_with, eq_str, has_infix, has_prefix,
    has_suffix, split_chars, split_on, starts_with, string_from, to_lowercase, trim, trim_string,
    unicode_lower, views, all_ascii, ascii_lower,
};
use vstd::prelude::*;

verus! {

// ---------------------------------------------------------------------------
// Which requests are audited
// ---------------------------------------------------------------------------

/// Requests whose handlers already write a fuller audit record.
pub open spec fn already_audited(method: Seq<char>, path: Seq<char>) -> bool {
    (method == "PUT"@ && path == "/api/password-policy"@) || (method == "POST"@ && (path
        == "/api/electronic-signature"@ || path == "/api/user-events"@ || path
        == "/api/system/backup"@ || path == "/api/system/restore"@ || path
        == "/api/system/command"@ || path == "/api/system/reset-buffer"@ || path
        == "/api/setup/init-db"@ || path == "/api/alarms/ack-all"@ || path
        == "/api/rt-trend/start"@ || path == "/api/rt-trend/stop"@ || (has_prefix(
        path,
        "/api/alarms/"@,
    ) && has_suffix(path, "/ack"@))))
}

/// Whether a handler already audits this request (by method name and path).
pub fn business_already_audited(method: &str, path: &str) -> (r: bool)
    ensures
        r == already_audited(method@, path@),
{
    let m = chars_of(method);
    let p = chars_of(path);
    if eq_str(m.as_slice(), "PUT") {
        proof {
            reveal_strlit("PUT");
            reveal_strlit("POST");
            assert("PUT"@.len() == 3);
            assert("POST"@.len() == 4);
        }
        return eq_str(p.as_slice(), "/api/password-policy");
    }
    if !eq_str(m.as_slice(), "POST") {
        proof {
            reveal_strlit("PUT");
            reveal_strlit("POST");
        }
        return false;
    }
    proof {
        reveal_strlit("PUT");
        reveal_strlit("POST");
        assert(m@ != "PUT"@);
    }
    eq_str(p.as_slice(), "/api/electronic-signature") || eq_str(p.as_slice(), "/api/user-events")
        || eq_str(p.as_slice(), "/api/system/backup") || eq_str(p.as_slice(), "/api/system/restore")
        || eq_str(p.as_slice(), "/api/system/command") || eq_str(
        p.as_slice(),
        "/api/system/reset-buffer",
    ) || eq_str(p.as_slice(), "/api/setup/init-db") || eq_str(p.as_slice(), "/api/alarms/ack-all")
        || eq_str(p.as_slice(), "/api/rt-trend/start") || eq_str(p.as_slice(), "/api/rt-trend/stop")
        || (starts_with(p.as_slice(), "/api/alarms/") && ends_with(p.as_slice(), "/ack"))
}

/// The rule for automatic auditing: never the audit, user-event, license and device
/// poll endpoints, requests their handlers audit, or high-frequency realtime reads;
/// a `GET` only when it exports or downloads; otherwise `POST`, `PUT`, `PATCH` and
/// `DELETE`.
pub open spec fn auto_audited(method: Seq<char>, path: Seq<char>) -> bool {
    if path == "/api/audit-trail"@ || path == "/api/user-events"@ || has_prefix(
        path,
        "/api/license"@,
    ) || has_prefix(path, "/api/device-poll"@) {
        false
    } else if already_audited(method, path) {
        false
    } else if path == "/api/rt-trend/points"@ || path == "/api/rt-trend/current"@ || path
        == "/api/realtime/signals"@ || path == "/api/realtime/rooms"@ || has_prefix(
        path,
        "/api/realtime/signals"@,
    ) {
        false
    } else if method == "GET"@ {
        has_infix(path, "/export"@) || has_suffix(path, "/download"@)
    } else {
        method == "POST"@ || method == "PUT"@ || method == "PATCH"@ || method == "DELETE"@
    }
}

/// Whether a request (by method name and path) is audited automatically.
pub fn should_auto_audit(method: &str, path: &str) -> (r: bool)
    ensures
        r == auto_audited(method@, path@),
{
    let m = chars_of(method);
    let p = chars_of(path);
    if eq_str(p.as_slice(), "/api/audit-trail") || eq_str(p.as_slice(), "/api/user-events")
        || starts_with(p.as_slice(), "/api/license") || starts_with(p.as_slice(), "/api/device-poll") {
        return false;
    }
    if business_already_audited(method, path) {
        return false;
    }
    if eq_str(p.as_slice(), "/api/rt-trend/points") || eq_str(p.as_slice(), "/api/rt-trend/current")
        || eq_str(p.as_slice(), "/api/realtime/signals") || eq_str(p.as_slice(), "/api/realtime/rooms")
        || starts_with(p.as_slice(), "/api/realtime/signals") {
        return false;
    }
    if eq_str(m.as_slice(), "GET") {
        return contains_str(p.as_slice(), "/export") || ends_with(p.as_slice(), "/download");
    }
    eq_str(m.as_slice(), "POST") || eq_str(m.as_slice(), "PUT") || eq_str(m.as_slice(), "PATCH")
        || eq_str(m.as_slice(), "DELETE")
}

// ---------------------------------------------------------------------------
// Path segments
// ---------------------------------------------------------------------------

/// `s` without leading `/`.
pub open spec fn strip_leading_slashes(s: Seq<char>) -> Seq<char>
    decreases s.len(),
{
    if s.len() > 0 && s[0] == '/' {
        strip_leading_slashes(s.drop_first())
    } else {
        s
    }
}

/// `s` without trailing `/`.
pub open spec fn strip_trailing_slashes(s: Seq<char>) -> Seq<char>
    decreases s.len(),
{
    if s.len() > 0 && s.last() == '/' {
        strip_trailing_slashes(s.drop_last())
    } else {
        s
    }
}

/// The segments of a path: `trim_matches('/')` then split at `/`.
pub open spec fn path_segments(path: Seq<char>) -> Seq<Seq<char>> {
    split_on(strip_trailing_slashes(strip_leading_slashes(path)), '/')
}

/// The segments after a leading `api` or `mock` segment.
pub open spec fn route_segments(path: Seq<char>) -> Seq<Seq<char>> {
    let segs = path_segments(path);
    if segs.len() > 0 && (segs[0] == "api"@ || segs[0] == "mock"@) {
        segs.skip(1)
    } else {
        segs
    }
}

fn strip_slashes(s: &[char]) -> (r: Vec<char>)
    ensures
        r@ == strip_trailing_slashes(strip_leading_slashes(s@)),
{
    let mut i: usize = 0;
    assert(s@.skip(0) =~= s@);
    while i < s.len() && s[i] == '/'
        invariant
            i <= s@.len(),
            strip_leading_slashes(s@) == strip_leading_slashes(s@.skip(i as int)),
        decreases s.len() - i,
    {
        assert(s@.skip(i as int).drop_first() =~= s@.skip(i + 1));
        i += 1;
    }
    let ghost t = s@.skip(i as int);
    assert(strip_leading_slashes(s@) == t);
    let mut j: usize = s.len();
    assert(t.take(j - i) =~= t);
    while j > i && s[j - 1] == '/'
        invariant
            i <= j <= s@.len(),
            t == s@.skip(i as int),
            strip_trailing_slashes(t) == strip_trailing_slashes(t.take(j - i)),
        decreases j,
    {
        assert(t.take(j - i).drop_last() =~= t.take(j - i - 1));
        j -= 1;
    }
    assert(strip_trailing_slashes(t.take(j - i)) == t.take(j - i));
    assert(t.take(j - i) =~= s@.subrange(i as int, j as int));
    crate::text::slice_chars(s, i, j)
}

fn route_segments_of(path: &str) -> (r: Vec<Vec<char>>)
    ensures
        views(r@) == route_segments(path@),
{
    let p = chars_of(path);
    let stripped = strip_slashes(p.as_slice());
    let segs = split_chars(stripped.as_slice(), '/');
    assert(views(segs@).len() == segs@.len());
    if eq_str(segs[0].as_slice(), "api") || eq_str(segs[0].as_slice(), "mock") {
        let mut rest: Vec<Vec<char>> = Vec::new();
        let mut i: usize = 1;
        while i < segs.len()
            invariant
                1 <= i <= segs@.len(),
                views(rest@) == views(segs@).subrange(1, i as int),
            decreases segs.len() - i,
        {
            let seg = crate::text::slice_chars(segs[i].as_slice(), 0, segs[i].len());
            assert(seg@ =~= segs@[i as int]@);
            let ghost before = rest@;
            rest.push(seg);
            assert(views(rest@) =~= views(before).push(seg@));
            assert(views(segs@).subrange(1, i + 1) =~= views(segs@).subrange(1, i as int).push(
                views(segs@)[i as int],
            ));
            i += 1;
        }
        assert(views(segs@).subrange(1, segs@.len() as int) =~= views(segs@).skip(1));
        return rest;
    }
    segs
}

// ---------------------------------------------------------------------------
// The route table
// ---------------------------------------------------------------------------

/// A route pattern: a lowercase method name, the segments to match (`:id` matches
/// any segment), whether further segments may follow, and the audit action.
pub struct RouteRule {
    pub method: Seq<char>,
    pub segments: Seq<Seq<char>>,
    pub open_end: bool,
    pub action: Seq<char>,
}

/// The pattern segment that matches any segment.
pub open spec fn wildcard() -> Seq<char> {
    ":id"@
}

/// A rule with the given segments and no open end.
pub open spec fn rule(method: Seq<char>, segments: Seq<Seq<char>>, action: Seq<char>) -> RouteRule {
    RouteRule { method, segments, open_end: false, action }
}

/// The audit actions of known routes, first match wins.
pub open spec fn route_rules() -> Seq<RouteRule> {
    seq![
        rule("post"@, seq!["login"@], "auth.login"@),
        rule("post"@, seq!["sensors"@], "sensor.create"@),
        RouteRule {
            method: "delete"@,
            segments: seq!["sensors"@, ":id"@],
            open_end: true,
            action: "sensor.delete"@,
        },
        rule("post"@, seq!["sensors"@, ":id"@, "restore"@], "sensor.restore"@),
        rule("put"@, seq!["sensors"@, ":id"@, "meta"@], "sensor.meta.update"@),
        rule("post"@, seq!["sensors"@, ":id"@, "power"@], "sensor.power"@),
        rule("put"@, seq!["sensors"@, ":id"@, "device-config"@], "sensor.deviceConfig.save"@),
        rule("put"@, seq!["sensor-limits"@], "sensor.limit.save"@),
        rule("post"@, seq!["recipes"@], "recipe.create"@),
        rule("put"@, seq!["recipes"@, ":id"@], "recipe.update"@),
        rule("delete"@, seq!["recipes"@, ":id"@], "recipe.delete"@),
        rule("post"@, seq!["samplings"@], "sampling.create"@),
        rule("put"@, seq!["samplings"@, "custom-fields"@], "sampling.customFields.save"@),
        rule("put"@, seq!["samplings"@, ":id"@], "sampling.update"@),
        rule("delete"@, seq!["samplings"@, ":id"@], "sampling.delete"@),
        rule("post"@, seq!["samplings"@, ":id"@, "abort"@], "sampling.abort"@),
        rule("post"@, seq!["realtime"@, "batch-power"@], "realtime.batchPower"@),
        rule("post"@, seq!["alarms"@, ":id"@, "ack"@], "alarm.ack"@),
        rule("post"@, seq!["alarms"@, "ack-all"@], "alarm.ackAll"@),
        rule("post"@, seq!["rt-trend"@, "start"@], "rtTrend.start"@),
        rule("post"@, seq!["rt-trend"@, "stop"@], "rtTrend.stop"@),
        rule("post"@, seq!["runtime-rules"@], "runtimeRule.create"@),
        rule("put"@, seq!["runtime-rules"@, ":id"@], "runtimeRule.update"@),
        rule("delete"@, seq!["runtime-rules"@, ":id"@], "runtimeRule.delete"@),
        rule("post"@, seq!["reports"@, "generate"@], "report.generate"@),
        rule("get"@, seq!["reports"@, ":id"@, "export"@], "report.export"@),
        rule("post"@, seq!["sda"@, "sessions"@], "sda.session.create"@),
        rule("put"@, seq!["sda"@, "sessions"@, ":id"@], "sda.session.update"@),
        rule("post"@, seq!["sda"@, "analyze"@], "sda.analyze"@),
        rule("put"@, seq!["password-policy"@], "passwordPolicy.update"@),
        rule("post"@, seq!["electronic-signature"@], "esign.submit"@),
        rule("put"@, seq!["system"@, "backup-config"@], "system.backupConfig.save"@),
        rule("post"@, seq!["system"@, "backup"@], "system.backup.run"@),
        rule("post"@, seq!["system"@, "restore"@], "system.restore"@),
        rule("post"@, seq!["system"@, "command"@], "system.command"@),
        rule("put"@, seq!["system"@, "language"@], "system.language.save"@),
        rule("post"@, seq!["system"@, "reset-buffer"@], "system.resetBuffer"@),
        rule("post"@, seq!["system"@, "facility"@], "facility.create"@),
        rule("put"@, seq!["system"@, "facility"@, ":id"@], "facility.update"@),
        rule("delete"@, seq!["system"@, "facility"@, ":id"@], "facility.delete"@),
        rule("post"@, seq!["setup"@, "init-db"@], "setup.initDb"@),
        rule("put"@, seq!["setup"@, "wizard"@], "setup.wizard.save"@),
        rule("put"@, seq!["setup"@, "calibration"@], "setup.calibration.save"@),
        rule("post"@, seq!["management"@, "user"@], "user.create"@),
        rule("put"@, seq!["management"@, "user"@, ":id"@], "user.update"@),
        rule("delete"@, seq!["management"@, "user"@, ":id"@], "user.delete"@),
    ]
}

/// A pattern segment matches a path segment.
pub open spec fn segment_matches(pattern: Seq<char>, segment: Seq<char>) -> bool {
    pattern == wildcard() || pattern == segment
}

/// A rule matches a lowercase method and the route segments.
pub open spec fn rule_matches(r: RouteRule, method: Seq<char>, segs: Seq<Seq<char>>) -> bool {
    &&& r.method == method
    &&& if r.open_end {
        segs.len() >= r.segments.len()
    } else {
        segs.len() == r.segments.len()
    }
    &&& forall|i: int|
        0 <= i < r.segments.len() ==> segment_matches(r.segments[i], #[trigger] segs[i])
}

/// The index of the first rule from `start` on that matches.
pub open spec fn first_match(
    rules: Seq<RouteRule>,
    start: int,
    method: Seq<char>,
    segs: Seq<Seq<char>>,
) -> Option<int>
    decreases rules.len() - start,
{
    if start < 0 || start >= rules.len() {
        None
    } else if rule_matches(rules[start], method, segs) {
        Some(start)
    } else {
        first_match(rules, start + 1, method, segs)
    }
}

/// The index of the first wildcard segment from `start` on.
pub open spec fn first_wildcard(segments: Seq<Seq<char>>, start: int) -> Option<int>
    decreases segments.len() - start,
{
    if start < 0 || start >= segments.len() {
        None
    } else if segments[start] == wildcard() {
        Some(start)
    } else {
        first_wildcard(segments, start + 1)
    }
}

/// The first segment from `start` on that consists of digits only.
pub open spec fn first_numeric(segs: Seq<Seq<char>>, start: int) -> Option<Seq<char>>
    decreases segs.len() - start,
{
    if start < 0 || start >= segs.len() {
        None
    } else if all_digits(segs[start]) {
        Some(segs[start])
    } else {
        first_numeric(segs, start + 1)
    }
}

/// The audit action, target type and target id of a request. The method is
/// lowercased; the target type is the first route segment (`api` when there is
/// none); the action is that of the first matching route rule, whose `:id` segment
/// gives the target id, else `api.<method>` with the first all-digit segment as id.
pub open spec fn audit_mapping(method: Seq<char>, path: Seq<char>) -> (
    Seq<char>,
    Seq<char>,
    Option<Seq<char>>,
) {
    mapping_for(unicode_lower(method), path)
}

/// The audit action, target type and target id of a request whose method name is
/// already lowercased to `m`.
pub open spec fn mapping_for(m: Seq<char>, path: Seq<char>) -> (
    Seq<char>,
    Seq<char>,
    Option<Seq<char>>,
) {
    let segs = route_segments(path);
    let target_type = if segs.len() > 0 {
        segs[0]
    } else {
        "api"@
    };
    let default_id = first_numeric(segs, 0);
    match first_match(route_rules(), 0, m, segs) {
        Some(k) => {
            let r = route_rules()[k];
            (
                r.action,
                target_type,
                match first_wildcard(r.segments, 0) {
                    Some(w) => Some(segs[w]),
                    None => default_id,
                },
            )
        },
        None => (seq!['a', 'p', 'i', '.'] + m, target_type, default_id),
    }
}

/// An executable route rule.
pub struct Rule {
    pub method: String,
    pub segments: Vec<String>,
    pub open_end: bool,
    pub action: String,
}

/// The rule a `Rule` holds.
pub open spec fn rule_view(r: Rule) -> RouteRule {
    RouteRule {
        method: r.method@,
        segments: r.segments@.map_values(|s: String| s@),
        open_end: r.open_end,
        action: r.action@,
    }
}

fn rule1(method: &str, a: &str, action: &str) -> (r: Rule)
    ensures
        rule_view(r) == rule(method@, seq![a@], action@),
{
    let mut v: Vec<String> = Vec::new();
    v.push(String::from_str(a));
    assert(v@.map_values(|s: String| s@) =~= seq![a@]);
    Rule { method: String::from_str(method), segments: v, open_end: false, action: String::from_str(action) }
}

fn rule2(method: &str, a: &str, b: &str, action: &str) -> (r: Rule)
    ensures
        rule_view(r) == rule(method@, seq![a@, b@], action@),
{
    let mut v: Vec<String> = Vec::new();
    v.push(String::from_str(a));
    v.push(String::from_str(b));
    assert(v@.map_values(|s: String| s@) =~= seq![a@, b@]);
    Rule { method: String::from_str(method), segments: v, open_end: false, action: String::from_str(action) }
}

fn rule3(method: &str, a: &str, b: &str, c: &str, action: &str) -> (r: Rule)
    ensures
        rule_view(r) == rule(method@, seq![a@, b@, c@], action@),
{
    let mut v: Vec<String> = Vec::new();
    v.push(String::from_str(a));
    v.push(String::from_str(b));
    v.push(String::from_str(c));
    assert(v@.map_values(|s: String| s@) =~= seq![a@, b@, c@]);
    Rule { method: String::from_str(method), segments: v, open_end: false, action: String::from_str(action) }
}

/// The route table as executable rules.
pub fn route_table() -> (r: Vec<Rule>)
    ensures
        r@.map_values(|x: Rule| rule_view(x)) == route_rules(),
{
    let mut t: Vec<Rule> = Vec::new();
    t.push(rule1("post", "login", "auth.login"));
    t.push(rule1("post", "sensors", "sensor.create"));
    let mut open: Vec<String> = Vec::new();
    open.push(String::from_str("sensors"));
    open.push(String::from_str(":id"));
    assert(open@.map_values(|s: String| s@) =~= seq!["sensors"@, ":id"@]);
    t.push(Rule { method: String::from_str("delete"), segments: open, open_end: true, action: String::from_str("sensor.delete") });
    t.push(rule3("post", "sensors", ":id", "restore", "sensor.restore"));
    t.push(rule3("put", "sensors", ":id", "meta", "sensor.meta.update"));
    t.push(rule3("post", "sensors", ":id", "power", "sensor.power"));
    t.push(rule3("put", "sensors", ":id", "device-config", "sensor.deviceConfig.save"));
    t.push(rule1("put", "sensor-limits", "sensor.limit.save"));
    t.push(rule1("post", "recipes", "recipe.create"));
    t.push(rule2("put", "recipes", ":id", "recipe.update"));
    t.push(rule2("delete", "recipes", ":id", "recipe.delete"));
    t.push(rule1("post", "samplings", "sampling.create"));
    t.push(rule2("put", "samplings", "custom-fields", "sampling.customFields.save"));
    t.push(rule2("put", "samplings", ":id", "sampling.update"));
    t.push(rule2("delete", "samplings", ":id", "sampling.delete"));
    t.push(rule3("post", "samplings", ":id", "abort", "sampling.abort"));
    t.push(rule2("post", "realtime", "batch-power", "realtime.batchPower"));
    t.push(rule3("post", "alarms", ":id", "ack", "alarm.ack"));
    t.push(rule2("post", "alarms", "ack-all", "alarm.ackAll"));
    t.push(rule2("post", "rt-trend", "start", "rtTrend.start"));
    t.push(rule2("post", "rt-trend", "stop", "rtTrend.stop"));
    t.push(rule1("post", "runtime-rules", "runtimeRule.create"));
    t.push(rule2("put", "runtime-rules", ":id", "runtimeRule.update"));
    t.push(rule2("delete", "runtime-rules", ":id", "runtimeRule.delete"));
    t.push(rule2("post", "reports", "generate", "report.generate"));
    t.push(rule3("get", "reports", ":id", "export", "report.export"));
    t.push(rule2("post", "sda", "sessions", "sda.session.create"));
    t.push(rule3("put", "sda", "sessions", ":id", "sda.session.update"));
    t.push(rule2("post", "sda", "analyze", "sda.analyze"));
    t.push(rule1("put", "password-policy", "passwordPolicy.update"));
    t.push(rule1("post", "electronic-signature", "esign.submit"));
    t.push(rule2("put", "system", "backup-config", "system.backupConfig.save"));
    t.push(rule2("post", "system", "backup", "system.backup.run"));
    t.push(rule2("post", "system", "restore", "system.restore"));
    t.push(rule2("post", "system", "command", "system.command"));
    t.push(rule2("put", "system", "language", "system.language.save"));
    t.push(rule2("post", "system", "reset-buffer", "system.resetBuffer"));
    t.push(rule2("post", "system", "facility", "facility.create"));
    t.push(rule3("put", "system", "facility", ":id", "facility.update"));
    t.push(rule3("delete", "system", "facility", ":id", "facility.delete"));
    t.push(rule2("post", "setup", "init-db", "setup.initDb"));
    t.push(rule2("put", "setup", "wizard", "setup.wizard.save"));
    t.push(rule2("put", "setup", "calibration", "setup.calibration.save"));
    t.push(rule2("post", "management", "user", "user.create"));
    t.push(rule3("put", "management", "user", ":id", "user.update"));
    t.push(rule3("delete", "management", "user", ":id", "user.delete"));
    assert(t@.map_values(|x: Rule| rule_view(x)) =~= route_rules());
    t
}

fn rule_matches_exec(r: &Rule, method: &[char], segs: &Vec<Vec<char>>) -> (b: bool)
    ensures
        b == rule_matches(rule_view(*r), method@, views(segs@)),
{
    let mc = chars_of(r.method.as_str());
    if !crate::text::eq(mc.as_slice(), method) {
        return false;
    }
    let n = r.segments.len();
    if r.open_end {
        if segs.len() < n {
            return false;
        }
    } else if segs.len() != n {
        return false;
    }
    let mut i: usize = 0;
    while i < n
        invariant
            n == r.segments@.len(),
            n <= segs@.len(),
            i <= n,
            forall|j: int|
                0 <= j < i ==> segment_matches(r.segments@[j]@, #[trigger] views(segs@)[j]),
        decreases n - i,
    {
        let pc = chars_of(r.segments[i].as_str());
        let ok = eq_str(pc.as_slice(), ":id") || crate::text::eq(pc.as_slice(), segs[i].as_slice());
        if !ok {
            assert(!segment_matches(rule_view(*r).segments[i as int], views(segs@)[i as int]));
            return false;
        }
        i += 1;
    }
    true
}

fn first_wildcard_exec(segments: &Vec<String>) -> (r: Option<usize>)
    ensures
        match r {
            Some(w) => first_wildcard(segments@.map_values(|s: String| s@), 0) == Some(w as int),
            None => first_wildcard(segments@.map_values(|s: String| s@), 0) is None,
        },
{
    let ghost sv = segments@.map_values(|s: String| s@);
    let mut i: usize = 0;
    while i < segments.len()
        invariant
            i <= segments@.len(),
            sv == segments@.map_values(|s: String| s@),
            first_wildcard(sv, 0) == first_wildcard(sv, i as int),
        decreases segments.len() - i,
    {
        let c = chars_of(segments[i].as_str());
        if eq_str(c.as_slice(), ":id") {
            return Some(i);
        }
        i += 1;
    }
    None
}

fn first_numeric_exec(segs: &Vec<Vec<char>>) -> (r: Option<String>)
    ensures
        crate::text::opt_view(r) == first_numeric(views(segs@), 0),
{
    let mut i: usize = 0;
    while i < segs.len()
        invariant
            i <= segs@.len(),
            first_numeric(views(segs@), 0) == first_numeric(views(segs@), i as int),
        decreases segs.len() - i,
    {
        if crate::text::all_digit_chars(segs[i].as_slice()) {
            return Some(string_from(segs[i].as_slice()));
        }
        i += 1;
    }
    None
}

/// The audit action, target type and target id of a request by method name and path.
pub fn map_action(method: &str, path: &str) -> (r: (String, String, Option<String>))
    ensures
        (r.0@, r.1@, crate::text::opt_view(r.2)) == audit_mapping(method@, path@),
        all_ascii(method@) ==> (r.0@, r.1@, crate::text::opt_view(r.2)) == mapping_for(
            method@.map_values(|c: char| ascii_lower(c)),
            path@,
        ),
{
    let lower = to_lowercase(method);
    let m = chars_of(lower.as_str());
    let segs = route_segments_of(path);
    assert(views(segs@).len() == segs@.len());
    let target_type = if segs.len() > 0 {
        assert(views(segs@)[0] == segs@[0]@);
        string_from(segs[0].as_slice())
    } else {
        String::from_str("api")
    };
    let default_id = first_numeric_exec(&segs);
    let rules = route_table();
    let ghost rv = rules@.map_values(|x: Rule| rule_view(x));
    let mut k: usize = 0;
    while k < rules.len()
        invariant
            k <= rules@.len(),
            rv == route_rules(),
            rv == rules@.map_values(|x: Rule| rule_view(x)),
            m@ == unicode_lower(method@),
            all_ascii(method@) ==> m@ == method@.map_values(|c: char| ascii_lower(c)),
            views(segs@) == route_segments(path@),
            views(segs@).len() == segs@.len(),
            target_type@ == (if segs@.len() > 0 {
                views(segs@)[0]
            } else {
                "api"@
            }),
            crate::text::opt_view(default_id) == first_numeric(views(segs@), 0),
            first_match(rv, 0, m@, views(segs@)) == first_match(rv, k as int, m@, views(segs@)),
        decreases rules.len() - k,
    {
        if rule_matches_exec(&rules[k], m.as_slice(), &segs) {
            assert(rv[k as int] == rule_view(rules@[k as int]));
            assert(first_match(rv, k as int, m@, views(segs@)) == Some(k as int));
            let action = copy_string(&rules[k].action);
            let id = match first_wildcard_exec(&rules[k].segments) {
                Some(w) => {
                    assert(w < rules@[k as int].segments@.len()) by {
                        lemma_first_wildcard_bound(rv[k as int].segments, 0);
                    }
                    assert(views(segs@)[w as int] == segs@[w as int]@);
                    Some(string_from(segs[w].as_slice()))
                },
                None => default_id,
            };
            return (action, target_type, id);
        }
        k += 1;
    }
    let mut action = String::from_str("api.");
    action.append(lower.as_str());
    proof {
        reveal_strlit("api.");
        assert("api."@ =~= seq!['a', 'p', 'i', '.']);
    }
    (action, target_type, default_id)
}

proof fn lemma_first_wildcard_bound(segments: Seq<Seq<char>>, start: int)
    ensures
        first_wildcard(segments, start) matches Some(w) ==> 0 <= start <= w < segments.len(),
    decreases segments.len() - start,
{
    if 0 <= start < segments.len() && segments[start] != wildcard() {
        lemma_first_wildcard_bound(segments, start + 1);
    }
}

// ---------------------------------------------------------------------------
// Audit records
// ---------------------------------------------------------------------------

/// The fields of an audit record written for an HTTP request.
pub struct AuditRecord {
    pub action: String,
    pub target_type: String,
    pub target_id: Option<String>,
    pub performed_by: String,
    pub role_code: String,
}

/// A header value, trimmed, or `fallback` when that is empty.
pub open spec fn header_or(value: Seq<char>, fallback: Seq<char>) -> Seq<char> {
    if trim(value).len() == 0 {
        fallback
    } else {
        trim(value)
    }
}

/// The record the audit middleware writes for a request that has been answered, or
/// `None`: only automatically audited requests with a successful answer are
/// recorded, and never a login (its handler writes a fuller record). The user and
/// role come from the `x-audit-user` / `x-audit-role` headers (trimmed; `anonymous`
/// and `user` when empty).
pub fn plan_http_audit(
    method: &str,
    path: &str,
    user_header: &str,
    role_header: &str,
    success: bool,
) -> (r: Option<AuditRecord>)
    ensures
        r is Some <==> (auto_audited(method@, path@) && success && audit_mapping(method@, path@).0
            != "auth.login"@),
        r matches Some(rec) ==> {
            &&& (rec.action@, rec.target_type@, crate::text::opt_view(rec.target_id))
                == audit_mapping(method@, path@)
            &&& rec.performed_by@ == header_or(user_header@, "anonymous"@)
            &&& rec.role_code@ == header_or(role_header@, "user"@)
        },
{
    let performed_by = {
        let h = trim_string(user_header);
        if h.as_str().is_empty() {
            String::from_str("anonymous")
        } else {
            h
        }
    };
    let role_code = {
        let h = trim_string(role_header);
        if h.as_str().is_empty() {
            String::from_str("user")
        } else {
            h
        }
    };
    if !should_auto_audit(method, path) || !success {
        return None;
    }
    let (action, target_type, target_id) = map_action(method, path);
    let ac = chars_of(action.as_str());
    if eq_str(ac.as_slice(), "auth.login") {
        return None;
    }
    Some(AuditRecord { action, target_type, target_id, performed_by, role_code })
}

/// The fields of an audit record reported by the client.
pub struct ClientAuditFields {
    pub target_type: String,
    pub performed_by: String,
    pub role_code: String,
}

/// A body value if present and non-empty, else a header value if non-empty, else
/// `fallback`.
pub open spec fn body_header_or(
    body: Option<String>,
    header: Seq<char>,
    fallback: Seq<char>,
) -> Seq<char> {
    match body {
        Some(b) if b@.len() > 0 => b@,
        _ => if header.len() > 0 {
            header
        } else {
            fallback
        },
    }
}

fn pick(body: Option<String>, header: &str, fallback: &str) -> (r: String)
    ensures
        r@ == body_header_or(body, header@, fallback@),
{
    match body {
        Some(b) => {
            if !b.as_str().is_empty() {
                return b;
            }
        },
        None => {},
    }
    if !header.is_empty() {
        String::from_str(header)
    } else {
        String::from_str(fallback)
    }
}

/// The fields of a client-reported audit record, or `None` when its action is blank:
/// the target type defaults to `client`; the user and role come from the body, else
/// the `x-audit-user` / `x-audit-role` headers, else `anonymous` and `user`.
pub fn client_audit_fields(
    action: &str,
    target_type: Option<String>,
    performed_by: Option<String>,
    role_code: Option<String>,
    user_header: &str,
    role_header: &str,
) -> (r: Option<ClientAuditFields>)
    ensures
        r is None <==> trim(action@).len() == 0,
        r matches Some(f) ==> {
            &&& f.target_type@ == match target_type {
                Some(t) => t@,
                None => "client"@,
            }
            &&& f.performed_by@ == body_header_or(performed_by, user_header@, "anonymous"@)
            &&& f.role_code@ == body_header_or(role_code, role_header@, "user"@)
        },
{
    let a = trim_string(action);
    if a.as_str().is_empty() {
        return None;
    }
    let target_type = match target_type {
        Some(t) => t,
        None => String::from_str("client"),
    };
    Some(
        ClientAuditFields {
            target_type,
            performed_by: pick(performed_by, user_header, "anonymous"),
            role_code: pick(role_code, role_header, "user"),
        },
    )
}

/// No route rule's action begins with `api.`.
proof fn lemma_rule_actions_not_api()
    ensures
        forall|k: int|
            0 <= k < route_rules().len() ==> !has_prefix(
                #[trigger] route_rules()[k].action,
                seq!['a', 'p', 'i', '.'],
            ),
{
    reveal_strlit("auth.login");
    reveal_strlit("sensor.create");
    reveal_strlit("sensor.delete");
    reveal_strlit("sensor.restore");
    reveal_strlit("sensor.meta.update");
    reveal_strlit("sensor.power");
    reveal_strlit("sensor.deviceConfig.save");
    reveal_strlit("sensor.limit.save");
    reveal_strlit("recipe.create");
    reveal_strlit("recipe.update");
    reveal_strlit("recipe.delete");
    reveal_strlit("sampling.create");
    reveal_strlit("sampling.customFields.save");
    reveal_strlit("sampling.update");
    reveal_strlit("sampling.delete");
    reveal_strlit("sampling.abort");
    reveal_strlit("realtime.batchPower");
    reveal_strlit("alarm.ack");
    reveal_strlit("alarm.ackAll");
    reveal_strlit("rtTrend.start");
    reveal_strlit("rtTrend.stop");
    reveal_strlit("runtimeRule.create");
    reveal_strlit("runtimeRule.update");
    reveal_strlit("runtimeRule.delete");
    reveal_strlit("report.generate");
    reveal_strlit("report.export");
    reveal_strlit("sda.session.create");
    reveal_strlit("sda.session.update");
    reveal_strlit("sda.analyze");
    reveal_strlit("passwordPolicy.update");
    reveal_strlit("esign.submit");
    reveal_strlit("system.backupConfig.save");
    reveal_strlit("system.backup.run");
    reveal_strlit("system.restore");
    reveal_strlit("system.command");
    reveal_strlit("system.language.save");
    reveal_strlit("system.resetBuffer");
    reveal_strlit("facility.create");
    reveal_strlit("facility.update");
    reveal_strlit("facility.delete");
    reveal_strlit("setup.initDb");
    reveal_strlit("setup.wizard.save");
    reveal_strlit("setup.calibration.save");
    reveal_strlit("user.create");
    reveal_strlit("user.update");
    reveal_strlit("user.delete");
    assert forall|k: int| 0 <= k < route_rules().len() implies !has_prefix(
        #[trigger] route_rules()[k].action,
        seq!['a', 'p', 'i', '.'],
    ) by {
        let a = route_rules()[k].action;
        assert(a.len() < 4 || a[0] != 'a' || a[1] != 'p' || a[2] != 'i' || a[3] != '.');
        if a.len() >= 4 {
            assert(a.take(4)[0] == a[0] && a.take(4)[1] == a[1]);
            assert(a.take(4)[2] == a[2] && a.take(4)[3] == a[3]);
        }
    }
}

/// The target type of a request is its first route segment (`api` when there is
/// none), and an action in the `api.` family is the fallback: `api.` followed by the
/// lowercased method, with the first all-digit segment as the target id.
pub proof fn law_unmatched_route(method: Seq<char>, path: Seq<char>)
    ensures
        ({
            let (action, target_type, id) = audit_mapping(method, path);
            let segs = route_segments(path);
            &&& target_type == (if segs.len() > 0 {
                segs[0]
            } else {
                "api"@
            })
            &&& has_prefix(action, seq!['a', 'p', 'i', '.']) ==> action == seq!['a', 'p', 'i', '.']
                + unicode_lower(method) && id == first_numeric(segs, 0)
        }),
{
    lemma_rule_actions_not_api();
    let m = unicode_lower(method);
    let segs = route_segments(path);
    lemma_first_match_bound(route_rules(), 0, m, segs);
}

proof fn lemma_first_match_bound(
    rules: Seq<RouteRule>,
    start: int,
    method: Seq<char>,
    segs: Seq<Seq<char>>,
)
    ensures
        first_match(rules, start, method, segs) matches Some(k) ==> 0 <= start <= k < rules.len(),
    decreases rules.len() - start,
{
    if 0 <= start < rules.len() && !rule_matches(rules[start], method, segs) {
        lemma_first_match_bound(rules, start + 1, method, segs);
    }
}

/// The requests whose handlers write their own, fuller audit record are left out of
/// automatic auditing, so each is audited once: changing the password policy,
/// submitting an electronic signature or a user event, running a backup, a restore
/// or a system command, resetting the buffer, initialising the database,
/// acknowledging alarms (one or all), and starting or stopping a trend.
pub proof fn law_handler_audited_routes(alarm_id: Seq<char>)
    ensures
        already_audited("PUT"@, "/api/password-policy"@),
        !auto_audited("PUT"@, "/api/password-policy"@),
        already_audited("POST"@, "/api/electronic-signature"@),
        !auto_audited("POST"@, "/api/electronic-signature"@),
        already_audited("POST"@, "/api/user-events"@),
        !auto_audited("POST"@, "/api/user-events"@),
        already_audited("POST"@, "/api/system/backup"@),
        !auto_audited("POST"@, "/api/system/backup"@),
        already_audited("POST"@, "/api/system/restore"@),
        !auto_audited("POST"@, "/api/system/restore"@),
        already_audited("POST"@, "/api/system/command"@),
        !auto_audited("POST"@, "/api/system/command"@),
        already_audited("POST"@, "/api/system/reset-buffer"@),
        !auto_audited("POST"@, "/api/system/reset-buffer"@),
        already_audited("POST"@, "/api/setup/init-db"@),
        !auto_audited("POST"@, "/api/setup/init-db"@),
        already_audited("POST"@, "/api/alarms/ack-all"@),
        !auto_audited("POST"@, "/api/alarms/ack-all"@),
        already_audited("POST"@, "/api/rt-trend/start"@),
        !auto_audited("POST"@, "/api/rt-trend/start"@),
        already_audited("POST"@, "/api/rt-trend/stop"@),
        !auto_audited("POST"@, "/api/rt-trend/stop"@),
        already_audited("POST"@, "/api/alarms/"@ + alarm_id + "/ack"@),
        !auto_audited("POST"@, "/api/alarms/"@ + alarm_id + "/ack"@),
{
    let p = "/api/alarms/"@ + alarm_id + "/ack"@;
    reveal_strlit("/api/alarms/");
    reveal_strlit("/ack");
    assert(p.take(12) =~= "/api/alarms/"@);
    assert(p.skip(p.len() - 4) =~= "/ack"@);
}

/// A request that its handler audits is never audited automatically as well.
pub proof fn law_audited_once(method: Seq<char>, path: Seq<char>)
    ensures
        already_audited(method, path) ==> !auto_audited(method, path),
{
}

} // verus!
