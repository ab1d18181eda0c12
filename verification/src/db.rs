//! Database configuration, the SQL script splitter and password hashing.

use crate::text::{
    chars_of, ends_with, has_prefix, has_suffix, parse_int, parse_u16, slice_chars, split_chars, split_on,
    starts_with, string_from, to_lowercase, trim, trim_chars, unicode_lower, views, all_ascii,
    ascii_lower, is_white, trim_start, trim_end,
};
use vstd::prelude::*;

verus! {

// ---------------------------------------------------------------------------
// MD5 (`md5` crate)
// ---------------------------------------------------------------------------

/// What `format!("{:x}", md5::compute(bytes))` gives for a string with these characters.
pub uninterp spec fn md5_hex_of(input: Seq<char>) -> Seq<char>;

/// A lowercase hexadecimal digit.
pub open spec fn is_lower_hex(c: char) -> bool {
    ('0' <= c <= '9') || ('a' <= c <= 'f')
}

/// `md5::compute` of the UTF-8 bytes of `input`, written in lowercase hexadecimal.
/// The digest is named `md5_hex_of`; the `md5` crate's `LowerHex` writes each of the
/// 16 digest bytes as two lowercase hex digits, so the text has 32 such characters.
#[verifier::external_body]
pub fn md5_hex(input: &str) -> (r: String)
    ensures
        r@ == md5_hex_of(input@),
        r@.len() == 32,
        forall|i: int| 0 <= i < r@.len() ==> is_lower_hex(#[trigger] r@[i]),
{
    format!("{:x}", md5::compute(input.as_bytes()))
}

// ---------------------------------------------------------------------------
// Paths (std `Path` / `PathBuf`)
// ---------------------------------------------------------------------------

/// Whether std's `Path` takes this text for a relative path (`Path::is_relative`).
pub uninterp spec fn path_text_is_relative(p: Seq<char>) -> bool;

/// The text of the path that std's `Path::join` makes of `base` and `p`.
pub uninterp spec fn path_text_join(base: Seq<char>, p: Seq<char>) -> Seq<char>;

/// std `Path::new(p).is_relative()`. Its result is named `path_text_is_relative`; which
/// texts are relative follows the path rules of the platform the crate is built for,
/// and nothing more is stated of it.
#[verifier::external_body]
fn path_is_relative(p: &str) -> (r: bool)
    ensures
        r == path_text_is_relative(p@),
{
    std::path::Path::new(p).is_relative()
}

/// std `Path::new(base).join(p)`, as text. Its result is named `path_text_join`; the
/// separator it puts between the two follows the platform the crate is built for, and
/// nothing more is stated of it. Both arguments are UTF-8, so the joined path is too
/// and its text is taken without loss.
#[verifier::external_body]
fn path_join(base: &str, p: &str) -> (r: String)
    ensures
        r@ == path_text_join(base@, p@),
{
    std::path::Path::new(base).join(p).to_string_lossy().into_owned()
}

// ---------------------------------------------------------------------------
// Configuration
// ---------------------------------------------------------------------------

/// Where a configured SQLite path points at run time: a relative path is joined
/// onto the data directory, any other path is kept.
pub open spec fn runtime_path(path: Seq<char>, data_dir: Seq<char>) -> Seq<char> {
    if path_text_is_relative(path) {
        path_text_join(data_dir, path)
    } else {
        path
    }
}

/// A path that is not relative is left as it is, so resolving a configuration whose
/// path is already absolute, or resolving again once it has become so, changes nothing.
pub proof fn law_absolute_path_kept(path: Seq<char>, data_dir: Seq<char>)
    requires
        !path_text_is_relative(path),
    ensures
        runtime_path(path, data_dir) == path,
        runtime_path(runtime_path(path, data_dir), data_dir) == runtime_path(path, data_dir),
{
}

/// Database connection settings.
pub struct DbConfig {
    pub driver: String,
    /// The SQLite file, as path text.
    pub sqlite_path: String,
    pub host: String,
    pub port: u16,
    pub database: String,
    pub user: String,
    pub password: String,
}

/// `value`, or `default` when absent.
pub open spec fn or_default(value: Option<String>, default: Seq<char>) -> Seq<char> {
    match value {
        Some(v) => v@,
        None => default,
    }
}

fn value_or(value: Option<String>, default: &str) -> (r: String)
    ensures
        r@ == or_default(value, default@),
{
    match value {
        Some(v) => v,
        None => String::from_str(default),
    }
}

/// The port that a `DB_PORT` setting selects: its value as a `u16`, else 3306.
pub open spec fn port_setting(value: Option<String>) -> int {
    match value {
        Some(v) => match parse_int(v@, false, 0, u16::MAX as int) {
            Some(p) => p,
            None => 3306,
        },
        None => 3306,
    }
}

impl DbConfig {
    /// The configuration for the given `DB_*` settings (each `None` when unset):
    /// the defaults are `sqlite`, `field-test.db`, `127.0.0.1`, 3306, `soybean_admin`,
    /// `root` and an empty password; a port that does not parse as `u16` gives 3306.
    pub fn from_env_values(
        driver: Option<String>,
        sqlite_path: Option<String>,
        host: Option<String>,
        port: Option<String>,
        database: Option<String>,
        user: Option<String>,
        password: Option<String>,
    ) -> (r: DbConfig)
        ensures
            r.driver@ == or_default(driver, "sqlite"@),
            r.sqlite_path@ == or_default(sqlite_path, "field-test.db"@),
            r.host@ == or_default(host, "127.0.0.1"@),
            r.port as int == port_setting(port),
            r.database@ == or_default(database, "soybean_admin"@),
            r.user@ == or_default(user, "root"@),
            r.password@ == or_default(password, Seq::<char>::empty()),
    {
        let port_value: u16 = match &port {
            Some(p) => {
                let pc = chars_of(p.as_str());
                match parse_u16(pc.as_slice()) {
                    Some(n) => n,
                    None => 3306,
                }
            },
            None => 3306,
        };
        let password = match password {
            Some(p) => p,
            None => String::new(),
        };
        DbConfig {
            driver: value_or(driver, "sqlite"),
            sqlite_path: value_or(sqlite_path, "field-test.db"),
            host: value_or(host, "127.0.0.1"),
            port: port_value,
            database: value_or(database, "soybean_admin"),
            user: value_or(user, "root"),
            password,
        }
    }

    /// Places a relative SQLite path under `data_dir`: the path becomes `data_dir`
    /// joined with it; a path that is not relative, and every other setting, is kept.
    pub fn resolve_for_runtime(self, data_dir: &str) -> (r: DbConfig)
        ensures
            r.sqlite_path@ == runtime_path(self.sqlite_path@, data_dir@),
            r.driver@ == self.driver@,
            r.host@ == self.host@,
            r.port == self.port,
            r.database@ == self.database@,
            r.user@ == self.user@,
            r.password@ == self.password@,
    {
        let mut c = self;
        if path_is_relative(c.sqlite_path.as_str()) {
            c.sqlite_path = path_join(data_dir, c.sqlite_path.as_str());
        }
        c
    }
}

// ---------------------------------------------------------------------------
// SQL script splitting
// ---------------------------------------------------------------------------

/// `s` without a trailing carriage return.
pub open spec fn strip_cr(s: Seq<char>) -> Seq<char> {
    if s.len() > 0 && s.last() == '\r' {
        s.drop_last()
    } else {
        s
    }
}

/// `str::lines`: pieces between `\n`, each without the `\r` before its `\n`; a
/// final line ending adds no empty line.
pub open spec fn lines(s: Seq<char>) -> Seq<Seq<char>> {
    let p = split_on(s, '\n');
    let ended = p.take(p.len() - 1).map_values(|l: Seq<char>| strip_cr(l));
    if p.last().len() == 0 {
        ended
    } else {
        ended.push(p.last())
    }
}

/// `s` without its trailing `;` characters (`trim_end_matches(';')`).
pub open spec fn strip_semicolons(s: Seq<char>) -> Seq<char>
    decreases s.len(),
{
    if s.len() > 0 && s.last() == ';' {
        strip_semicolons(s.drop_last())
    } else {
        s
    }
}

/// The statement that a buffered chunk of script gives.
pub open spec fn statement_of(buf: Seq<char>) -> Seq<char> {
    trim(strip_semicolons(trim(buf)))
}

/// `out` with `stmt` appended unless it is empty.
pub open spec fn push_statement(out: Seq<Seq<char>>, stmt: Seq<char>) -> Seq<Seq<char>> {
    if stmt.len() == 0 {
        out
    } else {
        out.push(stmt)
    }
}

/// The statements collected and the pending buffer after reading these lines: lines
/// whose trimmed text starts with `--` are skipped, the others are buffered with a
/// `\n`, and a line whose trimmed text ends with `;` closes the buffered statement.
pub open spec fn scan_lines(ls: Seq<Seq<char>>) -> (Seq<Seq<char>>, Seq<char>)
    decreases ls.len(),
{
    if ls.len() == 0 {
        (Seq::empty(), Seq::empty())
    } else {
        let (out, buf) = scan_lines(ls.drop_last());
        let line = ls.last();
        let t = trim(line);
        if has_prefix(t, seq!['-', '-']) {
            (out, buf)
        } else {
            let b = buf + line.push('\n');
            if has_suffix(t, seq![';']) {
                (push_statement(out, statement_of(b)), Seq::empty())
            } else {
                (out, b)
            }
        }
    }
}

/// The statements of a SQL script, in order.
pub open spec fn script_statements(sql: Seq<char>) -> Seq<Seq<char>> {
    let (out, buf) = scan_lines(lines(sql));
    push_statement(out, statement_of(buf))
}

/// How many of these lines close a statement: not a `--` comment, and ending in `;`
/// once trimmed.
pub open spec fn closing_lines(ls: Seq<Seq<char>>) -> nat
    decreases ls.len(),
{
    if ls.len() == 0 {
        0
    } else {
        let t = trim(ls.last());
        closing_lines(ls.drop_last()) + if !has_prefix(t, seq!['-', '-']) && has_suffix(t, seq![';']) {
            1nat
        } else {
            0nat
        }
    }
}

/// `l`, once its leading whitespace is gone, starts with `--`.
pub open spec fn comment_start(l: Seq<char>) -> bool {
    has_prefix(trim_start(l), seq!['-', '-'])
}

/// No piece of `t` between line breaks is a `--` comment.
pub open spec fn no_comment_pieces(t: Seq<char>) -> bool {
    forall|k: int|
        0 <= k < split_on(t, '\n').len() ==> !comment_start(#[trigger] split_on(t, '\n')[k])
}

proof fn lemma_trim_end_keeps(x: Seq<char>, i: int)
    requires
        0 <= i < x.len(),
        !is_white(x[i]),
    ensures
        trim_end(x).len() > i,
    decreases x.len(),
{
    if is_white(x.last()) {
        assert(x.drop_last()[i] == x[i]);
        lemma_trim_end_keeps(x.drop_last(), i);
    }
}

proof fn lemma_comment_trim(l: Seq<char>)
    ensures
        has_prefix(trim(l), seq!['-', '-']) <==> comment_start(l),
{
    let x = trim_start(l);
    crate::text::lemma_trim_end_shape(x);
    let y = trim_end(x);
    if has_prefix(y, seq!['-', '-']) {
        assert(x.take(2) =~= y.take(2));
    }
    if has_prefix(x, seq!['-', '-']) {
        assert(x[1] == x.take(2)[1]);
        lemma_trim_end_keeps(x, 1);
        assert(y.take(2) =~= x.take(2));
    }
}

proof fn lemma_comment_prefix(l: Seq<char>, m: int)
    requires
        0 <= m <= l.len(),
        comment_start(l.take(m)),
    ensures
        comment_start(l),
    decreases l.len(),
{
    if l.len() > 0 && is_white(l[0]) {
        if m == 0 {
            assert(l.take(0) =~= Seq::<char>::empty());
        } else {
            assert(l.take(m).drop_first() =~= l.drop_first().take(m - 1));
            lemma_comment_prefix(l.drop_first(), m - 1);
        }
    } else {
        if m == 0 {
            assert(l.take(0) =~= Seq::<char>::empty());
        } else {
            assert(trim_start(l.take(m)) == l.take(m));
            assert(l.take(m).take(2) =~= l.take(2));
        }
    }
}

proof fn lemma_pieces_drop_last(t: Seq<char>)
    requires
        t.len() > 0,
        no_comment_pieces(t),
    ensures
        no_comment_pieces(t.drop_last()),
{
    let prev = split_on(t.drop_last(), '\n');
    crate::text::lemma_split_nonempty(t.drop_last(), '\n');
    if t.last() == '\n' {
        assert forall|k: int| 0 <= k < prev.len() implies !comment_start(#[trigger] prev[k]) by {
            assert(split_on(t, '\n')[k] == prev[k]);
        }
    } else {
        let n = prev.len() - 1;
        assert forall|k: int| 0 <= k < prev.len() implies !comment_start(#[trigger] prev[k]) by {
            if k == n {
                let q = split_on(t, '\n')[n];
                assert(q == prev[n].push(t.last()));
                assert(q.take(prev[n].len() as int) =~= prev[n]);
                if comment_start(prev[k]) {
                    lemma_comment_prefix(q, prev[n].len() as int);
                }
            } else {
                assert(split_on(t, '\n')[k] == prev[k]);
            }
        }
    }
}

proof fn lemma_pieces_take(t: Seq<char>, n: int)
    requires
        0 <= n <= t.len(),
        no_comment_pieces(t),
    ensures
        no_comment_pieces(t.take(n)),
    decreases t.len(),
{
    if n == t.len() {
        assert(t.take(n) =~= t);
    } else {
        lemma_pieces_drop_last(t);
        assert(t.drop_last().take(n) =~= t.take(n));
        lemma_pieces_take(t.drop_last(), n);
    }
}

proof fn lemma_split_front(c: char, y: Seq<char>, sep: char)
    requires
        c != sep,
    ensures
        split_on(seq![c] + y, sep) == split_on(y, sep).update(0, seq![c] + split_on(y, sep)[0]),
    decreases y.len(),
{
    let z = seq![c] + y;
    if y.len() == 0 {
        assert(z =~= seq![c]);
        assert(z.drop_last() =~= Seq::<char>::empty());
        assert(split_on(Seq::<char>::empty(), sep) == seq![Seq::<char>::empty()]);
        assert(Seq::<char>::empty().push(c) =~= seq![c]);
        assert(z.last() == c);
        assert(split_on(z, sep) =~= seq![seq![c]]);
        assert(seq![c] + Seq::<char>::empty() =~= seq![c]);
        assert(split_on(y, sep).update(0, seq![c] + split_on(y, sep)[0]) =~= seq![seq![c]]);
    } else {
        assert(z.drop_last() =~= seq![c] + y.drop_last());
        assert(z.last() == y.last());
        lemma_split_front(c, y.drop_last(), sep);
        crate::text::lemma_split_nonempty(y.drop_last(), sep);
        let sp = split_on(y.drop_last(), sep);
        let pp = sp.update(0, seq![c] + sp[0]);
        if y.last() == sep {
            assert(split_on(z, sep) =~= pp.push(Seq::<char>::empty()));
            assert(split_on(y, sep) =~= sp.push(Seq::<char>::empty()));
            assert(split_on(z, sep) =~= split_on(y, sep).update(0, seq![c] + split_on(y, sep)[0]));
        } else {
            let n = sp.len() - 1;
            assert(split_on(z, sep) =~= pp.update(n, pp[n].push(y.last())));
            assert(split_on(y, sep) =~= sp.update(n, sp[n].push(y.last())));
            if n == 0 {
                assert((seq![c] + sp[0]).push(y.last()) =~= seq![c] + sp[0].push(y.last()));
            }
            assert(split_on(z, sep) =~= split_on(y, sep).update(0, seq![c] + split_on(y, sep)[0]));
        }
    }
}

proof fn lemma_pieces_drop_first(t: Seq<char>)
    requires
        t.len() > 0,
        is_white(t[0]),
        no_comment_pieces(t),
    ensures
        no_comment_pieces(t.drop_first()),
{
    let y = t.drop_first();
    let py = split_on(y, '\n');
    if t[0] == '\n' {
        let e = Seq::<char>::empty();
        assert(t =~= e.push('\n') + y);
        assert(!e.contains('\n'));
        crate::text::lemma_split_after(e, y, '\n');
        assert forall|k: int| 0 <= k < py.len() implies !comment_start(#[trigger] py[k]) by {
            assert(split_on(t, '\n')[k + 1] == py[k]);
        }
    } else {
        assert(t =~= seq![t[0]] + y);
        lemma_split_front(t[0], y, '\n');
        crate::text::lemma_split_nonempty(y, '\n');
        assert forall|k: int| 0 <= k < py.len() implies !comment_start(#[trigger] py[k]) by {
            if k == 0 {
                let q = seq![t[0]] + py[0];
                assert(split_on(t, '\n')[0] == q);
                assert(q.drop_first() =~= py[0]);
                assert(trim_start(q) == trim_start(py[0]));
            } else {
                assert(split_on(t, '\n')[k] == py[k]);
            }
        }
    }
}

proof fn lemma_pieces_trim_start(t: Seq<char>)
    requires
        no_comment_pieces(t),
    ensures
        no_comment_pieces(trim_start(t)),
    decreases t.len(),
{
    if t.len() > 0 && is_white(t[0]) {
        lemma_pieces_drop_first(t);
        lemma_pieces_trim_start(t.drop_first());
    }
}

proof fn lemma_strip_semicolons_take(x: Seq<char>)
    ensures
        strip_semicolons(x).len() <= x.len(),
        strip_semicolons(x) == x.take(strip_semicolons(x).len() as int),
    decreases x.len(),
{
    if x.len() > 0 && x.last() == ';' {
        lemma_strip_semicolons_take(x.drop_last());
        assert(x.drop_last().take(strip_semicolons(x).len() as int) =~= x.take(
            strip_semicolons(x).len() as int,
        ));
    } else {
        assert(x.take(x.len() as int) =~= x);
    }
}

proof fn lemma_pieces_trim(t: Seq<char>)
    requires
        no_comment_pieces(t),
    ensures
        no_comment_pieces(trim(t)),
{
    lemma_pieces_trim_start(t);
    let a = trim_start(t);
    crate::text::lemma_trim_end_shape(a);
    lemma_pieces_take(a, trim_end(a).len() as int);
}

proof fn lemma_pieces_statement(b: Seq<char>)
    requires
        no_comment_pieces(b),
    ensures
        no_comment_pieces(statement_of(b)),
{
    lemma_pieces_trim(b);
    let x = trim(b);
    lemma_strip_semicolons_take(x);
    lemma_pieces_take(x, strip_semicolons(x).len() as int);
    lemma_pieces_trim(strip_semicolons(x));
}

proof fn lemma_split_pieces_no_sep(t: Seq<char>, sep: char)
    ensures
        forall|k: int|
            0 <= k < split_on(t, sep).len() ==> !(#[trigger] split_on(t, sep)[k]).contains(sep),
    decreases t.len(),
{
    if t.len() > 0 {
        lemma_split_pieces_no_sep(t.drop_last(), sep);
        crate::text::lemma_split_nonempty(t.drop_last(), sep);
        let prev = split_on(t.drop_last(), sep);
        let n = prev.len() - 1;
        if t.last() != sep {
            assert forall|k: int| 0 <= k < split_on(t, sep).len() implies !(#[trigger] split_on(
                t,
                sep,
            )[k]).contains(sep) by {
                if k == n {
                    let q = prev[n].push(t.last());
                    assert(split_on(t, sep)[k] == q);
                    assert forall|i: int| 0 <= i < q.len() implies q[i] != sep by {
                        if i < prev[n].len() {
                            assert(q[i] == prev[n][i]);
                        }
                    }
                }
            }
        } else {
            assert forall|k: int| 0 <= k < split_on(t, sep).len() implies !(#[trigger] split_on(
                t,
                sep,
            )[k]).contains(sep) by {
                if k < prev.len() {
                    assert(split_on(t, sep)[k] == prev[k]);
                } else {
                    assert(split_on(t, sep)[k] =~= Seq::<char>::empty());
                }
            }
        }
    }
}

proof fn lemma_split_append_piece(b: Seq<char>, l: Seq<char>, sep: char)
    requires
        b.len() == 0 || b.last() == sep,
        !l.contains(sep),
    ensures
        split_on(b + l, sep) == split_on(b, sep).update(split_on(b, sep).len() - 1, l),
        split_on(b, sep).len() >= 1,
    decreases l.len(),
{
    crate::text::lemma_split_nonempty(b, sep);
    let sb = split_on(b, sep);
    if b.len() > 0 {
        crate::text::lemma_split_nonempty(b.drop_last(), sep);
        assert(sb.last() =~= Seq::<char>::empty());
    } else {
        assert(sb.last() =~= Seq::<char>::empty());
    }
    if l.len() == 0 {
        assert(b + l =~= b);
        assert(l =~= Seq::<char>::empty());
        assert(sb.update(sb.len() - 1, l) =~= sb);
    } else {
        assert((b + l).drop_last() =~= b + l.drop_last());
        assert((b + l).last() == l.last());
        assert(!l.drop_last().contains(sep)) by {
            assert forall|i: int| 0 <= i < l.drop_last().len() implies l.drop_last()[i] != sep by {
                assert(l.drop_last()[i] == l[i]);
            }
        }
        assert(l.last() != sep) by {
            assert(l[l.len() - 1] == l.last());
        }
        lemma_split_append_piece(b, l.drop_last(), sep);
        assert(l.drop_last().push(l.last()) =~= l);
        assert(split_on(b + l, sep) =~= sb.update(sb.len() - 1, l));
    }
}

proof fn lemma_pieces_buffer_push(b: Seq<char>, l: Seq<char>)
    requires
        no_comment_pieces(b),
        b.len() == 0 || b.last() == '\n',
        !l.contains('\n'),
        !comment_start(l),
    ensures
        no_comment_pieces(b + l.push('\n')),
        (b + l.push('\n')).last() == '\n',
{
    let c = b + l.push('\n');
    assert(c =~= (b + l).push('\n'));
    assert(c.drop_last() =~= b + l);
    lemma_split_append_piece(b, l, '\n');
    let sb = split_on(b, '\n');
    let sc = split_on(c, '\n');
    assert(sc =~= sb.update(sb.len() - 1, l).push(Seq::<char>::empty()));
    assert forall|k: int| 0 <= k < sc.len() implies !comment_start(#[trigger] sc[k]) by {
        if k == sb.len() {
            assert(sc[k] =~= Seq::<char>::empty());
            assert(trim_start(sc[k]) =~= Seq::<char>::empty());
        } else if k == sb.len() - 1 {
            assert(sc[k] == l);
        } else {
            assert(sc[k] == sb[k]);
        }
    }
}

/// The lines of a script hold no line break.
proof fn lemma_lines_no_break(sql: Seq<char>)
    ensures
        forall|k: int| 0 <= k < lines(sql).len() ==> !(#[trigger] lines(sql)[k]).contains('\n'),
{
    let p = split_on(sql, '\n');
    lemma_split_pieces_no_sep(sql, '\n');
    crate::text::lemma_split_nonempty(sql, '\n');
    assert forall|k: int| 0 <= k < lines(sql).len() implies !(#[trigger] lines(sql)[k]).contains(
        '\n',
    ) by {
        let q = p[k];
        assert(!q.contains('\n'));
        if k < p.len() - 1 {
            assert(lines(sql)[k] == strip_cr(q));
            let r = strip_cr(q);
            assert forall|i: int| 0 <= i < r.len() implies r[i] != '\n' by {
                assert(r[i] == q[i]);
            }
        } else {
            assert(lines(sql)[k] == p.last());
        }
    }
}

proof fn lemma_scan_no_comments(ls: Seq<Seq<char>>)
    requires
        forall|k: int| 0 <= k < ls.len() ==> !(#[trigger] ls[k]).contains('\n'),
    ensures
        no_comment_pieces(scan_lines(ls).1),
        scan_lines(ls).1.len() == 0 || scan_lines(ls).1.last() == '\n',
        forall|i: int|
            0 <= i < scan_lines(ls).0.len() ==> no_comment_pieces(#[trigger] scan_lines(ls).0[i]),
    decreases ls.len(),
{
    if ls.len() == 0 {
        assert(split_on(Seq::<char>::empty(), '\n') == seq![Seq::<char>::empty()]);
        assert(trim_start(Seq::<char>::empty()) =~= Seq::<char>::empty());
    } else {
        assert forall|k: int| 0 <= k < ls.drop_last().len() implies !(
        #[trigger] ls.drop_last()[k]).contains('\n') by {
            assert(ls.drop_last()[k] == ls[k]);
        }
        lemma_scan_no_comments(ls.drop_last());
        let (out, buf) = scan_lines(ls.drop_last());
        let line = ls.last();
        assert(!line.contains('\n')) by {
            assert(ls[ls.len() - 1] == line);
        }
        let t = trim(line);
        if !has_prefix(t, seq!['-', '-']) {
            lemma_comment_trim(line);
            lemma_pieces_buffer_push(buf, line);
            let b = buf + line.push('\n');
            if has_suffix(t, seq![';']) {
                lemma_pieces_statement(b);
                assert(split_on(Seq::<char>::empty(), '\n') == seq![Seq::<char>::empty()]);
                assert(trim_start(Seq::<char>::empty()) =~= Seq::<char>::empty());
                let st = statement_of(b);
                assert forall|i: int| 0 <= i < push_statement(out, st).len() implies no_comment_pieces(
                    #[trigger] push_statement(out, st)[i],
                ) by {
                    if i < out.len() {
                        assert(push_statement(out, st)[i] == out[i]);
                    }
                }
            }
        }
    }
}

/// No line of `s` (`str::lines`) is a `--` comment once trimmed.
pub open spec fn no_comment_lines(s: Seq<char>) -> bool {
    forall|k: int| 0 <= k < lines(s).len() ==> !has_prefix(trim(#[trigger] lines(s)[k]), seq!['-', '-'])
}

proof fn lemma_pieces_lines(s: Seq<char>)
    requires
        no_comment_pieces(s),
    ensures
        no_comment_lines(s),
{
    let p = split_on(s, '\n');
    crate::text::lemma_split_nonempty(s, '\n');
    assert forall|k: int| 0 <= k < lines(s).len() implies !has_prefix(
        trim(#[trigger] lines(s)[k]),
        seq!['-', '-'],
    ) by {
        let l = lines(s)[k];
        lemma_comment_trim(l);
        if k < p.len() - 1 {
            let q = p[k];
            assert(l == strip_cr(q));
            assert(!comment_start(q));
            if q.len() > 0 && q.last() == '\r' {
                assert(l =~= q.take(q.len() - 1));
                if comment_start(l) {
                    lemma_comment_prefix(q, q.len() - 1);
                }
            }
        } else {
            assert(l == p.last());
            assert(!comment_start(p[p.len() - 1]));
        }
    }
}

/// A statement as the splitter hands it out: not empty, and already trimmed.
pub open spec fn clean_statement(s: Seq<char>) -> bool {
    s.len() > 0 && trim(s) == s
}

proof fn lemma_scan_lines_shape(ls: Seq<Seq<char>>)
    ensures
        scan_lines(ls).0.len() <= closing_lines(ls),
        forall|i: int|
            0 <= i < scan_lines(ls).0.len() ==> clean_statement(#[trigger] scan_lines(ls).0[i]),
    decreases ls.len(),
{
    if ls.len() > 0 {
        lemma_scan_lines_shape(ls.drop_last());
        let (out, buf) = scan_lines(ls.drop_last());
        let t = trim(ls.last());
        if !has_prefix(t, seq!['-', '-']) && has_suffix(t, seq![';']) {
            let st = statement_of(buf + ls.last().push('\n'));
            crate::text::lemma_trim_idempotent(strip_semicolons(trim(buf + ls.last().push('\n'))));
            assert(forall|i: int| 0 <= i < out.len() ==> push_statement(out, st)[i] == out[i]);
        }
    }
}

/// Every statement of a script is non-empty, already trimmed and free of `--`
/// comment lines, and there are at most one more of them than lines that close a
/// statement.
pub proof fn law_script_statements_shape(sql: Seq<char>)
    ensures
        script_statements(sql).len() <= closing_lines(lines(sql)) + 1,
        forall|i: int|
            0 <= i < script_statements(sql).len() ==> clean_statement(
                #[trigger] script_statements(sql)[i],
            ),
        forall|i: int|
            0 <= i < script_statements(sql).len() ==> no_comment_lines(
                #[trigger] script_statements(sql)[i],
            ),
{
    let (out, buf) = scan_lines(lines(sql));
    lemma_scan_lines_shape(lines(sql));
    lemma_lines_no_break(sql);
    lemma_scan_no_comments(lines(sql));
    lemma_pieces_statement(buf);
    assert forall|i: int| 0 <= i < script_statements(sql).len() implies no_comment_lines(
        #[trigger] script_statements(sql)[i],
    ) by {
        if i < out.len() {
            assert(script_statements(sql)[i] == out[i]);
            lemma_pieces_lines(out[i]);
        } else {
            assert(script_statements(sql)[i] == statement_of(buf));
            lemma_pieces_lines(statement_of(buf));
        }
    }
    let st = statement_of(buf);
    crate::text::lemma_trim_idempotent(strip_semicolons(trim(buf)));
    assert(forall|i: int| 0 <= i < out.len() ==> push_statement(out, st)[i] == out[i]);
}

fn strip_cr_vec(v: Vec<char>) -> (r: Vec<char>)
    ensures
        r@ == strip_cr(v@),
{
    let mut v = v;
    let ghost orig = v@;
    if v.len() > 0 && v[v.len() - 1] == '\r' {
        v.pop();
        assert(v@ =~= orig.drop_last());
    }
    v
}

/// The lines of `s` (`str::lines`).
pub fn lines_of(s: &[char]) -> (r: Vec<Vec<char>>)
    ensures
        views(r@) == lines(s@),
{
    let parts = split_chars(s, '\n');
    let n = parts.len();
    let ghost p = split_on(s@, '\n');
    let mut out: Vec<Vec<char>> = Vec::new();
    let mut i: usize = 0;
    while i + 1 < n
        invariant
            n == parts@.len(),
            n >= 1,
            views(parts@) == p,
            i <= n - 1,
            views(out@) == p.take(i as int).map_values(|l: Seq<char>| strip_cr(l)),
        decreases n - i,
    {
        let piece = slice_chars(parts[i].as_slice(), 0, parts[i].len());
        assert(piece@ =~= p[i as int]);
        let line = strip_cr_vec(piece);
        let ghost before = out@;
        out.push(line);
        assert(views(out@) =~= views(before).push(line@));
        assert(p.take(i + 1) =~= p.take(i as int).push(p[i as int]));
        assert(views(out@) =~= p.take(i + 1).map_values(|l: Seq<char>| strip_cr(l)));
        i += 1;
    }
    let last = slice_chars(parts[n - 1].as_slice(), 0, parts[n - 1].len());
    assert(last@ =~= p.last());
    if last.len() > 0 {
        let ghost before = out@;
        out.push(last);
        assert(views(out@) =~= views(before).push(p.last()));
    }
    out
}

fn strip_semicolons_vec(v: Vec<char>) -> (r: Vec<char>)
    ensures
        r@ == strip_semicolons(v@),
{
    let mut v = v;
    let ghost orig = v@;
    while v.len() > 0 && v[v.len() - 1] == ';'
        invariant
            strip_semicolons(v@) == strip_semicolons(orig),
        decreases v.len(),
    {
        let ghost before = v@;
        v.pop();
        assert(v@ =~= before.drop_last());
    }
    v
}

fn statement_vec(buf: &[char]) -> (r: Vec<char>)
    ensures
        r@ == statement_of(buf@),
{
    let t = trim_chars(buf);
    let s = strip_semicolons_vec(t);
    trim_chars(s.as_slice())
}

/// Splits a SQL script into statements: comment lines (trimmed text starting with
/// `--`) are dropped, a statement ends at a line whose trimmed text ends with `;`,
/// and each statement is trimmed, stripped of trailing `;` and trimmed again; empty
/// statements are left out.
pub fn split_statements(sql: &str) -> (r: Vec<String>)
    ensures
        r@.map_values(|x: String| x@) == script_statements(sql@),
        forall|i: int| 0 <= i < r@.len() ==> #[trigger] r@[i]@.len() > 0,
{
    let chars = chars_of(sql);
    let ls = lines_of(chars.as_slice());
    let mut out: Vec<String> = Vec::new();
    let mut buf: Vec<char> = Vec::new();
    let mut i: usize = 0;
    while i < ls.len()
        invariant
            i <= ls@.len(),
            views(ls@) == lines(sql@),
            (out@.map_values(|x: String| x@), buf@) == scan_lines(views(ls@).take(i as int)),
            forall|k: int| 0 <= k < out@.len() ==> #[trigger] out@[k]@.len() > 0,
        decreases ls.len() - i,
    {
        let ghost prev = views(ls@).take(i as int);
        assert(views(ls@).take(i + 1).drop_last() =~= prev);
        assert(views(ls@).take(i + 1).last() == ls@[i as int]@);
        let line = &ls[i];
        let t = trim_chars(line.as_slice());
        if !starts_with(t.as_slice(), "--") {
            let mut j: usize = 0;
            let ghost b0 = buf@;
            while j < line.len()
                invariant
                    j <= line@.len(),
                    buf@ == b0 + line@.take(j as int),
                decreases line.len() - j,
            {
                buf.push(line[j]);
                j += 1;
                assert(buf@ =~= b0 + line@.take(j as int));
            }
            buf.push('\n');
            assert(line@.take(line@.len() as int) =~= line@);
            assert(buf@ =~= b0 + line@.push('\n'));
            if ends_with(t.as_slice(), ";") {
                let st = statement_vec(buf.as_slice());
                if st.len() > 0 {
                    let ghost before = out@;
                    out.push(string_from(st.as_slice()));
                    assert(out@.map_values(|x: String| x@) =~= before.map_values(|x: String| x@).push(
                        st@,
                    ));
                }
                buf = Vec::new();
            }
        }
        proof {
            reveal_strlit("--");
            reveal_strlit(";");
            assert("--"@ =~= seq!['-', '-']);
            assert(";"@ =~= seq![';']);
        }
        i += 1;
    }
    assert(views(ls@).take(ls@.len() as int) =~= views(ls@));
    let st = statement_vec(buf.as_slice());
    if st.len() > 0 {
        let ghost before = out@;
        out.push(string_from(st.as_slice()));
        assert(out@.map_values(|x: String| x@) =~= before.map_values(|x: String| x@).push(st@));
    }
    out
}

// ---------------------------------------------------------------------------
// Connecting
// ---------------------------------------------------------------------------

/// Only the SQLite driver is enabled: the configured driver name, lowercased,
/// must be `sqlite`. On refusal the driver name is returned for the message.
pub fn check_driver(driver: &str) -> (r: Result<(), String>)
    ensures
        unicode_lower(driver@) == "sqlite"@ <==> r is Ok,
        all_ascii(driver@) ==> (driver@.map_values(|c: char| ascii_lower(c)) == "sqlite"@
            <==> r is Ok),
        r matches Err(d) ==> d@ == driver@,
{
    let l = to_lowercase(driver);
    let c = chars_of(l.as_str());
    if crate::text::eq_str(c.as_slice(), "sqlite") {
        Ok(())
    } else {
        Err(String::from_str(driver))
    }
}

/// The path text with every backslash turned into a slash.
pub open spec fn forward_slashes(path: Seq<char>) -> Seq<char> {
    path.map_values(|c: char| if c == '\\' { '/' } else { c })
}

/// The connection URL of a database file: `sqlite:<path>?mode=rwc`, the path
/// written with forward slashes.
pub fn sqlite_url(path: &str) -> (r: String)
    ensures
        r@ == "sqlite:"@ + forward_slashes(path@) + "?mode=rwc"@,
{
    let c = chars_of(path);
    let mut out: Vec<char> = Vec::new();
    let mut i: usize = 0;
    while i < c.len()
        invariant
            i <= c@.len(),
            out@ == forward_slashes(c@.take(i as int)),
        decreases c.len() - i,
    {
        let ch = if c[i] == '\\' {
            '/'
        } else {
            c[i]
        };
        out.push(ch);
        i += 1;
        assert(out@ =~= forward_slashes(c@.take(i as int)));
    }
    assert(c@.take(c@.len() as int) =~= c@);
    let mut r = String::from_str("sqlite:");
    let p = string_from(out.as_slice());
    r.append(p.as_str());
    r.append("?mode=rwc");
    r
}

} // verus!
