//! Line scanners for TOML lock files (`[[package]]` stanzas) and for
//! Cargo-style `[section]` dependency tables.
use vstd::prelude::*;
use vstd::string::*;

use crate::model::{Package, PackageView};
use crate::text::{
    chars_eq, chars_of, copy_str, lines_of, split_lines, split_on, split_once, split_once_vec,
    split_vec, starts_with, string_of, trim, trim_char, trim_char_vec, trim_pair, trim_pair_vec,
    trim_vec,
};

verus! {

/// Parsed lock stanza with the line number of its header.
#[derive(Debug, Clone, PartialEq, Eq)]
pub struct LockStanza {
    pub package: Package,
    pub start_line: u32,
}

/// Mathematical value of a [`LockStanza`].
pub struct StanzaView {
    pub package: PackageView,
    pub start_line: u32,
}

impl View for LockStanza {
    type V = StanzaView;

    open spec fn view(&self) -> StanzaView {
        StanzaView { package: self.package@, start_line: self.start_line }
    }
}

/// `key = value` of a TOML line: the key trimmed and unquoted (`"`), the
/// value trimmed and unquoted (`"` then `'`); `None` without `=` or with an
/// empty key.
pub open spec fn toml_key_value(line: Seq<char>) -> Option<(Seq<char>, Seq<char>)> {
    match split_once(line, '=') {
        None => None,
        Some((k, rest)) => {
            let key = trim_char(trim(k), '"');
            let value = trim_char(trim_char(trim(rest), '"'), '\'');
            if key.len() == 0 {
                None
            } else {
                Some((key, value))
            }
        },
    }
}

/// State of the stanza scan after some lines.
pub struct StanzaScan {
    pub stanzas: Seq<StanzaView>,
    pub start: Option<u32>,
    pub name: Option<Seq<char>>,
    pub version: Option<Seq<char>>,
}

/// Close the current stanza: it is recorded when it has a header line and a
/// name (version `any` when none was given).
pub open spec fn flush_stanza(
    stanzas: Seq<StanzaView>,
    start: Option<u32>,
    name: Option<Seq<char>>,
    version: Option<Seq<char>>,
    ecosystem: Seq<char>,
) -> Seq<StanzaView> {
    match (start, name) {
        (Some(line), Some(n)) => stanzas.push(
            StanzaView {
                package: PackageView {
                    name: n,
                    version: match version {
                        Some(v) => v,
                        None => "any"@,
                    },
                    ecosystem: Some(ecosystem),
                },
                start_line: line,
            },
        ),
        _ => stanzas,
    }
}

/// One line of the stanza scan.
pub open spec fn stanza_step(
    st: StanzaScan,
    line: Seq<char>,
    line_no: u32,
    header: Seq<char>,
    ecosystem: Seq<char>,
) -> StanzaScan {
    let t = trim(line);
    if t == header {
        StanzaScan {
            stanzas: flush_stanza(st.stanzas, st.start, st.name, st.version, ecosystem),
            start: Some(line_no),
            name: None,
            version: None,
        }
    } else if st.start is None {
        st
    } else {
        match toml_key_value(t) {
            Some((k, v)) => if k == "name"@ {
                StanzaScan { name: Some(v), ..st }
            } else if k == "version"@ {
                StanzaScan { version: Some(v), ..st }
            } else {
                st
            },
            None => st,
        }
    }
}

/// The stanza scan over a list of lines (line numbers from 1).
pub open spec fn stanza_scan(lines: Seq<Seq<char>>, header: Seq<char>, ecosystem: Seq<char>) -> StanzaScan
    decreases lines.len(),
{
    if lines.len() == 0 {
        StanzaScan { stanzas: Seq::empty(), start: None, name: None, version: None }
    } else {
        stanza_step(
            stanza_scan(lines.drop_last(), header, ecosystem),
            lines.last(),
            lines.len() as u32,
            header,
            ecosystem,
        )
    }
}

/// Stanzas of a TOML lock file whose header lines read exactly `header`.
pub open spec fn lock_stanzas_of(content: Seq<char>, header: Seq<char>, ecosystem: Seq<char>) -> Seq<
    StanzaView,
> {
    let st = stanza_scan(lines_of(content), header, ecosystem);
    flush_stanza(st.stanzas, st.start, st.name, st.version, ecosystem)
}

/// The first header line at or after `from` (the number of lines when there
/// is none).
pub open spec fn next_header(lines: Seq<Seq<char>>, header: Seq<char>, from: int) -> int
    decreases lines.len() - from,
{
    if from < 0 || from >= lines.len() {
        lines.len() as int
    } else if trim(lines[from]) == header {
        from
    } else {
        next_header(lines, header, from + 1)
    }
}

/// The value of the last `version = v` line among lines `from .. to`.
pub open spec fn last_version_in(lines: Seq<Seq<char>>, from: int, to: int) -> Option<Seq<char>>
    decreases to - from,
{
    if to <= from || to > lines.len() || to < 1 {
        None
    } else {
        match toml_key_value(trim(lines[to - 1])) {
            Some((k, v)) => if k == "version"@ {
                Some(v)
            } else {
                last_version_in(lines, from, to - 1)
            },
            None => last_version_in(lines, from, to - 1),
        }
    }
}

/// A stanza's version: the one given, else `any`.
pub open spec fn version_or_any(v: Option<Seq<char>>) -> Seq<char> {
    match v {
        Some(x) => x,
        None => "any"@,
    }
}

/// A recorded stanza that a later header line closed: its header is at its
/// start line, and its version is the last `version` line before the next
/// header.
spec fn closed_stanza_ok(lines: Seq<Seq<char>>, header: Seq<char>, s: StanzaView) -> bool {
    let l = s.start_line as int;
    &&& 1 <= l <= lines.len()
    &&& trim(lines[l - 1]) == header
    &&& exists|e: int|
        #![trigger lines[e]]
        l <= e < lines.len() && trim(lines[e]) == header && (forall|m: int|
            l <= m < e ==> trim(#[trigger] lines[m]) != header) && s.package.version == version_or_any(
            last_version_in(lines, l, e),
        )
}

proof fn lemma_last_version_prefix(lines: Seq<Seq<char>>, from: int, to: int)
    requires
        lines.len() > 0,
        to <= lines.len() - 1,
    ensures
        last_version_in(lines, from, to) == last_version_in(lines.drop_last(), from, to),
    decreases to - from,
{
    if to > from && to >= 1 {
        assert(lines[to - 1] == lines.drop_last()[to - 1]);
        lemma_last_version_prefix(lines, from, to - 1);
    }
}

proof fn lemma_next_header_at(lines: Seq<Seq<char>>, header: Seq<char>, from: int, e: int)
    requires
        0 <= from <= e <= lines.len(),
        e < lines.len() ==> trim(lines[e]) == header,
        forall|m: int| from <= m < e ==> trim(#[trigger] lines[m]) != header,
    ensures
        next_header(lines, header, from) == e,
    decreases e - from,
{
    if from < e {
        lemma_next_header_at(lines, header, from + 1, e);
    }
}

proof fn lemma_closed_stanza_extend(lines: Seq<Seq<char>>, header: Seq<char>, sv: StanzaView)
    requires
        lines.len() > 0,
        closed_stanza_ok(lines.drop_last(), header, sv),
    ensures
        closed_stanza_ok(lines, header, sv),
{
    let prev = lines.drop_last();
    let l = sv.start_line as int;
    let e = choose|e: int|
        #![trigger prev[e]]
        l <= e < prev.len() && trim(prev[e]) == header && (forall|m: int|
            l <= m < e ==> trim(#[trigger] prev[m]) != header) && sv.package.version == version_or_any(
            last_version_in(prev, l, e),
        );
    lemma_last_version_prefix(lines, l, e);
    assert(lines[e] == prev[e]);
    assert(lines[l - 1] == prev[l - 1]);
    assert forall|m: int| l <= m < e implies trim(#[trigger] lines[m]) != header by {
        assert(lines[m] == prev[m]);
    }
}

/// The open stanza of `lines.drop_last()`, closed by a header as the last
/// line.
proof fn lemma_stanza_closed_by_header(lines: Seq<Seq<char>>, header: Seq<char>, sv: StanzaView, version: Option<Seq<char>>)
    requires
        lines.len() > 0,
        trim(lines.last()) == header,
        1 <= sv.start_line <= lines.len() - 1,
        trim(lines.drop_last()[sv.start_line - 1]) == header,
        forall|m: int| sv.start_line <= m < lines.len() - 1 ==> trim(#[trigger] lines.drop_last()[m]) != header,
        version == last_version_in(lines.drop_last(), sv.start_line as int, lines.len() - 1),
        sv.package.version == version_or_any(version),
    ensures
        closed_stanza_ok(lines, header, sv),
{
    let prev = lines.drop_last();
    let n = lines.len() as int;
    let l = sv.start_line as int;
    lemma_last_version_prefix(lines, l, n - 1);
    assert(lines[l - 1] == prev[l - 1]);
    assert(lines[n - 1] == lines.last());
    assert forall|m: int| l <= m < n - 1 implies trim(#[trigger] lines[m]) != header by {
        assert(lines[m] == prev[m]);
    }
}

/// The open stanza of `lines.drop_last()` after a last line that is no
/// header.
proof fn lemma_open_stanza_step(lines: Seq<Seq<char>>, header: Seq<char>, l: int, version: Option<Seq<char>>)
    requires
        lines.len() > 0,
        trim(lines.last()) != header,
        1 <= l <= lines.len() - 1,
        trim(lines.drop_last()[l - 1]) == header,
        forall|m: int| l <= m < lines.len() - 1 ==> trim(#[trigger] lines.drop_last()[m]) != header,
        version == last_version_in(lines.drop_last(), l, lines.len() - 1),
    ensures
        trim(lines[l - 1]) == header,
        forall|m: int| l <= m < lines.len() ==> trim(#[trigger] lines[m]) != header,
        last_version_in(lines, l, lines.len() as int) == match toml_key_value(trim(lines.last())) {
            Some((k, v)) => if k == "version"@ {
                Some(v)
            } else {
                version
            },
            None => version,
        },
{
    let prev = lines.drop_last();
    let n = lines.len() as int;
    lemma_last_version_prefix(lines, l, n - 1);
    assert(lines[l - 1] == prev[l - 1]);
    assert(lines[n - 1] == lines.last());
    assert forall|m: int| l <= m < n implies trim(#[trigger] lines[m]) != header by {
        if m < n - 1 {
            assert(lines[m] == prev[m]);
        }
    }
}

proof fn lemma_stanza_scan_places(lines: Seq<Seq<char>>, header: Seq<char>, ecosystem: Seq<char>)
    requires
        lines.len() <= u32::MAX,
    ensures
        ({
            let st = stanza_scan(lines, header, ecosystem);
            &&& st.start is None ==> forall|m: int| 0 <= m < lines.len() ==> trim(#[trigger] lines[m]) != header
            &&& st.start matches Some(l) ==> 1 <= l <= lines.len() && trim(lines[l - 1]) == header && (forall|m: int|
                l <= m < lines.len() ==> trim(#[trigger] lines[m]) != header) && st.version == last_version_in(
                lines,
                l as int,
                lines.len() as int,
            )
            &&& forall|k: int| 0 <= k < st.stanzas.len() ==> closed_stanza_ok(lines, header, #[trigger] st.stanzas[k])
        }),
    decreases lines.len(),
{
    if lines.len() > 0 {
        let prev = lines.drop_last();
        let x = lines.last();
        let n = lines.len() as int;
        lemma_stanza_scan_places(prev, header, ecosystem);
        let st = stanza_scan(prev, header, ecosystem);
        let st2 = stanza_scan(lines, header, ecosystem);
        assert forall|k: int| 0 <= k < st.stanzas.len() implies closed_stanza_ok(lines, header, #[trigger] st.stanzas[k]) by {
            lemma_closed_stanza_extend(lines, header, st.stanzas[k]);
        }
        if trim(x) == header {
            match (st.start, st.name) {
                (Some(l), Some(nm)) => {
                    let sv = st2.stanzas.last();
                    assert(st2.stanzas == st.stanzas.push(sv));
                    lemma_stanza_closed_by_header(lines, header, sv, st.version);
                    assert forall|k: int| 0 <= k < st2.stanzas.len() implies closed_stanza_ok(
                        lines,
                        header,
                        #[trigger] st2.stanzas[k],
                    ) by {
                        if k < st.stanzas.len() {
                            assert(st2.stanzas[k] == st.stanzas[k]);
                        }
                    }
                },
                _ => {},
            }
            assert(lines[n - 1] == x);
            assert(st2.start == Some(n as u32));
            assert(st2.version == last_version_in(lines, n, n));
        } else {
            assert(st2.stanzas == st.stanzas);
            match st.start {
                None => {
                    assert forall|m: int| 0 <= m < n implies trim(#[trigger] lines[m]) != header by {
                        if m < n - 1 {
                            assert(lines[m] == prev[m]);
                        } else {
                            assert(lines[m] == x);
                        }
                    }
                },
                Some(l) => {
                    lemma_open_stanza_step(lines, header, l as int, st.version);
                    assert(st2 == stanza_step(st, x, n as u32, header, ecosystem));
                    match toml_key_value(trim(x)) {
                        Some((k, v)) => {
                            if k == "name"@ {
                                assert(k != "version"@) by {
                                    reveal_strlit("name");
                                    reveal_strlit("version");
                                    assert("name"@.len() != "version"@.len());
                                }
                            }
                        },
                        None => {},
                    }
                    assert(st2.version == last_version_in(lines, l as int, n));
                },
            }
        }
    }
}

/// The value of the last `name = n` line among lines `from .. to`.
pub open spec fn last_name_in(lines: Seq<Seq<char>>, from: int, to: int) -> Option<Seq<char>>
    decreases to - from,
{
    if to <= from || to > lines.len() || to < 1 {
        None
    } else {
        match toml_key_value(trim(lines[to - 1])) {
            Some((k, v)) => if k == "name"@ {
                Some(v)
            } else {
                last_name_in(lines, from, to - 1)
            },
            None => last_name_in(lines, from, to - 1),
        }
    }
}

proof fn lemma_last_name_prefix(lines: Seq<Seq<char>>, from: int, to: int)
    requires
        lines.len() > 0,
        to <= lines.len() - 1,
    ensures
        last_name_in(lines, from, to) == last_name_in(lines.drop_last(), from, to),
    decreases to - from,
{
    if to > from && to >= 1 {
        assert(lines[to - 1] == lines.drop_last()[to - 1]);
        lemma_last_name_prefix(lines, from, to - 1);
    }
}

/// A header at `h` whose stanza a later header at `e` closes, and which has
/// a `name` line, is recorded among `stanzas` with that start line and name.
spec fn closed_header_recorded(lines: Seq<Seq<char>>, header: Seq<char>, stanzas: Seq<StanzaView>, h: int) -> bool {
    (exists|e: int|
        #![trigger lines[e]]
        h < e < lines.len() && trim(lines[e]) == header && (forall|m: int| h < m < e ==> trim(#[trigger] lines[m]) != header)
            && last_name_in(lines, h + 1, e) is Some) ==> exists|k: int|
        0 <= k < stanzas.len() && (#[trigger] stanzas[k]).start_line == h + 1 && stanzas[k].package.name
            == last_name_in(lines, h + 1, next_header(lines, header, h + 1)).unwrap()
}

proof fn lemma_next_header_bounds(lines: Seq<Seq<char>>, header: Seq<char>, from: int)
    requires
        0 <= from,
    ensures
        from <= next_header(lines, header, from) <= lines.len() || (from > lines.len() && next_header(
            lines,
            header,
            from,
        ) == lines.len()),
        next_header(lines, header, from) < lines.len() ==> trim(lines[next_header(lines, header, from)]) == header,
        forall|m: int| from <= m < next_header(lines, header, from) ==> trim(#[trigger] lines[m]) != header,
    decreases lines.len() - from,
{
    if from < lines.len() && trim(lines[from]) != header {
        lemma_next_header_bounds(lines, header, from + 1);
    }
}

proof fn lemma_recorded_earlier(lines: Seq<Seq<char>>, header: Seq<char>, ecosystem: Seq<char>, h: int, e: int)
    requires
        0 < lines.len() <= u32::MAX,
        0 <= h < e < lines.len() - 1,
        trim(lines[h]) == header,
        trim(lines[e]) == header,
        forall|m: int| h < m < e ==> trim(#[trigger] lines[m]) != header,
        last_name_in(lines, h + 1, e) is Some,
        ({
            let prev = lines.drop_last();
            let st = stanza_scan(prev, header, ecosystem);
            &&& st.start matches Some(l) ==> st.name == last_name_in(prev, l as int, prev.len() as int)
            &&& forall|h2: int|
                0 <= h2 < prev.len() && trim(#[trigger] prev[h2]) == header ==> closed_header_recorded(
                    prev,
                    header,
                    st.stanzas,
                    h2,
                )
        }),
    ensures
        exists|k: int|
            0 <= k < stanza_scan(lines, header, ecosystem).stanzas.len() && (#[trigger] stanza_scan(
                lines,
                header,
                ecosystem,
            ).stanzas[k]).start_line == h + 1 && stanza_scan(lines, header, ecosystem).stanzas[k].package.name
                == last_name_in(lines, h + 1, next_header(lines, header, h + 1)).unwrap(),
{
    let prev = lines.drop_last();
    let n = lines.len() as int;
    let st = stanza_scan(prev, header, ecosystem);
    let st2 = stanza_scan(lines, header, ecosystem);
    assert(st2 == stanza_step(st, lines.last(), n as u32, header, ecosystem));
    assert(lines[h] == prev[h]);
    assert(prev[e] == lines[e]);
    assert forall|m: int| h < m < e implies trim(#[trigger] prev[m]) != header by {
        assert(lines[m] == prev[m]);
    }
    lemma_last_name_prefix(lines, h + 1, e);
    lemma_next_header_at(lines, header, h + 1, e);
    lemma_next_header_at(prev, header, h + 1, e);
    assert(closed_header_recorded(prev, header, st.stanzas, h));
    let k = choose|k: int|
        0 <= k < st.stanzas.len() && (#[trigger] st.stanzas[k]).start_line == h + 1 && st.stanzas[k].package.name
            == last_name_in(prev, h + 1, next_header(prev, header, h + 1)).unwrap();
    assert(st2.stanzas[k] == st.stanzas[k]);
}

proof fn lemma_recorded_now(lines: Seq<Seq<char>>, header: Seq<char>, ecosystem: Seq<char>, h: int)
    requires
        0 < lines.len() <= u32::MAX,
        0 <= h < lines.len() - 1,
        trim(lines[h]) == header,
        trim(lines.last()) == header,
        forall|m: int| h < m < lines.len() - 1 ==> trim(#[trigger] lines[m]) != header,
        last_name_in(lines, h + 1, lines.len() - 1) is Some,
        ({
            let prev = lines.drop_last();
            let st = stanza_scan(prev, header, ecosystem);
            &&& st.start matches Some(l) ==> st.name == last_name_in(prev, l as int, prev.len() as int)
            &&& forall|h2: int|
                0 <= h2 < prev.len() && trim(#[trigger] prev[h2]) == header ==> closed_header_recorded(
                    prev,
                    header,
                    st.stanzas,
                    h2,
                )
        }),
    ensures
        exists|k: int|
            0 <= k < stanza_scan(lines, header, ecosystem).stanzas.len() && (#[trigger] stanza_scan(
                lines,
                header,
                ecosystem,
            ).stanzas[k]).start_line == h + 1 && stanza_scan(lines, header, ecosystem).stanzas[k].package.name
                == last_name_in(lines, h + 1, next_header(lines, header, h + 1)).unwrap(),
{
    let prev = lines.drop_last();
    let x = lines.last();
    let n = lines.len() as int;
    lemma_stanza_scan_places(prev, header, ecosystem);
    let st = stanza_scan(prev, header, ecosystem);
    let st2 = stanza_scan(lines, header, ecosystem);
    assert(x == lines[n - 1]);
    assert(st2 == stanza_step(st, x, n as u32, header, ecosystem));
    assert(st.start is Some) by {
        if st.start is None {
            assert(lines[h] == prev[h]);
        }
    }
    let l = st.start.unwrap();
    assert(h == l - 1) by {
        assert(lines[l - 1] == prev[l - 1]);
        if h < l - 1 {
            assert(trim(lines[l - 1]) != header);
        } else if h > l - 1 {
            assert(lines[h] == prev[h]);
        }
    }
    lemma_last_name_prefix(lines, h + 1, n - 1);
    lemma_next_header_at(lines, header, h + 1, n - 1);
    assert(st.name is Some);
    let k = st.stanzas.len() as int;
    assert(st2.stanzas[k].start_line == h + 1);
}

proof fn lemma_header_recorded_step(lines: Seq<Seq<char>>, header: Seq<char>, ecosystem: Seq<char>, h: int)
    requires
        0 < lines.len() <= u32::MAX,
        0 <= h < lines.len(),
        trim(lines[h]) == header,
        ({
            let prev = lines.drop_last();
            let st = stanza_scan(prev, header, ecosystem);
            &&& st.start matches Some(l) ==> st.name == last_name_in(prev, l as int, prev.len() as int)
            &&& forall|h2: int|
                0 <= h2 < prev.len() && trim(#[trigger] prev[h2]) == header ==> closed_header_recorded(
                    prev,
                    header,
                    st.stanzas,
                    h2,
                )
        }),
    ensures
        closed_header_recorded(lines, header, stanza_scan(lines, header, ecosystem).stanzas, h),
{
    let n = lines.len() as int;
    if exists|e: int|
        #![trigger lines[e]]
        h < e < n && trim(lines[e]) == header && (forall|m: int| h < m < e ==> trim(#[trigger] lines[m]) != header)
            && last_name_in(lines, h + 1, e) is Some {
        let e = choose|e: int|
            #![trigger lines[e]]
            h < e < n && trim(lines[e]) == header && (forall|m: int| h < m < e ==> trim(#[trigger] lines[m]) != header)
                && last_name_in(lines, h + 1, e) is Some;
        if e < n - 1 {
            lemma_recorded_earlier(lines, header, ecosystem, h, e);
        } else {
            assert(lines.last() == lines[n - 1]);
            lemma_recorded_now(lines, header, ecosystem, h);
        }
    }
}

proof fn lemma_stanza_scan_records(lines: Seq<Seq<char>>, header: Seq<char>, ecosystem: Seq<char>)
    requires
        lines.len() <= u32::MAX,
    ensures
        ({
            let st = stanza_scan(lines, header, ecosystem);
            &&& st.start matches Some(l) ==> st.name == last_name_in(lines, l as int, lines.len() as int)
            &&& forall|h: int|
                0 <= h < lines.len() && trim(#[trigger] lines[h]) == header ==> closed_header_recorded(
                    lines,
                    header,
                    st.stanzas,
                    h,
                )
        }),
    decreases lines.len(),
{
    lemma_stanza_scan_places(lines, header, ecosystem);
    if lines.len() > 0 {
        let prev = lines.drop_last();
        let x = lines.last();
        let n = lines.len() as int;
        lemma_stanza_scan_records(prev, header, ecosystem);
        lemma_stanza_scan_places(prev, header, ecosystem);
        let st = stanza_scan(prev, header, ecosystem);
        let st2 = stanza_scan(lines, header, ecosystem);
        assert(x == lines[n - 1]);
        assert(st2 == stanza_step(st, x, n as u32, header, ecosystem));
        assert forall|h: int| 0 <= h < n && trim(#[trigger] lines[h]) == header implies closed_header_recorded(
            lines,
            header,
            st2.stanzas,
            h,
        ) by {
            lemma_header_recorded_step(lines, header, ecosystem, h);
        }
        if trim(x) != header {
            match st.start {
                Some(l) => {
                    lemma_last_name_prefix(lines, l as int, n - 1);
                    match toml_key_value(trim(x)) {
                        Some((k, v)) => {
                            if k == "version"@ {
                                assert(k != "name"@) by {
                                    reveal_strlit("name");
                                    reveal_strlit("version");
                                    assert("name"@.len() != "version"@.len());
                                }
                            }
                        },
                        None => {},
                    }
                },
                None => {},
            }
        }
    }
}

/// Which stanzas are reported: every header line (at index `h`) whose
/// stanza, up to the next header line or the end of the file, has a `name`
/// line gives a stanza that starts at line `h + 1` (numbered from 1) and
/// carries the last such name; the last stanza of the file is no exception.
pub proof fn lemma_lock_stanzas_complete(content: Seq<char>, header: Seq<char>, ecosystem: Seq<char>)
    requires
        lines_of(content).len() <= u32::MAX,
    ensures
        forall|h: int|
            0 <= h < lines_of(content).len() && trim(#[trigger] lines_of(content)[h]) == header && last_name_in(
                lines_of(content),
                h + 1,
                next_header(lines_of(content), header, h + 1),
            ) is Some ==> exists|k: int|
                0 <= k < lock_stanzas_of(content, header, ecosystem).len() && (#[trigger] lock_stanzas_of(
                    content,
                    header,
                    ecosystem,
                )[k]).start_line == h + 1 && lock_stanzas_of(content, header, ecosystem)[k].package.name
                    == last_name_in(
                    lines_of(content),
                    h + 1,
                    next_header(lines_of(content), header, h + 1),
                ).unwrap(),
{
    let lines = lines_of(content);
    lemma_stanza_scan_places(lines, header, ecosystem);
    lemma_stanza_scan_records(lines, header, ecosystem);
    let st = stanza_scan(lines, header, ecosystem);
    let out = lock_stanzas_of(content, header, ecosystem);
    assert forall|h: int|
        0 <= h < lines.len() && trim(#[trigger] lines[h]) == header && last_name_in(
            lines,
            h + 1,
            next_header(lines, header, h + 1),
        ) is Some implies exists|k: int|
        0 <= k < out.len() && (#[trigger] out[k]).start_line == h + 1 && out[k].package.name == last_name_in(
            lines,
            h + 1,
            next_header(lines, header, h + 1),
        ).unwrap() by {
        lemma_next_header_bounds(lines, header, h + 1);
        let e = next_header(lines, header, h + 1);
        if e < lines.len() {
            assert(closed_header_recorded(lines, header, st.stanzas, h));
            let k = choose|k: int|
                0 <= k < st.stanzas.len() && (#[trigger] st.stanzas[k]).start_line == h + 1
                    && st.stanzas[k].package.name == last_name_in(lines, h + 1, e).unwrap();
            assert(out[k] == st.stanzas[k]);
        } else {
            assert(st.start is Some) by {
                if st.start is None {
                    assert(trim(lines[h]) != header);
                }
            }
            let l = st.start.unwrap();
            assert(h == l - 1) by {
                if h < l - 1 {
                    assert(trim(lines[l - 1]) != header);
                } else if h > l - 1 {
                    assert(trim(lines[h]) != header);
                }
            }
            let k = st.stanzas.len() as int;
            assert(out[k].start_line == h + 1);
        }
    }
}

/// Where each stanza's version comes from: every stanza of a lock file
/// starts at a header line, and its version is the value of the last
/// `version = v` line before the next header line (or the end of the file),
/// `any` when there is none; the last stanza of the file is no exception.
pub proof fn lemma_lock_stanza_versions(content: Seq<char>, header: Seq<char>, ecosystem: Seq<char>)
    requires
        lines_of(content).len() <= u32::MAX,
    ensures
        forall|k: int|
            0 <= k < lock_stanzas_of(content, header, ecosystem).len() ==> {
                let s = #[trigger] lock_stanzas_of(content, header, ecosystem)[k];
                let lines = lines_of(content);
                &&& 1 <= s.start_line <= lines.len()
                &&& trim(lines[s.start_line - 1]) == header
                &&& s.package.version == version_or_any(
                    last_version_in(lines, s.start_line as int, next_header(lines, header, s.start_line as int)),
                )
            },
{
    let lines = lines_of(content);
    lemma_stanza_scan_places(lines, header, ecosystem);
    let st = stanza_scan(lines, header, ecosystem);
    let out = lock_stanzas_of(content, header, ecosystem);
    assert forall|k: int| 0 <= k < out.len() implies {
        let s = #[trigger] out[k];
        &&& 1 <= s.start_line <= lines.len()
        &&& trim(lines[s.start_line - 1]) == header
        &&& s.package.version == version_or_any(
            last_version_in(lines, s.start_line as int, next_header(lines, header, s.start_line as int)),
        )
    } by {
        if k < st.stanzas.len() {
            assert(out[k] == st.stanzas[k]);
            let sv = st.stanzas[k];
            assert(closed_stanza_ok(lines, header, sv));
            let l = sv.start_line as int;
            let e = choose|e: int|
                #![trigger lines[e]]
                l <= e < lines.len() && trim(lines[e]) == header && (forall|m: int|
                    l <= m < e ==> trim(#[trigger] lines[m]) != header) && sv.package.version == version_or_any(
                    last_version_in(lines, l, e),
                );
            lemma_next_header_at(lines, header, l, e);
        } else {
            let l = st.start.unwrap() as int;
            lemma_next_header_at(lines, header, l, lines.len() as int);
        }
    }
}

/// Views of a list of stanzas.
pub open spec fn stanzas_view(v: Seq<LockStanza>) -> Seq<StanzaView> {
    v.map_values(|s: LockStanza| s@)
}

fn parse_toml_key_value_chars(line: &[char]) -> (r: Option<(Vec<char>, Vec<char>)>)
    ensures
        match toml_key_value(line@) {
            Some((k, v)) => r matches Some((a, b)) && a@ == k && b@ == v,
            None => r is None,
        },
{
    match split_once_vec(line, '=') {
        None => None,
        Some((k, rest)) => {
            let kt = trim_vec(k.as_slice());
            let key = trim_char_vec(kt.as_slice(), '"');
            let rt = trim_vec(rest.as_slice());
            let r1 = trim_char_vec(rt.as_slice(), '"');
            let value = trim_char_vec(r1.as_slice(), '\'');
            if key.len() == 0 {
                None
            } else {
                Some((key, value))
            }
        },
    }
}

/// `key = value` of a TOML line (see [`toml_key_value`]).
pub fn parse_toml_key_value(line: &str) -> (r: Option<(String, String)>)
    ensures
        match toml_key_value(line@) {
            Some((k, v)) => r matches Some((a, b)) && a@ == k && b@ == v,
            None => r is None,
        },
{
    let v = chars_of(line);
    match parse_toml_key_value_chars(v.as_slice()) {
        Some((k, val)) => Some((string_of(k.as_slice()), string_of(val.as_slice()))),
        None => None,
    }
}

fn flush_exec(
    stanzas: &mut Vec<LockStanza>,
    start: Option<u32>,
    name: Option<Vec<char>>,
    version: Option<Vec<char>>,
    ecosystem: &str,
)
    ensures
        stanzas_view(final(stanzas)@) == flush_stanza(
            stanzas_view(old(stanzas)@),
            start,
            match name {
                Some(n) => Some(n@),
                None => None,
            },
            match version {
                Some(v) => Some(v@),
                None => None,
            },
            ecosystem@,
        ),
{
    match (start, name) {
        (Some(line), Some(n)) => {
            let v = match version {
                Some(v) => string_of(v.as_slice()),
                None => copy_str("any"),
            };
            let ghost before = stanzas@;
            stanzas.push(
                LockStanza {
                    package: Package {
                        name: string_of(n.as_slice()),
                        version: v,
                        ecosystem: Some(copy_str(ecosystem)),
                    },
                    start_line: line,
                },
            );
            assert(stanzas_view(stanzas@) =~= stanzas_view(before).push(stanzas@.last()@));
        },
        _ => {},
    }
}

/// Scan TOML lock content for stanzas whose header line reads `header`,
/// collecting their `name` and `version` keys.
pub fn scan_toml_lock_stanzas(content: &str, header: &str, ecosystem: &str) -> (r: Vec<LockStanza>)
    ensures
        stanzas_view(r@) == lock_stanzas_of(content@, header@, ecosystem@),
{
    let text = chars_of(content);
    let lines = split_lines(text.as_slice());
    let hv = chars_of(header);
    let ghost all = lines_of(content@);
    let mut stanzas: Vec<LockStanza> = Vec::new();
    let mut start: Option<u32> = None;
    let mut name: Option<Vec<char>> = None;
    let mut version: Option<Vec<char>> = None;
    let mut i: usize = 0;
    while i < lines.len()
        invariant
            all == lines_of(content@),
            lines@.len() == all.len(),
            forall|k: int| 0 <= k < lines@.len() ==> #[trigger] lines@[k]@ == all[k],
            hv@ == header@,
            i <= lines.len(),
            ({
                let st = stanza_scan(all.take(i as int), header@, ecosystem@);
                &&& stanzas_view(stanzas@) == st.stanzas
                &&& start == st.start
                &&& match name {
                    Some(n) => st.name == Some(n@),
                    None => st.name is None,
                }
                &&& match version {
                    Some(v) => st.version == Some(v@),
                    None => st.version is None,
                }
            }),
        decreases lines.len() - i,
    {
        let line_no: u32 = (i + 1) as u32;
        let t = trim_vec(lines[i].as_slice());
        proof {
            assert(all.take(i + 1).drop_last() =~= all.take(i as int));
            assert(all.take(i + 1).last() == all[i as int]);
        }
        if chars_eq(t.as_slice(), hv.as_slice()) {
            let old_name = name;
            let old_version = version;
            flush_exec(&mut stanzas, start, old_name, old_version, ecosystem);
            start = Some(line_no);
            name = None;
            version = None;
        } else if start.is_some() {
            match parse_toml_key_value_chars(t.as_slice()) {
                Some((k, v)) => {
                    if crate::text::chars_eq_str(k.as_slice(), "name") {
                        name = Some(v);
                    } else if crate::text::chars_eq_str(k.as_slice(), "version") {
                        version = Some(v);
                    }
                },
                None => {},
            }
        }
        i = i + 1;
    }
    proof {
        assert(all.take(lines.len() as int) =~= all);
    }
    flush_exec(&mut stanzas, start, name, version, ecosystem);
    stanzas
}

/// Dependency `name = version` of a manifest line: a quoted or bare version,
/// or the `version` key of an inline table.
pub open spec fn dep_key_line(line: Seq<char>) -> Option<(Seq<char>, Seq<char>)> {
    if starts_with(line, "["@) {
        None
    } else {
        match split_once(line, '=') {
            None => None,
            Some((n, rest)) => {
                let name = trim_char(trim(n), '"');
                let r = trim(rest);
                if starts_with(r, "{"@) {
                    Some((name, inline_version_of(r)))
                } else {
                    Some((name, trim(trim_char(r, '"'))))
                }
            },
        }
    }
}

/// Value of the first `version = ...` entry among comma-separated parts.
pub open spec fn version_in_parts(parts: Seq<Seq<char>>) -> Option<Seq<char>>
    decreases parts.len(),
{
    if parts.len() == 0 {
        None
    } else {
        let part = trim_pair(trim(parts[0]), '{', '}');
        match split_once(part, '=') {
            Some((k, v)) => if trim(k) == "version"@ {
                Some(trim_char(trim(v), '"'))
            } else {
                version_in_parts(parts.drop_first())
            },
            None => version_in_parts(parts.drop_first()),
        }
    }
}

/// Version of an inline dependency table, `any` when it has none.
pub open spec fn inline_version_of(table: Seq<char>) -> Seq<char> {
    match version_in_parts(split_on(table, ',')) {
        Some(v) => v,
        None => "any"@,
    }
}

fn extract_inline_version_chars(table: &[char]) -> (r: Vec<char>)
    ensures
        r@ == inline_version_of(table@),
{
    let parts = split_vec(table, ',');
    let ghost ps = split_on(table@, ',');
    let mut i: usize = 0;
    assert(ps.skip(0) =~= ps);
    while i < parts.len()
        invariant
            ps == split_on(table@, ','),
            parts@.len() == ps.len(),
            forall|k: int| 0 <= k < parts@.len() ==> #[trigger] parts@[k]@ == ps[k],
            i <= parts.len(),
            version_in_parts(ps) == version_in_parts(ps.skip(i as int)),
        decreases parts.len() - i,
    {
        proof {
            assert(ps.skip(i as int)[0] == ps[i as int]);
            assert(ps.skip(i as int).drop_first() =~= ps.skip(i + 1));
        }
        let pt = trim_vec(parts[i].as_slice());
        let part = trim_pair_vec(pt.as_slice(), '{', '}');
        match split_once_vec(part.as_slice(), '=') {
            Some((k, v)) => {
                let kt = trim_vec(k.as_slice());
                if crate::text::chars_eq_str(kt.as_slice(), "version") {
                    let vt = trim_vec(v.as_slice());
                    return trim_char_vec(vt.as_slice(), '"');
                }
            },
            None => {},
        }
        i = i + 1;
    }
    proof {
        assert(ps.skip(i as int).len() == 0);
    }
    chars_of("any")
}

/// Version of an inline dependency table (`any` when it has none).
pub fn extract_inline_version(table: &str) -> (r: String)
    ensures
        r@ == inline_version_of(table@),
{
    let v = chars_of(table);
    let r = extract_inline_version_chars(v.as_slice());
    string_of(r.as_slice())
}

fn parse_dep_key_line_chars(line: &[char]) -> (r: Option<(Vec<char>, Vec<char>)>)
    ensures
        match dep_key_line(line@) {
            Some((n, v)) => r matches Some((a, b)) && a@ == n && b@ == v,
            None => r is None,
        },
{
    let open_bracket = chars_of("[");
    if crate::text::starts_with_vec(line, open_bracket.as_slice()) {
        return None;
    }
    match split_once_vec(line, '=') {
        None => None,
        Some((n, rest)) => {
            let nt = trim_vec(n.as_slice());
            let name = trim_char_vec(nt.as_slice(), '"');
            let r = trim_vec(rest.as_slice());
            let brace = chars_of("{");
            if crate::text::starts_with_vec(r.as_slice(), brace.as_slice()) {
                let version = extract_inline_version_chars(r.as_slice());
                Some((name, version))
            } else {
                let unq = trim_char_vec(r.as_slice(), '"');
                let version = trim_vec(unq.as_slice());
                Some((name, version))
            }
        },
    }
}

/// Dependency `name = version` of a manifest line (see [`dep_key_line`]).
pub fn parse_dep_key_line(line: &str) -> (r: Option<(String, String)>)
    ensures
        match dep_key_line(line@) {
            Some((n, v)) => r matches Some((a, b)) && a@ == n && b@ == v,
            None => r is None,
        },
{
    let v = chars_of(line);
    match parse_dep_key_line_chars(v.as_slice()) {
        Some((n, val)) => Some((string_of(n.as_slice()), string_of(val.as_slice()))),
        None => None,
    }
}

/// A line number with the name and version declared on it.
pub type DepLine = (u32, Seq<char>, Seq<char>);

/// Whether `name` is among the listed section names.
pub open spec fn section_listed(sections: Seq<&str>, name: Seq<char>) -> bool {
    exists|k: int| 0 <= k < sections.len() && sections[k]@ == name
}

/// State of the section scan: whether the current section is listed, and the
/// dependency lines found so far.
pub struct SectionScan {
    pub in_section: bool,
    pub deps: Seq<DepLine>,
}

/// One line of the section scan.
pub open spec fn section_step(st: SectionScan, line: Seq<char>, line_no: u32, sections: Seq<&str>) -> SectionScan {
    let t = trim(line);
    if starts_with(t, "["@) && crate::text::ends_with(t, "]"@) {
        SectionScan { in_section: section_listed(sections, trim_pair(t, '[', ']')), deps: st.deps }
    } else if !st.in_section || t.len() == 0 || starts_with(t, "#"@) {
        st
    } else {
        match dep_key_line(t) {
            Some((n, v)) => SectionScan { in_section: true, deps: st.deps.push((line_no, n, v)) },
            None => st,
        }
    }
}

/// The section scan over a list of lines (line numbers from 1).
pub open spec fn section_scan(lines: Seq<Seq<char>>, sections: Seq<&str>) -> SectionScan
    decreases lines.len(),
{
    if lines.len() == 0 {
        SectionScan { in_section: false, deps: Seq::empty() }
    } else {
        section_step(
            section_scan(lines.drop_last(), sections),
            lines.last(),
            lines.len() as u32,
            sections,
        )
    }
}

/// A `[table]` header line: trimmed, it starts with `[` and ends with `]`.
pub open spec fn is_table_header(line: Seq<char>) -> bool {
    starts_with(trim(line), "["@) && crate::text::ends_with(trim(line), "]"@)
}

/// Line `idx` lies under a header naming one of `sections`: the nearest
/// header line above it names a listed section.
pub open spec fn under_listed_header(lines: Seq<Seq<char>>, sections: Seq<&str>, idx: int) -> bool {
    exists|h: int|
        #![trigger lines[h]]
        0 <= h < idx && is_table_header(lines[h]) && (exists|k: int|
            0 <= k < sections.len() && sections[k]@ == trim_pair(trim(lines[h]), '[', ']')) && forall|m: int|
            h < m < idx ==> !is_table_header(#[trigger] lines[m])
}

proof fn lemma_under_listed_header_extend(lines: Seq<Seq<char>>, sections: Seq<&str>, idx: int)
    requires
        lines.len() > 0,
        idx <= lines.len() - 1,
        under_listed_header(lines.drop_last(), sections, idx),
    ensures
        under_listed_header(lines, sections, idx),
{
    let prev = lines.drop_last();
    let h = choose|h: int|
        #![trigger prev[h]]
        0 <= h < idx && is_table_header(prev[h]) && (exists|k: int|
            0 <= k < sections.len() && sections[k]@ == trim_pair(trim(prev[h]), '[', ']')) && forall|m: int|
            h < m < idx ==> !is_table_header(#[trigger] prev[m]);
    assert(lines[h] == prev[h]);
    assert forall|m: int| h < m < idx implies !is_table_header(#[trigger] lines[m]) by {
        assert(lines[m] == prev[m]);
    }
}

proof fn lemma_section_scan_places(lines: Seq<Seq<char>>, sections: Seq<&str>)
    requires
        lines.len() <= u32::MAX,
    ensures
        section_scan(lines, sections).in_section ==> under_listed_header(lines, sections, lines.len() as int),
        forall|k: int|
            0 <= k < section_scan(lines, sections).deps.len() ==> {
                let d = #[trigger] section_scan(lines, sections).deps[k];
                &&& 1 <= d.0 <= lines.len()
                &&& under_listed_header(lines, sections, d.0 - 1)
                &&& !is_table_header(lines[d.0 - 1])
                &&& dep_key_line(trim(lines[d.0 - 1])) == Some((d.1, d.2))
            },
    decreases lines.len(),
{
    if lines.len() > 0 {
        let prev = lines.drop_last();
        let x = lines.last();
        let n = lines.len() as int;
        lemma_section_scan_places(prev, sections);
        let st = section_scan(prev, sections);
        let st2 = section_scan(lines, sections);
        assert(x == lines[n - 1]);
        assert forall|k: int| 0 <= k < st.deps.len() implies {
            let d = #[trigger] st.deps[k];
            &&& 1 <= d.0 <= lines.len()
            &&& under_listed_header(lines, sections, d.0 - 1)
            &&& !is_table_header(lines[d.0 - 1])
            &&& dep_key_line(trim(lines[d.0 - 1])) == Some((d.1, d.2))
        } by {
            let d = st.deps[k];
            lemma_under_listed_header_extend(lines, sections, d.0 - 1);
            assert(lines[d.0 - 1] == prev[d.0 - 1]);
        }
        if is_table_header(x) {
            if st2.in_section {
                assert(under_listed_header(lines, sections, n)) by {
                    assert(lines[n - 1] == x);
                }
            }
            assert(st2.deps == st.deps);
        } else {
            if st.in_section {
                lemma_under_listed_header_extend(lines, sections, n - 1);
                let h = choose|h: int|
                    #![trigger lines[h]]
                    0 <= h < n - 1 && is_table_header(lines[h]) && (exists|k: int|
                        0 <= k < sections.len() && sections[k]@ == trim_pair(trim(lines[h]), '[', ']')) && forall|
                        m: int,
                    |
                        h < m < n - 1 ==> !is_table_header(#[trigger] lines[m]);
                assert forall|m: int| h < m < n implies !is_table_header(#[trigger] lines[m]) by {
                    if m == n - 1 {
                        assert(lines[m] == x);
                    }
                }
                assert(under_listed_header(lines, sections, n));
            }
            assert forall|k: int| 0 <= k < st2.deps.len() implies {
                let d = #[trigger] st2.deps[k];
                &&& 1 <= d.0 <= lines.len()
                &&& under_listed_header(lines, sections, d.0 - 1)
                &&& !is_table_header(lines[d.0 - 1])
                &&& dep_key_line(trim(lines[d.0 - 1])) == Some((d.1, d.2))
            } by {
                if k < st.deps.len() {
                    assert(st2.deps[k] == st.deps[k]);
                }
            }
        }
    }
}

proof fn lemma_under_listed_header_shrink(lines: Seq<Seq<char>>, sections: Seq<&str>, idx: int)
    requires
        lines.len() > 0,
        idx <= lines.len() - 1,
        under_listed_header(lines, sections, idx),
    ensures
        under_listed_header(lines.drop_last(), sections, idx),
{
    let prev = lines.drop_last();
    let h = choose|h: int|
        #![trigger lines[h]]
        0 <= h < idx && is_table_header(lines[h]) && (exists|k: int|
            0 <= k < sections.len() && sections[k]@ == trim_pair(trim(lines[h]), '[', ']')) && forall|m: int|
            h < m < idx ==> !is_table_header(#[trigger] lines[m]);
    assert(lines[h] == prev[h]);
    assert forall|m: int| h < m < idx implies !is_table_header(#[trigger] prev[m]) by {
        assert(lines[m] == prev[m]);
    }
}

proof fn lemma_section_scan_complete(lines: Seq<Seq<char>>, sections: Seq<&str>)
    requires
        lines.len() <= u32::MAX,
    ensures
        section_scan(lines, sections).in_section == under_listed_header(lines, sections, lines.len() as int),
        forall|idx: int|
            0 <= idx < lines.len() && under_listed_header(lines, sections, idx) && !is_table_header(#[trigger] lines[idx])
                && trim(lines[idx]).len() > 0 && !starts_with(trim(lines[idx]), "#"@) && dep_key_line(trim(lines[idx]))
                is Some ==> exists|k: int|
                0 <= k < section_scan(lines, sections).deps.len() && #[trigger] section_scan(lines, sections).deps[k]
                    == ((idx + 1) as u32, dep_key_line(trim(lines[idx])).unwrap().0, dep_key_line(
                    trim(lines[idx]),
                ).unwrap().1),
    decreases lines.len(),
{
    lemma_section_scan_places(lines, sections);
    if lines.len() > 0 {
        let prev = lines.drop_last();
        let x = lines.last();
        let n = lines.len() as int;
        lemma_section_scan_complete(prev, sections);
        let st = section_scan(prev, sections);
        let st2 = section_scan(lines, sections);
        assert(x == lines[n - 1]);
        if under_listed_header(lines, sections, n) {
            let h = choose|h: int|
                #![trigger lines[h]]
                0 <= h < n && is_table_header(lines[h]) && (exists|k: int|
                    0 <= k < sections.len() && sections[k]@ == trim_pair(trim(lines[h]), '[', ']')) && forall|m: int|
                    h < m < n ==> !is_table_header(#[trigger] lines[m]);
            if h < n - 1 {
                assert(!is_table_header(lines[n - 1]));
                assert(under_listed_header(lines, sections, n - 1));
                lemma_under_listed_header_shrink(lines, sections, n - 1);
            }
        }
        assert forall|idx: int|
            0 <= idx < n && under_listed_header(lines, sections, idx) && !is_table_header(#[trigger] lines[idx])
                && trim(lines[idx]).len() > 0 && !starts_with(trim(lines[idx]), "#"@) && dep_key_line(trim(lines[idx]))
                is Some implies exists|k: int|
            0 <= k < st2.deps.len() && #[trigger] st2.deps[k] == ((idx + 1) as u32, dep_key_line(
                trim(lines[idx]),
            ).unwrap().0, dep_key_line(trim(lines[idx])).unwrap().1) by {
            if idx < n - 1 {
                assert(lines[idx] == prev[idx]);
                lemma_under_listed_header_shrink(lines, sections, idx);
                let k = choose|k: int|
                    0 <= k < st.deps.len() && #[trigger] st.deps[k] == ((idx + 1) as u32, dep_key_line(
                        trim(prev[idx]),
                    ).unwrap().0, dep_key_line(trim(prev[idx])).unwrap().1);
                assert(st2.deps[k] == st.deps[k]);
            } else {
                lemma_under_listed_header_shrink(lines, sections, n - 1);
                assert(st2.deps == st.deps.push(st2.deps.last()));
                assert(st2.deps[st.deps.len() as int] == st2.deps.last());
            }
        }
    }
}

/// Which lines are reported: every `name = version` line (not a header,
/// not blank, not a `#` comment) whose nearest header line above names one
/// of `sections` is reported, with its line number (from 1), name and
/// version.
pub proof fn lemma_section_deps_complete(content: Seq<char>, sections: Seq<&str>)
    requires
        lines_of(content).len() <= u32::MAX,
    ensures
        forall|idx: int|
            0 <= idx < lines_of(content).len() && under_listed_header(lines_of(content), sections, idx)
                && !is_table_header(#[trigger] lines_of(content)[idx]) && trim(lines_of(content)[idx]).len() > 0
                && !starts_with(trim(lines_of(content)[idx]), "#"@) && dep_key_line(trim(lines_of(content)[idx]))
                is Some ==> exists|k: int|
                0 <= k < section_scan(lines_of(content), sections).deps.len() && #[trigger] section_scan(
                    lines_of(content),
                    sections,
                ).deps[k] == ((idx + 1) as u32, dep_key_line(trim(lines_of(content)[idx])).unwrap().0, dep_key_line(
                    trim(lines_of(content)[idx]),
                ).unwrap().1),
{
    lemma_section_scan_complete(lines_of(content), sections);
}

/// Where reported dependency lines come from: every line that the section
/// scan of `content` reports (numbered from 1) is a `name = version` line
/// that is not a header, and the nearest header line above it names one of
/// `sections`. A header naming another section stops the collection until
/// a listed header comes.
pub proof fn lemma_section_deps_under_listed_headers(content: Seq<char>, sections: Seq<&str>)
    requires
        lines_of(content).len() <= u32::MAX,
    ensures
        forall|k: int|
            0 <= k < section_scan(lines_of(content), sections).deps.len() ==> {
                let d = #[trigger] section_scan(lines_of(content), sections).deps[k];
                &&& 1 <= d.0 <= lines_of(content).len()
                &&& under_listed_header(lines_of(content), sections, d.0 - 1)
                &&& !is_table_header(lines_of(content)[d.0 - 1])
                &&& dep_key_line(trim(lines_of(content)[d.0 - 1])) == Some((d.1, d.2))
            },
{
    lemma_section_scan_places(lines_of(content), sections);
}

/// Views of found dependency lines.
pub open spec fn dep_lines_view(v: Seq<(u32, String, String)>) -> Seq<DepLine> {
    v.map_values(|d: (u32, String, String)| (d.0, d.1@, d.2@))
}

fn section_is_listed(sections: &[&str], name: &[char]) -> (r: bool)
    ensures
        r == section_listed(sections@, name@),
{
    let mut k: usize = 0;
    while k < sections.len()
        invariant
            k <= sections.len(),
            forall|j: int| 0 <= j < k ==> sections@[j]@ != name@,
        decreases sections.len() - k,
    {
        if crate::text::chars_eq_str(name, sections[k]) {
            return true;
        }
        k = k + 1;
    }
    false
}

/// Scan Cargo.toml-style `[section]` tables listed in `sections` for
/// dependency lines `name = version`.
pub fn scan_toml_section_deps(content: &str, sections: &[&str], ecosystem: &str) -> (r: Vec<
    (u32, String, String),
>)
    ensures
        dep_lines_view(r@) == section_scan(lines_of(content@), sections@).deps,
{
    let text = chars_of(content);
    let lines = split_lines(text.as_slice());
    let ghost all = lines_of(content@);
    let open_bracket = chars_of("[");
    let close_bracket = chars_of("]");
    let hash = chars_of("#");
    let mut out: Vec<(u32, String, String)> = Vec::new();
    let mut in_section = false;
    let mut i: usize = 0;
    while i < lines.len()
        invariant
            all == lines_of(content@),
            lines@.len() == all.len(),
            forall|k: int| 0 <= k < lines@.len() ==> #[trigger] lines@[k]@ == all[k],
            open_bracket@ == "["@,
            close_bracket@ == "]"@,
            hash@ == "#"@,
            i <= lines.len(),
            ({
                let st = section_scan(all.take(i as int), sections@);
                &&& dep_lines_view(out@) == st.deps
                &&& in_section == st.in_section
            }),
        decreases lines.len() - i,
    {
        let line_no: u32 = (i + 1) as u32;
        let t = trim_vec(lines[i].as_slice());
        proof {
            assert(all.take(i + 1).drop_last() =~= all.take(i as int));
            assert(all.take(i + 1).last() == all[i as int]);
        }
        if crate::text::starts_with_vec(t.as_slice(), open_bracket.as_slice())
            && crate::text::ends_with_vec(t.as_slice(), close_bracket.as_slice()) {
            let section = trim_pair_vec(t.as_slice(), '[', ']');
            in_section = section_is_listed(sections, section.as_slice());
        } else if !in_section || t.len() == 0 || crate::text::starts_with_vec(
            t.as_slice(),
            hash.as_slice(),
        ) {
        } else {
            match parse_dep_key_line_chars(t.as_slice()) {
                Some((n, v)) => {
                    let ghost before = out@;
                    out.push((line_no, string_of(n.as_slice()), string_of(v.as_slice())));
                    assert(dep_lines_view(out@) =~= dep_lines_view(before).push(
                        (line_no, n@, v@),
                    ));
                },
                None => {},
            }
        }
        i = i + 1;
    }
    proof {
        assert(all.take(lines.len() as int) =~= all);
    }
    let _ = ecosystem;
    out
}

} // verus!
