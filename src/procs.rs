//! The process file: `Proc: <pid> <name>` headers, each followed by the
//! lines of that process's record.

use vstd::prelude::*;
use crate::diag::{collect, number_check, number_diag, Diagnostic, DiagnosticKind};
use crate::models::{ProcessInfo, ProcessView, ProcessesInfo};
use crate::text::{
    copy_range, extract_value_spec, find_char, find_in, has_prefix, lemma_find_in_bounds,
    lines, parse_u32_at, parse_u32_spec, parse_u64_at, parse_u64_spec,
    skip_ws, skip_ws_from, split_lines, starts_with, string_from_chars, trim, trim_back,
    trim_back_from, trim_chars, trim_range, value_span,
};

verus! {

pub open spec fn set_if_parsed(old: Option<u64>, v: Seq<char>) -> Option<u64> {
    match parse_u64_spec(v) {
        Some(n) => Some(n),
        None => old,
    }
}

/// End of `s[lo..hi]` once every trailing `)` is removed.
pub open spec fn strip_close(s: Seq<char>, lo: int, hi: int) -> int
    decreases hi - lo,
{
    if hi <= lo {
        lo
    } else if s[hi - 1] != ')' {
        hi
    } else {
        strip_close(s, lo, hi - 1)
    }
}

pub open spec fn blank_process(pid: u32, name: Seq<char>) -> ProcessView {
    ProcessView {
        pid: Some(pid),
        name: Some(name),
        state_code: None,
        state_description: None,
        user: None,
        group: None,
        memory_rss: None,
        memory_virt: None,
        swap: None,
        threads: None,
        utime: None,
    }
}

/// The record that a `Proc:` header opens: split at the first two spaces,
/// the second part is the pid and the rest is the name. `None` when the
/// header has fewer than three parts or the pid does not parse.
pub open spec fn header_record(t: Seq<char>) -> Option<ProcessView> {
    let n = t.len() as int;
    let s1 = find_in(t, ' ', 0, n);
    let s2 = find_in(t, ' ', s1 + 1, n);
    if s1 >= n || s2 >= n {
        None
    } else {
        match parse_u32_spec(t.subrange(s1 + 1, s2)) {
            Some(pid) => Some(blank_process(pid, t.subrange(s2 + 1, n))),
            None => None,
        }
    }
}

/// A record after a `State:` line: the text after the colon, trimmed; with a
/// `(`, the code is what precedes it and the description what follows,
/// closing parentheses removed; without, all of it is the code.
pub open spec fn state_line(p: ProcessView, t: Seq<char>) -> ProcessView {
    let n = t.len() as int;
    let va = skip_ws(t, 6, n);
    let vb = trim_back(t, va, n);
    let open = find_in(t, '(', va, vb);
    if open < vb {
        ProcessView {
            state_code: Some(trim_range(t, va, open)),
            state_description: Some(trim_range(t, open + 1, strip_close(t, open + 1, vb))),
            ..p
        }
    } else {
        ProcessView { state_code: Some(t.subrange(va, vb)), state_description: None, ..p }
    }
}

/// A record after a `Memory: rss/virt` line; each side is set only if it
/// parses, and a value without `/` changes nothing.
pub open spec fn memory_line(p: ProcessView, v: Seq<char>) -> ProcessView {
    let slash = find_in(v, '/', 0, v.len() as int);
    if slash < v.len() {
        ProcessView {
            memory_rss: set_if_parsed(p.memory_rss, v.subrange(0, slash)),
            memory_virt: set_if_parsed(p.memory_virt, v.subrange(slash + 1, v.len() as int)),
            ..p
        }
    } else {
        p
    }
}

/// A record after one line inside it.
pub open spec fn record_line(p: ProcessView, t: Seq<char>) -> ProcessView {
    if starts_with(t, "State:"@) {
        state_line(p, t)
    } else if extract_value_spec(t, "User"@) is Some {
        ProcessView { user: extract_value_spec(t, "User"@), ..p }
    } else if extract_value_spec(t, "Group"@) is Some {
        ProcessView { group: extract_value_spec(t, "Group"@), ..p }
    } else if extract_value_spec(t, "Memory"@) is Some {
        memory_line(p, extract_value_spec(t, "Memory"@)->0)
    } else if extract_value_spec(t, "Swap"@) is Some {
        ProcessView { swap: set_if_parsed(p.swap, extract_value_spec(t, "Swap"@)->0), ..p }
    } else if extract_value_spec(t, "Threads"@) is Some {
        ProcessView {
            threads: match parse_u32_spec(extract_value_spec(t, "Threads"@)->0) {
                Some(n) => Some(n),
                None => p.threads,
            },
            ..p
        }
    } else if extract_value_spec(t, "Utime"@) is Some {
        ProcessView { utime: set_if_parsed(p.utime, extract_value_spec(t, "Utime"@)->0), ..p }
    } else {
        p
    }
}

/// A `Memory:` value without `/` sets neither figure.
pub proof fn lemma_memory_without_slash(p: ProcessView, v: Seq<char>)
    requires
        forall|i: int| 0 <= i < v.len() ==> v[i] != '/',
    ensures
        memory_line(p, v) == p,
{
    lemma_find_in_bounds(v, '/', 0, v.len() as int);
}

/// A `Proc:` header whose pid does not parse opens no record, and until the
/// next header the lines that follow add nothing: the block never reaches
/// the output.
pub proof fn lemma_bad_pid_dropped(s: ProcScan, header: Seq<char>, later: Seq<char>)
    requires
        starts_with(trim(header), "Proc:"@),
        header_record(trim(header)) is None,
        !starts_with(trim(later), "Proc:"@),
    ensures
        proc_step(s, header).current is None,
        proc_step(s, header).kept == keep(s.kept, s.current),
        proc_step(proc_step(s, header), later) == proc_step(s, header),
{
    reveal_strlit("Proc:");
}

pub struct ProcScan {
    /// The kept records, in file order.
    pub kept: Seq<ProcessView>,
    /// The open record, if any.
    pub current: Option<ProcessView>,
}

/// Closes the open record: it is kept only if it has a pid.
pub open spec fn keep(kept: Seq<ProcessView>, current: Option<ProcessView>) -> Seq<ProcessView> {
    match current {
        Some(p) => if p.pid is Some {
            kept.push(p)
        } else {
            kept
        },
        None => kept,
    }
}

pub open spec fn proc_step(s: ProcScan, line: Seq<char>) -> ProcScan {
    let t = trim(line);
    if t.len() == 0 {
        s
    } else if starts_with(t, "Proc:"@) {
        ProcScan { kept: keep(s.kept, s.current), current: header_record(t) }
    } else {
        match s.current {
            Some(p) => ProcScan { current: Some(record_line(p, t)), ..s },
            None => s,
        }
    }
}

pub open spec fn proc_scan(ls: Seq<Seq<char>>) -> ProcScan
    decreases ls.len(),
{
    if ls.len() == 0 {
        ProcScan { kept: Seq::empty(), current: None }
    } else {
        proc_step(proc_scan(ls.drop_last()), ls.last())
    }
}

pub open spec fn proc_parse(text: Seq<char>) -> Seq<ProcessView> {
    let s = proc_scan(lines(text));
    keep(s.kept, s.current)
}

/// A block opened by a `Proc:` header whose pid does not parse adds nothing
/// to the scan, whatever lines follow it up to the next header: the scan
/// after them is the scan right after the header, which holds no open
/// record.
pub proof fn lemma_bad_pid_block_ignored(ls: Seq<Seq<char>>, header: Seq<char>, later: Seq<Seq<char>>)
    requires
        starts_with(trim(header), "Proc:"@),
        header_record(trim(header)) is None,
        forall|i: int| 0 <= i < later.len() ==> !starts_with(trim(#[trigger] later[i]), "Proc:"@),
    ensures
        proc_scan(ls.push(header) + later) == proc_scan(ls.push(header)),
        proc_scan(ls.push(header)).current is None,
        proc_scan(ls.push(header)).kept == keep(proc_scan(ls).kept, proc_scan(ls).current),
    decreases later.len(),
{
    reveal_strlit("Proc:");
    assert(ls.push(header).drop_last() =~= ls);
    if later.len() == 0 {
        assert(ls.push(header) + later =~= ls.push(header));
    } else {
        let shorter = later.drop_last();
        assert forall|i: int| 0 <= i < shorter.len() implies !starts_with(
            trim(#[trigger] shorter[i]),
            "Proc:"@,
        ) by {
            assert(shorter[i] == later[i]);
        }
        lemma_bad_pid_block_ignored(ls, header, shorter);
        let whole = ls.push(header) + later;
        assert(whole.drop_last() =~= ls.push(header) + shorter);
        assert(whole.last() == later[later.len() - 1]);
    }
}

/// The finding on a `Memory:` value, if any.
pub open spec fn memory_diag(v: Seq<char>) -> Option<DiagnosticKind> {
    let slash = find_in(v, '/', 0, v.len() as int);
    if slash >= v.len() {
        Some(DiagnosticKind::MalformedMemory)
    } else {
        let rss_bad = parse_u64_spec(v.subrange(0, slash)) is None;
        let virt_bad = parse_u64_spec(v.subrange(slash + 1, v.len() as int)) is None;
        if rss_bad || virt_bad {
            Some(DiagnosticKind::BadMemoryValue { rss_bad, virt_bad })
        } else {
            None
        }
    }
}

/// The finding on a trimmed line of the process file, given whether a
/// record is open: malformed headers, bad pids, lines outside a record, bad
/// values and unknown lines are warnings; `Max_cpus:` is passed over.
pub open spec fn proc_line_diag(open: bool, t: Seq<char>) -> Option<DiagnosticKind> {
    if t.len() == 0 {
        None
    } else if starts_with(t, "Proc:"@) {
        let n = t.len() as int;
        let s1 = find_in(t, ' ', 0, n);
        let s2 = find_in(t, ' ', s1 + 1, n);
        if s1 >= n || s2 >= n {
            Some(DiagnosticKind::MalformedProcHeader)
        } else if parse_u32_spec(t.subrange(s1 + 1, s2)) is None {
            Some(DiagnosticKind::BadPid)
        } else {
            None
        }
    } else if !open {
        Some(DiagnosticKind::UnrecognizedLine)
    } else if starts_with(t, "State:"@) {
        None
    } else if extract_value_spec(t, "User"@) is Some {
        None
    } else if extract_value_spec(t, "Group"@) is Some {
        None
    } else if extract_value_spec(t, "Memory"@) is Some {
        memory_diag(extract_value_spec(t, "Memory"@)->0)
    } else if extract_value_spec(t, "Swap"@) is Some {
        number_diag(parse_u64_spec(extract_value_spec(t, "Swap"@)->0) is Some)
    } else if extract_value_spec(t, "Threads"@) is Some {
        number_diag(parse_u32_spec(extract_value_spec(t, "Threads"@)->0) is Some)
    } else if extract_value_spec(t, "Utime"@) is Some {
        number_diag(parse_u64_spec(extract_value_spec(t, "Utime"@)->0) is Some)
    } else if starts_with(t, "Max_cpus:"@) {
        Some(DiagnosticKind::IgnoredLine)
    } else {
        Some(DiagnosticKind::UnrecognizedLine)
    }
}

/// The per-line rule over the lines of a process file.
pub open spec fn proc_found(lv: Seq<Seq<char>>) -> spec_fn(int) -> Option<DiagnosticKind> {
    |i: int| proc_line_diag(proc_scan(lv.take(i)).current is Some, trim(lv[i]))
}

/// The findings of a process file, in line order.
pub open spec fn proc_diagnostics(text: Seq<char>) -> Seq<Diagnostic> {
    collect(proc_found(lines(text)), lines(text).len() as int)
}

/// Every record of the result has a pid: no record comes from a header
/// whose pid does not parse.
pub proof fn lemma_records_have_pid(text: Seq<char>)
    ensures
        forall|i: int| 0 <= i < proc_parse(text).len() ==> (#[trigger] proc_parse(text)[i]).pid is Some,
{
    let ls = lines(text);
    lemma_scan_has_pid(ls);
}

proof fn lemma_scan_has_pid(ls: Seq<Seq<char>>)
    ensures
        forall|i: int| 0 <= i < proc_scan(ls).kept.len() ==> (#[trigger] proc_scan(ls).kept[i]).pid is Some,
        proc_scan(ls).current matches Some(p) ==> p.pid is Some,
    decreases ls.len(),
{
    if ls.len() > 0 {
        lemma_scan_has_pid(ls.drop_last());
        let prev = proc_scan(ls.drop_last());
        assert forall|i: int| 0 <= i < keep(prev.kept, prev.current).len() implies (#[trigger] keep(
            prev.kept,
            prev.current,
        )[i]).pid is Some by {
            if i < prev.kept.len() {
                if prev.current is Some && prev.current->0.pid is Some {
                    assert(keep(prev.kept, prev.current)[i] == prev.kept[i]);
                }
            }
        }
    }
}

fn text_of(t: &[char], a: usize, b: usize) -> (r: String)
    requires
        a <= b <= t@.len(),
    ensures
        r@ == t@.subrange(a as int, b as int),
{
    let v = copy_range(t, a, b);
    string_from_chars(v.as_slice())
}

fn parse_header(t: &[char]) -> (r: Option<ProcessInfo>)
    ensures
        r matches Some(p) ==> header_record(t@) == Some(p@),
        r is None ==> header_record(t@) is None,
{
    let n = t.len();
    let s1 = find_char(t, ' ', 0, n);
    if s1 >= n {
        return None;
    }
    let s2 = find_char(t, ' ', s1 + 1, n);
    if s2 >= n {
        return None;
    }
    match parse_u32_at(t, s1 + 1, s2) {
        Some(pid) => Some(
            ProcessInfo {
                pid: Some(pid),
                name: Some(text_of(t, s2 + 1, n)),
                state_code: None,
                state_description: None,
                user: None,
                group: None,
                memory_rss: None,
                memory_virt: None,
                swap: None,
                threads: None,
                utime: None,
            },
        ),
        None => None,
    }
}

fn apply_state(p: &mut ProcessInfo, t: &[char])
    requires
        t@.len() >= 6,
    ensures
        final(p)@ == state_line(old(p)@, t@),
{
    let n = t.len();
    let va = skip_ws_from(t, 6, n);
    let vb = trim_back_from(t, va, n);
    let open = find_char(t, '(', va, vb);
    if open < vb {
        let mut e = vb;
        while e > open + 1 && t[e - 1] == ')'
            invariant
                open + 1 <= e <= vb <= n == t@.len(),
                strip_close(t@, open + 1, vb as int) == strip_close(t@, open + 1, e as int),
            decreases e,
        {
            e = e - 1;
        }
        let code = trim_chars(t, va, open);
        let desc = trim_chars(t, open + 1, e);
        p.state_code = Some(string_from_chars(code.as_slice()));
        p.state_description = Some(string_from_chars(desc.as_slice()));
    } else {
        p.state_code = Some(text_of(t, va, vb));
        p.state_description = None;
    }
}

/// The `/` of the value `t[a..b]`, as an index into `t` (or `b`).
fn find_slash(t: &[char], a: usize, b: usize) -> (r: usize)
    requires
        a <= b <= t@.len(),
    ensures
        a <= r <= b,
        r - a == find_in(t@.subrange(a as int, b as int), '/', 0, (b - a) as int),
{
    let ghost v = t@.subrange(a as int, b as int);
    let slash = find_char(t, '/', a, b);
    proof {
        lemma_find_shift(t@, v, a as int, b as int, 0);
    }
    slash
}

fn apply_memory(p: &mut ProcessInfo, t: &[char], a: usize, b: usize)
    requires
        a <= b <= t@.len(),
    ensures
        final(p)@ == memory_line(old(p)@, t@.subrange(a as int, b as int)),
{
    let ghost v = t@.subrange(a as int, b as int);
    let slash = find_slash(t, a, b);
    if slash < b {
        assert(v.subrange(0, slash - a) =~= t@.subrange(a as int, slash as int));
        assert(v.subrange(slash - a + 1, v.len() as int) =~= t@.subrange(slash + 1, b as int));
        if let Some(n) = parse_u64_at(t, a, slash) {
            p.memory_rss = Some(n);
        }
        if let Some(n) = parse_u64_at(t, slash + 1, b) {
            p.memory_virt = Some(n);
        }
    }
}

proof fn lemma_find_shift(t: Seq<char>, v: Seq<char>, a: int, b: int, k: int)
    requires
        0 <= a <= b <= t.len(),
        v == t.subrange(a, b),
        0 <= k <= v.len(),
    ensures
        find_in(v, '/', k, v.len() as int) + a == find_in(t, '/', k + a, b),
        find_in(t, '/', k + a, b) <= b,
    decreases v.len() - k,
{
    if k < v.len() {
        lemma_find_shift(t, v, a, b, k + 1);
    }
}

fn set_number(field: &mut Option<u64>, t: &[char], a: usize, b: usize)
    requires
        a <= b <= t@.len(),
    ensures
        *final(field) == set_if_parsed(*old(field), t@.subrange(a as int, b as int)),
{
    if let Some(n) = parse_u64_at(t, a, b) {
        *field = Some(n);
    }
}

/// Applies one line inside an open record.
fn apply_record_line(p: &mut ProcessInfo, t: &[char])
    ensures
        final(p)@ == record_line(old(p)@, t@),
{
    if has_prefix(t, "State:") {
        proof {
            reveal_strlit("State:");
        }
        apply_state(p, t);
    } else if let Some((a, b)) = value_span(t, "User") {
        p.user = Some(text_of(t, a, b));
    } else if let Some((a, b)) = value_span(t, "Group") {
        p.group = Some(text_of(t, a, b));
    } else if let Some((a, b)) = value_span(t, "Memory") {
        apply_memory(p, t, a, b);
    } else if let Some((a, b)) = value_span(t, "Swap") {
        set_number(&mut p.swap, t, a, b);
    } else if let Some((a, b)) = value_span(t, "Threads") {
        if let Some(n) = parse_u32_at(t, a, b) {
            p.threads = Some(n);
        }
    } else if let Some((a, b)) = value_span(t, "Utime") {
        set_number(&mut p.utime, t, a, b);
    }
}

fn close_record(kept: &mut Vec<ProcessInfo>, current: Option<ProcessInfo>)
    ensures
        final(kept)@.map_values(|p: ProcessInfo| p@) == keep(
            old(kept)@.map_values(|p: ProcessInfo| p@),
            match current {
                Some(p) => Some(p@),
                None => None,
            },
        ),
{
    if let Some(p) = current {
        if p.pid.is_some() {
            kept.push(p);
            assert(final(kept)@.map_values(|p: ProcessInfo| p@) =~= old(kept)@.map_values(
                |p: ProcessInfo| p@,
            ).push(p@));
        }
    }
}

fn memory_check(t: &[char], a: usize, b: usize) -> (r: Option<DiagnosticKind>)
    requires
        a <= b <= t@.len(),
    ensures
        r == memory_diag(t@.subrange(a as int, b as int)),
{
    let ghost v = t@.subrange(a as int, b as int);
    let slash = find_slash(t, a, b);
    if slash >= b {
        Some(DiagnosticKind::MalformedMemory)
    } else {
        assert(v.subrange(0, slash - a) =~= t@.subrange(a as int, slash as int));
        assert(v.subrange(slash - a + 1, v.len() as int) =~= t@.subrange(slash + 1, b as int));
        let rss_bad = parse_u64_at(t, a, slash).is_none();
        let virt_bad = parse_u64_at(t, slash + 1, b).is_none();
        if rss_bad || virt_bad {
            Some(DiagnosticKind::BadMemoryValue { rss_bad, virt_bad })
        } else {
            None
        }
    }
}

/// The finding on a trimmed line of the process file (see `proc_line_diag`).
pub fn proc_line_check(open: bool, t: &[char]) -> (r: Option<DiagnosticKind>)
    ensures
        r == proc_line_diag(open, t@),
{
    if t.len() == 0 {
        None
    } else if has_prefix(t, "Proc:") {
        let n = t.len();
        let s1 = find_char(t, ' ', 0, n);
        if s1 >= n {
            return Some(DiagnosticKind::MalformedProcHeader);
        }
        let s2 = find_char(t, ' ', s1 + 1, n);
        if s2 >= n {
            Some(DiagnosticKind::MalformedProcHeader)
        } else if parse_u32_at(t, s1 + 1, s2).is_none() {
            Some(DiagnosticKind::BadPid)
        } else {
            None
        }
    } else if !open {
        Some(DiagnosticKind::UnrecognizedLine)
    } else if has_prefix(t, "State:") {
        None
    } else if value_span(t, "User").is_some() {
        None
    } else if value_span(t, "Group").is_some() {
        None
    } else if let Some((a, b)) = value_span(t, "Memory") {
        memory_check(t, a, b)
    } else if let Some((a, b)) = value_span(t, "Swap") {
        number_check(parse_u64_at(t, a, b).is_some())
    } else if let Some((a, b)) = value_span(t, "Threads") {
        number_check(parse_u32_at(t, a, b).is_some())
    } else if let Some((a, b)) = value_span(t, "Utime") {
        number_check(parse_u64_at(t, a, b).is_some())
    } else if has_prefix(t, "Max_cpus:") {
        Some(DiagnosticKind::IgnoredLine)
    } else {
        Some(DiagnosticKind::UnrecognizedLine)
    }
}

/// Parses the contents of the process file. Records whose pid does not
/// parse are left out; lines outside a record are ignored.
pub fn parse_proc_file(content: &str) -> (r: ProcessesInfo)
    ensures
        r@ == proc_parse(content@),
{
    parse_proc_file_checked(content).0
}

/// Parses the contents of the process file, and reports what was wrong
/// with its lines.
pub fn parse_proc_file_checked(content: &str) -> (r: (ProcessesInfo, Vec<Diagnostic>))
    ensures
        r.0@ == proc_parse(content@),
        r.1@ == proc_diagnostics(content@),
{
    let ls = split_lines(content);
    let ghost lv = lines(content@);
    let mut kept: Vec<ProcessInfo> = Vec::new();
    let mut current: Option<ProcessInfo> = None;
    let mut diags: Vec<Diagnostic> = Vec::new();
    let mut i: usize = 0;
    assert(lv.take(0) =~= Seq::<Seq<char>>::empty());
    assert(kept@.map_values(|p: ProcessInfo| p@) =~= Seq::<ProcessView>::empty());
    while i < ls.len()
        invariant
            i <= ls@.len() == lv.len(),
            forall|j: int| 0 <= j < ls@.len() ==> #[trigger] ls@[j]@ == lv[j],
            proc_scan(lv.take(i as int)).kept == kept@.map_values(|p: ProcessInfo| p@),
            proc_scan(lv.take(i as int)).current == match current {
                Some(p) => Some(p@),
                None => None,
            },
            diags@ == collect(proc_found(lv), i as int),
        decreases ls@.len() - i,
    {
        assert(lv.take(i + 1).drop_last() =~= lv.take(i as int));
        assert(lv.take(i + 1).last() == ls@[i as int]@);
        let line = ls[i].as_slice();
        assert(line@.subrange(0, line@.len() as int) =~= line@);
        let t = trim_chars(line, 0, line.len());
        let t = t.as_slice();
        if let Some(kind) = proc_line_check(current.is_some(), t) {
            diags.push(Diagnostic { line: i, kind });
        }
        if t.len() == 0 {
        } else if has_prefix(t, "Proc:") {
            let prev = current;
            close_record(&mut kept, prev);
            current = parse_header(t);
        } else {
            match current {
                Some(mut p) => {
                    apply_record_line(&mut p, t);
                    current = Some(p);
                },
                None => {
                    current = None;
                },
            }
        }
        i = i + 1;
    }
    assert(lv.take(i as int) =~= lv);
    close_record(&mut kept, current);
    (ProcessesInfo { processes: kept }, diags)
}

} // verus!
