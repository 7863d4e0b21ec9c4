//! The CPU file: a temperature line, a `Full CPU:` block and numbered
//! `Core <n>:` blocks of tick counters.

use vstd::prelude::*;
use crate::diag::{collect, number_check, number_diag, Diagnostic, DiagnosticKind};
use crate::models::{empty_stat, CoreStat, CpuInfo, CpuInfoView, CpuStat, CpuUsage, CpuUsageView};
use crate::text::{
    extract_value_spec, has_prefix, lines, parse_i64_at, parse_i64_spec, parse_u32_at,
    parse_u32_spec, parse_u64_at, parse_u64_spec, skip_ws_from, split_lines, starts_with,
    trim, trim_back_from, trim_chars, trim_range, value_span,
};

verus! {

/// A counter after a `key: value` line: the parsed value, or the old one
/// when the value is not a number.
pub open spec fn updated(old: Option<u64>, v: Seq<char>) -> Option<u64> {
    match parse_u64_spec(v) {
        Some(n) => Some(n),
        None => old,
    }
}

/// A stat block after one line inside it. The first of the seven keys that
/// the line carries a value for is updated; other lines change nothing.
pub open spec fn stat_line(st: CpuStat, t: Seq<char>) -> CpuStat {
    match extract_value_spec(t, "User norm"@) {
        Some(v) => CpuStat { user_norm: updated(st.user_norm, v), ..st },
        None => match extract_value_spec(t, "User nice"@) {
            Some(v) => CpuStat { user_nice: updated(st.user_nice, v), ..st },
            None => match extract_value_spec(t, "Kernel"@) {
                Some(v) => CpuStat { kernel: updated(st.kernel, v), ..st },
                None => match extract_value_spec(t, "Idle"@) {
                    Some(v) => CpuStat { idle: updated(st.idle, v), ..st },
                    None => match extract_value_spec(t, "Iowait"@) {
                        Some(v) => CpuStat { iowait: updated(st.iowait, v), ..st },
                        None => match extract_value_spec(t, "Irq"@) {
                            Some(v) => CpuStat { irq: updated(st.irq, v), ..st },
                            None => match extract_value_spec(t, "Soft irq"@) {
                                Some(v) => CpuStat { soft_irq: updated(st.soft_irq, v), ..st },
                                None => st,
                            },
                        },
                    },
                },
            },
        },
    }
}

/// The core id of a `Core <n>:` header (given that it starts with `Core `).
pub open spec fn core_header_id(t: Seq<char>) -> Option<u32> {
    let n = t.len() as int;
    if n > 5 && t[n - 1] == ':' {
        parse_u32_spec(trim_range(t, 5, n - 1))
    } else {
        None
    }
}

/// A line whose value for its key is not a number leaves the block as it
/// was: the field stays absent (or keeps its earlier value), and every other
/// field is untouched.
pub proof fn lemma_unparsable_value_changes_nothing(st: CpuStat, t: Seq<char>)
    requires
        forall|k: Seq<char>|
            #![trigger extract_value_spec(t, k)]
            extract_value_spec(t, k) matches Some(v) ==> parse_u64_spec(v) is None,
    ensures
        stat_line(st, t) == st,
{
    assert(extract_value_spec(t, "User norm"@) matches Some(v) ==> parse_u64_spec(v) is None);
    assert(extract_value_spec(t, "User nice"@) matches Some(v) ==> parse_u64_spec(v) is None);
    assert(extract_value_spec(t, "Kernel"@) matches Some(v) ==> parse_u64_spec(v) is None);
    assert(extract_value_spec(t, "Idle"@) matches Some(v) ==> parse_u64_spec(v) is None);
    assert(extract_value_spec(t, "Iowait"@) matches Some(v) ==> parse_u64_spec(v) is None);
    assert(extract_value_spec(t, "Irq"@) matches Some(v) ==> parse_u64_spec(v) is None);
    assert(extract_value_spec(t, "Soft irq"@) matches Some(v) ==> parse_u64_spec(v) is None);
}

/// What the scanner knows after a prefix of the lines.
pub struct CpuScan {
    pub temperature: Option<i64>,
    pub full: Option<CpuStat>,
    /// Whether the open block is the full-system block.
    pub in_full: bool,
    /// The open core block, if any.
    pub current: Option<CoreStat>,
    /// The closed core blocks, in file order.
    pub cores: Seq<CoreStat>,
}

pub open spec fn flush(cores: Seq<CoreStat>, current: Option<CoreStat>) -> Seq<CoreStat> {
    match current {
        Some(c) => cores.push(c),
        None => cores,
    }
}

pub open spec fn cpu_start() -> CpuScan {
    CpuScan { temperature: None, full: None, in_full: false, current: None, cores: Seq::empty() }
}

/// The scanner after one more line.
pub open spec fn cpu_step(s: CpuScan, line: Seq<char>) -> CpuScan {
    let t = trim(line);
    if t.len() == 0 {
        s
    } else if extract_value_spec(t, "CPU temp"@) is Some {
        let v = extract_value_spec(t, "CPU temp"@)->0;
        CpuScan {
            temperature: if parse_i64_spec(v) is Some { parse_i64_spec(v) } else { s.temperature },
            in_full: false,
            current: None,
            cores: flush(s.cores, s.current),
            ..s
        }
    } else if starts_with(t, "Full CPU:"@) {
        CpuScan {
            full: if s.full is Some { s.full } else { Some(empty_stat()) },
            in_full: true,
            current: None,
            cores: flush(s.cores, s.current),
            ..s
        }
    } else if starts_with(t, "Core "@) {
        CpuScan {
            in_full: false,
            current: match core_header_id(t) {
                Some(id) => Some(CoreStat { core_id: id, stats: empty_stat() }),
                None => None,
            },
            cores: flush(s.cores, s.current),
            ..s
        }
    } else if s.in_full {
        match s.full {
            Some(f) => CpuScan { full: Some(stat_line(f, t)), ..s },
            None => s,
        }
    } else {
        match s.current {
            Some(c) => CpuScan {
                current: Some(CoreStat { core_id: c.core_id, stats: stat_line(c.stats, t) }),
                ..s
            },
            None => s,
        }
    }
}

pub open spec fn cpu_scan(ls: Seq<Seq<char>>) -> CpuScan
    decreases ls.len(),
{
    if ls.len() == 0 {
        cpu_start()
    } else {
        cpu_step(cpu_scan(ls.drop_last()), ls.last())
    }
}

/// Every scan of a file has the full-system block present while it is open.
pub proof fn lemma_scan_full_present(ls: Seq<Seq<char>>)
    ensures
        cpu_scan(ls).in_full ==> cpu_scan(ls).full is Some,
    decreases ls.len(),
{
    if ls.len() > 0 {
        lemma_scan_full_present(ls.drop_last());
    }
}

/// A line whose key value is not a number is as if it were absent: the scan
/// after it is the scan before it, so the other keys of its block are read
/// all the same and only that field stays unset.
pub proof fn lemma_unparsable_line_ignored(ls: Seq<Seq<char>>, line: Seq<char>)
    requires
        trim(line).len() > 0,
        extract_value_spec(trim(line), "CPU temp"@) is None,
        !starts_with(trim(line), "Full CPU:"@),
        !starts_with(trim(line), "Core "@),
        forall|k: Seq<char>|
            #![trigger extract_value_spec(trim(line), k)]
            extract_value_spec(trim(line), k) matches Some(v) ==> parse_u64_spec(v) is None,
    ensures
        cpu_scan(ls.push(line)) == cpu_scan(ls),
{
    let s = cpu_scan(ls);
    let t = trim(line);
    assert(ls.push(line).drop_last() =~= ls);
    lemma_scan_full_present(ls);
    if s.in_full {
        lemma_unparsable_value_changes_nothing(s.full->0, t);
    } else if s.current is Some {
        lemma_unparsable_value_changes_nothing(s.current->0.stats, t);
    }
}

/// What a CPU file holds, once all lines are read.
pub open spec fn cpu_result(s: CpuScan) -> CpuInfoView {
    let cores = flush(s.cores, s.current);
    CpuInfoView {
        cpu_temperature_milli: s.temperature,
        cpu_usage: if s.full is Some || cores.len() > 0 {
            Some(
                CpuUsageView {
                    full: s.full,
                    cores: if cores.len() > 0 { Some(cores) } else { None },
                },
            )
        } else {
            None
        },
    }
}

pub open spec fn cpu_parse(text: Seq<char>) -> CpuInfoView {
    cpu_result(cpu_scan(lines(text)))
}

/// The finding on a line inside a stat block: a bad value for the first key
/// the line carries, or an unrecognized line when it carries none.
pub open spec fn stat_diag(t: Seq<char>) -> Option<DiagnosticKind> {
    if extract_value_spec(t, "User norm"@) is Some {
        number_diag(parse_u64_spec(extract_value_spec(t, "User norm"@)->0) is Some)
    } else if extract_value_spec(t, "User nice"@) is Some {
        number_diag(parse_u64_spec(extract_value_spec(t, "User nice"@)->0) is Some)
    } else if extract_value_spec(t, "Kernel"@) is Some {
        number_diag(parse_u64_spec(extract_value_spec(t, "Kernel"@)->0) is Some)
    } else if extract_value_spec(t, "Idle"@) is Some {
        number_diag(parse_u64_spec(extract_value_spec(t, "Idle"@)->0) is Some)
    } else if extract_value_spec(t, "Iowait"@) is Some {
        number_diag(parse_u64_spec(extract_value_spec(t, "Iowait"@)->0) is Some)
    } else if extract_value_spec(t, "Irq"@) is Some {
        number_diag(parse_u64_spec(extract_value_spec(t, "Irq"@)->0) is Some)
    } else if extract_value_spec(t, "Soft irq"@) is Some {
        number_diag(parse_u64_spec(extract_value_spec(t, "Soft irq"@)->0) is Some)
    } else {
        Some(DiagnosticKind::UnrecognizedLine)
    }
}

/// The finding on a trimmed line of the CPU file, given whether a stat block
/// is open.
pub open spec fn cpu_line_diag(open: bool, t: Seq<char>) -> Option<DiagnosticKind> {
    let n = t.len() as int;
    if n == 0 {
        None
    } else if extract_value_spec(t, "CPU temp"@) is Some {
        number_diag(parse_i64_spec(extract_value_spec(t, "CPU temp"@)->0) is Some)
    } else if starts_with(t, "Full CPU:"@) {
        None
    } else if starts_with(t, "Core "@) {
        if n > 5 && t[n - 1] == ':' {
            if core_header_id(t) is Some {
                None
            } else {
                Some(DiagnosticKind::BadCoreId)
            }
        } else {
            Some(DiagnosticKind::MalformedCoreHeader)
        }
    } else if open {
        stat_diag(t)
    } else {
        Some(DiagnosticKind::UnrecognizedLine)
    }
}

/// Whether lines of a scan go to a stat block.
pub open spec fn block_open(s: CpuScan) -> bool {
    if s.in_full {
        s.full is Some
    } else {
        s.current is Some
    }
}

pub open spec fn cpu_found(lv: Seq<Seq<char>>) -> spec_fn(int) -> Option<DiagnosticKind> {
    |i: int| cpu_line_diag(block_open(cpu_scan(lv.take(i))), trim(lv[i]))
}

/// The findings of a CPU file, in line order.
pub open spec fn cpu_diagnostics(text: Seq<char>) -> Seq<Diagnostic> {
    collect(cpu_found(lines(text)), lines(text).len() as int)
}

fn set_counter(field: &mut Option<u64>, t: &[char], a: usize, b: usize)
    requires
        a <= b <= t@.len(),
    ensures
        *final(field) == updated(*old(field), t@.subrange(a as int, b as int)),
{
    match parse_u64_at(t, a, b) {
        Some(n) => {
            *field = Some(n);
        },
        None => {},
    }
}

/// Applies one line inside a stat block.
pub fn apply_stat_line(st: &mut CpuStat, t: &[char])
    ensures
        *final(st) == stat_line(*old(st), t@),
{
    if let Some((a, b)) = value_span(t, "User norm") {
        set_counter(&mut st.user_norm, t, a, b);
    } else if let Some((a, b)) = value_span(t, "User nice") {
        set_counter(&mut st.user_nice, t, a, b);
    } else if let Some((a, b)) = value_span(t, "Kernel") {
        set_counter(&mut st.kernel, t, a, b);
    } else if let Some((a, b)) = value_span(t, "Idle") {
        set_counter(&mut st.idle, t, a, b);
    } else if let Some((a, b)) = value_span(t, "Iowait") {
        set_counter(&mut st.iowait, t, a, b);
    } else if let Some((a, b)) = value_span(t, "Irq") {
        set_counter(&mut st.irq, t, a, b);
    } else if let Some((a, b)) = value_span(t, "Soft irq") {
        set_counter(&mut st.soft_irq, t, a, b);
    }
}

fn parse_core_header(t: &[char]) -> (r: Option<u32>)
    requires
        t@.len() >= 5,
    ensures
        r == core_header_id(t@),
{
    let n = t.len();
    if n > 5 && t[n - 1] == ':' {
        let a = skip_ws_from(t, 5, n - 1);
        let b = trim_back_from(t, a, n - 1);
        parse_u32_at(t, a, b)
    } else {
        None
    }
}

fn close_core(cores: &mut Vec<CoreStat>, current: &mut Option<CoreStat>)
    ensures
        final(cores)@ == flush(old(cores)@, *old(current)),
        *final(current) is None,
{
    if let Some(c) = *current {
        cores.push(c);
    }
    *current = None;
}

fn stat_check(t: &[char]) -> (r: Option<DiagnosticKind>)
    ensures
        r == stat_diag(t@),
{
    if let Some((a, b)) = value_span(t, "User norm") {
        number_check(parse_u64_at(t, a, b).is_some())
    } else if let Some((a, b)) = value_span(t, "User nice") {
        number_check(parse_u64_at(t, a, b).is_some())
    } else if let Some((a, b)) = value_span(t, "Kernel") {
        number_check(parse_u64_at(t, a, b).is_some())
    } else if let Some((a, b)) = value_span(t, "Idle") {
        number_check(parse_u64_at(t, a, b).is_some())
    } else if let Some((a, b)) = value_span(t, "Iowait") {
        number_check(parse_u64_at(t, a, b).is_some())
    } else if let Some((a, b)) = value_span(t, "Irq") {
        number_check(parse_u64_at(t, a, b).is_some())
    } else if let Some((a, b)) = value_span(t, "Soft irq") {
        number_check(parse_u64_at(t, a, b).is_some())
    } else {
        Some(DiagnosticKind::UnrecognizedLine)
    }
}

/// The finding on a trimmed line of the CPU file (see `cpu_line_diag`).
pub fn cpu_line_check(open: bool, t: &[char]) -> (r: Option<DiagnosticKind>)
    ensures
        r == cpu_line_diag(open, t@),
{
    let n = t.len();
    if n == 0 {
        None
    } else if let Some((a, b)) = value_span(t, "CPU temp") {
        number_check(parse_i64_at(t, a, b).is_some())
    } else if has_prefix(t, "Full CPU:") {
        None
    } else if has_prefix(t, "Core ") {
        proof {
            reveal_strlit("Core ");
        }
        if n > 5 && t[n - 1] == ':' {
            if parse_core_header(t).is_some() {
                None
            } else {
                Some(DiagnosticKind::BadCoreId)
            }
        } else {
            Some(DiagnosticKind::MalformedCoreHeader)
        }
    } else if open {
        stat_check(t)
    } else {
        Some(DiagnosticKind::UnrecognizedLine)
    }
}

/// Parses the contents of the CPU file. Lines that fit no pattern, and
/// values that are not numbers, leave the fields they would set absent.
pub fn parse_cpu_file(content: &str) -> (r: CpuInfo)
    ensures
        r@ == cpu_parse(content@),
{
    parse_cpu_file_checked(content).0
}

/// Parses the contents of the CPU file, and reports what was wrong with its
/// lines.
pub fn parse_cpu_file_checked(content: &str) -> (r: (CpuInfo, Vec<Diagnostic>))
    ensures
        r.0@ == cpu_parse(content@),
        r.1@ == cpu_diagnostics(content@),
{
    let ls = split_lines(content);
    let ghost lv = lines(content@);
    let mut temperature: Option<i64> = None;
    let mut full: Option<CpuStat> = None;
    let mut in_full = false;
    let mut current: Option<CoreStat> = None;
    let mut cores: Vec<CoreStat> = Vec::new();
    let mut diags: Vec<Diagnostic> = Vec::new();
    let mut i: usize = 0;
    assert(lv.take(0) =~= Seq::<Seq<char>>::empty());
    while i < ls.len()
        invariant
            i <= ls@.len() == lv.len(),
            forall|j: int| 0 <= j < ls@.len() ==> #[trigger] ls@[j]@ == lv[j],
            ({
                let s = cpu_scan(lv.take(i as int));
                &&& s.temperature == temperature
                &&& s.full == full
                &&& s.in_full == in_full
                &&& s.current == current
                &&& s.cores == cores@
            }),
            diags@ == collect(cpu_found(lv), i as int),
        decreases ls@.len() - i,
    {
        assert(lv.take(i + 1).drop_last() =~= lv.take(i as int));
        assert(lv.take(i + 1).last() == ls@[i as int]@);
        let line = ls[i].as_slice();
        let t = trim_chars(line, 0, line.len());
        assert(line@.subrange(0, line@.len() as int) =~= line@);
        let t = t.as_slice();
        let open = if in_full {
            full.is_some()
        } else {
            current.is_some()
        };
        if let Some(kind) = cpu_line_check(open, t) {
            diags.push(Diagnostic { line: i, kind });
        }
        if t.len() == 0 {
        } else if let Some((a, b)) = value_span(t, "CPU temp") {
            if let Some(v) = parse_i64_at(t, a, b) {
                temperature = Some(v);
            }
            in_full = false;
            close_core(&mut cores, &mut current);
        } else if has_prefix(t, "Full CPU:") {
            if full.is_none() {
                full = Some(CpuStat::empty());
            }
            in_full = true;
            close_core(&mut cores, &mut current);
        } else if has_prefix(t, "Core ") {
            in_full = false;
            close_core(&mut cores, &mut current);
            proof {
                reveal_strlit("Core ");
            }
            match parse_core_header(t) {
                Some(id) => {
                    current = Some(CoreStat { core_id: id, stats: CpuStat::empty() });
                },
                None => {},
            }
        } else if in_full {
            if let Some(mut f) = full {
                apply_stat_line(&mut f, t);
                full = Some(f);
            }
        } else if let Some(mut c) = current {
            apply_stat_line(&mut c.stats, t);
            current = Some(c);
        }
        i = i + 1;
    }
    assert(lv.take(i as int) =~= lv);
    close_core(&mut cores, &mut current);
    let usage = if full.is_some() || cores.len() > 0 {
        Some(CpuUsage { full, cores: if cores.len() > 0 { Some(cores) } else { None } })
    } else {
        None
    };
    (CpuInfo { cpu_temperature_milli: temperature, cpu_usage: usage }, diags)
}

} // verus!
