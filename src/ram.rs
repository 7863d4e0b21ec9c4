//! The RAM file: `Ram total`, `Ram free` and `Ram available` lines.

use vstd::prelude::*;
use crate::diag::{collect, number_check, number_diag, Diagnostic, DiagnosticKind};
use crate::models::{empty_memory, MemoryInfo};
use crate::text::{extract_value_spec, lines, parse_u64_at, parse_u64_spec, split_lines, trim, trim_chars, value_span};

verus! {

pub open spec fn set_if_number(old: Option<u64>, v: Seq<char>) -> Option<u64> {
    match parse_u64_spec(v) {
        Some(n) => Some(n),
        None => old,
    }
}

/// The figures after one more line; any other line changes nothing.
pub open spec fn ram_step(m: MemoryInfo, line: Seq<char>) -> MemoryInfo {
    let t = trim(line);
    match extract_value_spec(t, "Ram total"@) {
        Some(v) => MemoryInfo { total: set_if_number(m.total, v), ..m },
        None => match extract_value_spec(t, "Ram free"@) {
            Some(v) => MemoryInfo { free: set_if_number(m.free, v), ..m },
            None => match extract_value_spec(t, "Ram available"@) {
                Some(v) => MemoryInfo { available: set_if_number(m.available, v), ..m },
                None => m,
            },
        },
    }
}

pub open spec fn ram_scan(ls: Seq<Seq<char>>) -> MemoryInfo
    decreases ls.len(),
{
    if ls.len() == 0 {
        empty_memory()
    } else {
        ram_step(ram_scan(ls.drop_last()), ls.last())
    }
}

pub open spec fn ram_parse(text: Seq<char>) -> MemoryInfo {
    ram_scan(lines(text))
}

/// The finding on a trimmed line of the RAM file: a bad value for a known
/// key is a warning; any other nonempty line is passed over quietly.
pub open spec fn ram_line_diag(t: Seq<char>) -> Option<DiagnosticKind> {
    if t.len() == 0 {
        None
    } else if extract_value_spec(t, "Ram total"@) is Some {
        number_diag(parse_u64_spec(extract_value_spec(t, "Ram total"@)->0) is Some)
    } else if extract_value_spec(t, "Ram free"@) is Some {
        number_diag(parse_u64_spec(extract_value_spec(t, "Ram free"@)->0) is Some)
    } else if extract_value_spec(t, "Ram available"@) is Some {
        number_diag(parse_u64_spec(extract_value_spec(t, "Ram available"@)->0) is Some)
    } else {
        Some(DiagnosticKind::IgnoredLine)
    }
}

pub open spec fn ram_found(lv: Seq<Seq<char>>) -> spec_fn(int) -> Option<DiagnosticKind> {
    |i: int| ram_line_diag(trim(lv[i]))
}

/// The findings of a RAM file, in line order.
pub open spec fn ram_diagnostics(text: Seq<char>) -> Seq<Diagnostic> {
    collect(ram_found(lines(text)), lines(text).len() as int)
}

/// The finding on a trimmed line of the RAM file (see `ram_line_diag`).
pub fn ram_line_check(t: &[char]) -> (r: Option<DiagnosticKind>)
    ensures
        r == ram_line_diag(t@),
{
    if t.len() == 0 {
        None
    } else if let Some((a, b)) = value_span(t, "Ram total") {
        number_check(parse_u64_at(t, a, b).is_some())
    } else if let Some((a, b)) = value_span(t, "Ram free") {
        number_check(parse_u64_at(t, a, b).is_some())
    } else if let Some((a, b)) = value_span(t, "Ram available") {
        number_check(parse_u64_at(t, a, b).is_some())
    } else {
        Some(DiagnosticKind::IgnoredLine)
    }
}

fn set_figure(field: &mut Option<u64>, t: &[char], a: usize, b: usize)
    requires
        a <= b <= t@.len(),
    ensures
        *final(field) == set_if_number(*old(field), t@.subrange(a as int, b as int)),
{
    if let Some(n) = parse_u64_at(t, a, b) {
        *field = Some(n);
    }
}

/// Parses the contents of the RAM file.
pub fn parse_ram_file(content: &str) -> (r: MemoryInfo)
    ensures
        r == ram_parse(content@),
{
    parse_ram_file_checked(content).0
}

/// Parses the contents of the RAM file, and reports what was wrong with its
/// lines.
pub fn parse_ram_file_checked(content: &str) -> (r: (MemoryInfo, Vec<Diagnostic>))
    ensures
        r.0 == ram_parse(content@),
        r.1@ == ram_diagnostics(content@),
{
    let ls = split_lines(content);
    let ghost lv = lines(content@);
    let mut m = MemoryInfo::empty();
    let mut diags: Vec<Diagnostic> = Vec::new();
    let mut i: usize = 0;
    assert(lv.take(0) =~= Seq::<Seq<char>>::empty());
    while i < ls.len()
        invariant
            i <= ls@.len() == lv.len(),
            forall|j: int| 0 <= j < ls@.len() ==> #[trigger] ls@[j]@ == lv[j],
            m == ram_scan(lv.take(i as int)),
            diags@ == collect(ram_found(lv), i as int),
        decreases ls@.len() - i,
    {
        assert(lv.take(i + 1).drop_last() =~= lv.take(i as int));
        assert(lv.take(i + 1).last() == ls@[i as int]@);
        let line = ls[i].as_slice();
        assert(line@.subrange(0, line@.len() as int) =~= line@);
        let t = trim_chars(line, 0, line.len());
        let t = t.as_slice();
        if let Some(kind) = ram_line_check(t) {
            diags.push(Diagnostic { line: i, kind });
        }
        if let Some((a, b)) = value_span(t, "Ram total") {
            set_figure(&mut m.total, t, a, b);
        } else if let Some((a, b)) = value_span(t, "Ram free") {
            set_figure(&mut m.free, t, a, b);
        } else if let Some((a, b)) = value_span(t, "Ram available") {
            set_figure(&mut m.available, t, a, b);
        }
        i = i + 1;
    }
    assert(lv.take(i as int) =~= lv);
    (m, diags)
}

} // verus!
