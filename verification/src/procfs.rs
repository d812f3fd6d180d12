//! Reading one sample of a process out of what the kernel says of it under
//! `/proc`: the processor time in `stat`, the memory in `statm`, the name in
//! `comm`, and the application in `cgroup`.
//!
//! The callers read the files; the functions here take their text.

use crate::processes::{Containerization, ProcessData, ProcessDataView, EnumerationError};
use crate::text::{
    after_last, chars_of, ends_with, first_index_of, has_at, lemma_first_index_is,
    optional_text, parse_decimal, parse_u64, push_char, split_after_last, split_at_char,
    split_on, starts_with, str_ends_with, str_equal, string_of,
};
use vstd::prelude::*;

verus! {

/// The number that the field `index` states, where there is such a field
/// and it is a number of at most 64 bits.
pub open spec fn field_number(fields: Seq<Seq<char>>, index: int) -> Option<u64> {
    if 0 <= index < fields.len() {
        match parse_decimal(fields[index], u64::MAX as int) {
            Some(n) => Some(n as u64),
            None => None,
        }
    } else {
        None
    }
}

fn number_at(fields: &Vec<String>, index: usize) -> (r: Option<u64>)
    ensures
        r == field_number(fields.deep_view(), index as int),
{
    if index < fields.len() {
        assert(fields.deep_view()[index as int] == fields[index as int]@);
        parse_u64(fields[index].as_str())
    } else {
        None
    }
}

/// The fields of a `stat` line that follow the name of the program, which
/// stands in brackets and may itself hold spaces and brackets: what comes
/// after the last closing bracket, split at spaces. The first of them is
/// empty, the second is the state, and so on.
pub open spec fn stat_fields(stat: Seq<char>) -> Seq<Seq<char>> {
    split_on(after_last(stat, ')'), ' ')
}

/// Where the time in user mode stands among `stat_fields`.
pub const UTIME_FIELD: usize = 12;

/// Where the time in kernel mode stands among `stat_fields`.
pub const STIME_FIELD: usize = 13;

/// The processor time that a `stat` line states: the time in user mode and
/// the time in kernel mode together; nothing where the line has no closing
/// bracket, lacks a field, or the sum is more than 64 bits hold.
pub open spec fn stat_cpu_time(stat: Seq<char>) -> Option<u64> {
    match (
        field_number(stat_fields(stat), UTIME_FIELD as int),
        field_number(stat_fields(stat), STIME_FIELD as int),
    ) {
        (Some(user), Some(kernel)) => if crate::text::last_index_of(stat, ')') >= 0 && user
            + kernel <= u64::MAX {
            Some((user + kernel) as u64)
        } else {
            None
        },
        _ => None,
    }
}

/// The processor time that a `stat` line states.
pub fn cpu_time_of_stat(stat: &str) -> (r: Option<u64>)
    ensures
        r == stat_cpu_time(stat@),
{
    let (bracketed, rest) = split_after_last(stat, ')');
    let fields = split_at_char(rest.as_str(), ' ');
    let user = number_at(&fields, UTIME_FIELD);
    let kernel = number_at(&fields, STIME_FIELD);
    if !bracketed {
        return None;
    }
    match (user, kernel) {
        (Some(user), Some(kernel)) => user.checked_add(kernel),
        _ => None,
    }
}

/// Where the resident pages stand among the fields of `statm`.
pub const RESIDENT_FIELD: usize = 1;

/// Where the shared pages stand among the fields of `statm`.
pub const SHARED_FIELD: usize = 2;

/// The memory that a `statm` line states, in bytes: the resident pages that
/// are not shared, times the size of a page; nothing where a field is
/// missing or the product does not fit a `usize`.
pub open spec fn statm_memory(statm: Seq<char>, page_size: usize) -> Option<usize> {
    match (
        field_number(split_on(statm, ' '), RESIDENT_FIELD as int),
        field_number(split_on(statm, ' '), SHARED_FIELD as int),
    ) {
        (Some(resident), Some(shared)) => {
            let own = if resident > shared {
                resident - shared
            } else {
                0
            };
            if own * page_size <= usize::MAX {
                Some((own * page_size) as usize)
            } else {
                None
            }
        },
        _ => None,
    }
}

/// The memory that a `statm` line states, in bytes.
pub fn memory_of_statm(statm: &str, page_size: usize) -> (r: Option<usize>)
    ensures
        r == statm_memory(statm@, page_size),
{
    let fields = split_at_char(statm, ' ');
    match (number_at(&fields, RESIDENT_FIELD), number_at(&fields, SHARED_FIELD)) {
        (Some(resident), Some(shared)) => {
            let own: u64 = if resident > shared {
                resident - shared
            } else {
                0
            };
            if own > usize::MAX as u64 {
                assert(own * page_size > usize::MAX || page_size == 0) by (nonlinear_arith)
                    requires
                        own > usize::MAX,
                        page_size >= 0,
                ;
                if page_size == 0 {
                    assert(own * page_size == 0) by (nonlinear_arith)
                        requires
                            page_size == 0,
                    ;
                    return Some(0);
                }
                return None;
            }
            (own as usize).checked_mul(page_size)
        },
        _ => None,
    }
}

/// A line without the line feed that may end it.
pub open spec fn without_line_end(line: Seq<char>) -> Seq<char> {
    if line.len() > 0 && line.last() == '\n' {
        line.drop_last()
    } else {
        line
    }
}

/// A line without the line feed that may end it.
pub fn trim_line_end(line: &str) -> (r: String)
    ensures
        r@ == without_line_end(line@),
{
    let chars = chars_of(line);
    let len = chars.len();
    let r = if len > 0 && chars[len - 1] == '\n' {
        string_of(&chars, 0, len - 1)
    } else {
        string_of(&chars, 0, len)
    };
    assert(r@ =~= without_line_end(line@));
    r
}

/// What marks the line of the unified hierarchy in a `cgroup` file.
pub const UNIFIED_PREFIX: &'static str = "0::";

/// The first of `lines` that begins with `0::`, without that beginning.
pub open spec fn unified_path(lines: Seq<Seq<char>>) -> Option<Seq<char>>
    decreases lines.len(),
{
    if lines.len() == 0 {
        None
    } else if starts_with(lines[0], UNIFIED_PREFIX@) {
        Some(lines[0].skip(UNIFIED_PREFIX@.len() as int))
    } else {
        unified_path(lines.drop_first())
    }
}

/// The unit that a `cgroup` file names: the last part of the path of the
/// unified hierarchy; nothing where the file has no line for it.
pub open spec fn cgroup_unit(cgroup: Seq<char>) -> Option<Seq<char>> {
    match unified_path(split_on(cgroup, '\n')) {
        Some(path) => Some(after_last(path, '/')),
        None => None,
    }
}

/// The unit that a `cgroup` file names.
pub fn unit_of_cgroup(cgroup: &str) -> (r: Option<String>)
    ensures
        optional_text(r) == cgroup_unit(cgroup@),
{
    let lines = split_at_char(cgroup, '\n');
    let prefix = chars_of(UNIFIED_PREFIX);
    let mut i: usize = 0;
    assert(lines.deep_view().skip(0) =~= lines.deep_view());
    while i < lines.len()
        invariant
            i <= lines.len(),
            prefix@ == UNIFIED_PREFIX@,
            lines.deep_view() == split_on(cgroup@, '\n'),
            unified_path(lines.deep_view()) == unified_path(lines.deep_view().skip(i as int)),
        decreases lines.len() - i,
    {
        let ghost rest = lines.deep_view().skip(i as int);
        assert(rest[0] == lines[i as int]@);
        assert(rest.drop_first() =~= lines.deep_view().skip(i + 1));
        let line = chars_of(lines[i].as_str());
        if has_at(&line, 0, &prefix) {
            let path = string_of(&line, prefix.len(), line.len());
            assert(path@ =~= line@.skip(prefix@.len() as int));
            let (_, unit) = split_after_last(path.as_str(), '/');
            return Some(unit);
        }
        i = i + 1;
    }
    None
}

/// The ending of the name of a scope.
pub const SCOPE_SUFFIX: &'static str = ".scope";

/// The ending of the name of a service.
pub const SERVICE_SUFFIX: &'static str = ".service";

/// The first part of the name of every unit that runs an application.
pub const APP_PART: &'static str = "app";

/// The part that names Flatpak as the launcher of an application.
pub const FLATPAK_PART: &'static str = "flatpak";

/// How a hyphen within a part of the name of a unit is written.
pub const ESCAPED_HYPHEN: &'static str = "\\x2d";

/// The parts of the name of a unit that runs an application, which hyphens
/// separate: of a scope `app[-launcher]-id-random.scope` all but the ending,
/// of a service `app[-launcher]-id[@random].service` all before the `@` or
/// the ending. Nothing for any other name.
pub open spec fn unit_parts(unit: Seq<char>) -> Option<Seq<Seq<char>>> {
    if ends_with(unit, SCOPE_SUFFIX@) {
        Some(split_on(unit.take(unit.len() - SCOPE_SUFFIX@.len()), '-'))
    } else if ends_with(unit, SERVICE_SUFFIX@) {
        let stem = unit.take(unit.len() - SERVICE_SUFFIX@.len());
        Some(split_on(stem.take(first_index_of(stem, '@')), '-'))
    } else {
        None
    }
}

/// A part of the name of a unit with its hyphens written out.
pub open spec fn unescaped(part: Seq<char>) -> Seq<char>
    decreases part.len(),
{
    if part.len() == 0 {
        part
    } else if starts_with(part, ESCAPED_HYPHEN@) && ESCAPED_HYPHEN@.len() > 0 {
        seq!['-'] + unescaped(part.skip(ESCAPED_HYPHEN@.len() as int))
    } else {
        seq![part[0]] + unescaped(part.skip(1))
    }
}

/// The id of the application that a unit runs: of a scope the part before
/// the last, of a service the last part, where the first part is `app` and
/// the id is not that first part.
pub open spec fn application_id(unit: Seq<char>) -> Option<Seq<char>> {
    match unit_parts(unit) {
        None => None,
        Some(parts) => {
            let at = if ends_with(unit, SCOPE_SUFFIX@) {
                parts.len() - 2
            } else {
                parts.len() - 1
            };
            if at >= 1 && parts[0] == APP_PART@ {
                Some(unescaped(parts[at]))
            } else {
                None
            }
        },
    }
}

/// The sandbox that a unit shows: Flatpak where the unit runs an
/// application and names Flatpak as its launcher, else none.
pub open spec fn unit_containerization(unit: Seq<char>) -> Containerization {
    match unit_parts(unit) {
        Some(parts) => if application_id(unit) is Some && parts.len() >= 3 && parts[1]
            == FLATPAK_PART@ {
            Containerization::Flatpak
        } else {
            Containerization::Uncontained
        },
        None => Containerization::Uncontained,
    }
}

/// A part of the name of a unit with its hyphens written out.
pub fn unescape(part: &str) -> (r: String)
    ensures
        r@ == unescaped(part@),
{
    let chars = chars_of(part);
    let escape = chars_of(ESCAPED_HYPHEN);
    let mut out = String::new();
    let mut i: usize = 0;
    assert(chars@.skip(0) =~= part@);
    assert(out@ + unescaped(part@) =~= unescaped(part@));
    while i < chars.len()
        invariant
            i <= chars@.len(),
            escape@ == ESCAPED_HYPHEN@,
            unescaped(part@) == out@ + unescaped(chars@.skip(i as int)),
        decreases chars@.len() - i,
    {
        let ghost rest = chars@.skip(i as int);
        let ghost before = out@;
        let found = has_at(&chars, i, &escape);
        proof {
            if i + escape@.len() <= chars@.len() {
                assert(rest.subrange(0, escape@.len() as int) =~= chars@.subrange(
                    i as int,
                    i + escape@.len(),
                ));
            }
        }
        if found && escape.len() > 0 {
            assert(starts_with(rest, ESCAPED_HYPHEN@));
            push_char(&mut out, '-');
            assert(rest.skip(escape@.len() as int) =~= chars@.skip(i + escape@.len()));
            assert(before.push('-') + unescaped(chars@.skip(i + escape@.len())) =~= before + (
            seq!['-'] + unescaped(chars@.skip(i + escape@.len()))));
            i = i + escape.len();
        } else {
            assert(!(starts_with(rest, ESCAPED_HYPHEN@) && ESCAPED_HYPHEN@.len() > 0));
            push_char(&mut out, chars[i]);
            assert(rest.skip(1) =~= chars@.skip(i + 1));
            assert(before.push(chars@[i as int]) + unescaped(chars@.skip(i + 1)) =~= before + (
            seq![rest[0]] + unescaped(chars@.skip(i + 1))));
            i = i + 1;
        }
    }
    assert(chars@.skip(i as int) =~= Seq::<char>::empty());
    assert(out@ + Seq::<char>::empty() =~= out@);
    out
}

/// The parts of the name of a unit, if it is a scope or a service.
fn parts_of_unit(unit: &str) -> (r: Option<Vec<String>>)
    ensures
        match r {
            Some(parts) => unit_parts(unit@) == Some(parts.deep_view()),
            None => unit_parts(unit@) is None,
        },
{
    let chars = chars_of(unit);
    if str_ends_with(unit, SCOPE_SUFFIX) {
        let suffix = chars_of(SCOPE_SUFFIX);
        let stem = string_of(&chars, 0, chars.len() - suffix.len());
        assert(stem@ =~= unit@.take(unit@.len() - SCOPE_SUFFIX@.len()));
        Some(split_at_char(stem.as_str(), '-'))
    } else if str_ends_with(unit, SERVICE_SUFFIX) {
        let suffix = chars_of(SERVICE_SUFFIX);
        let end = chars.len() - suffix.len();
        let ghost stem = unit@.take(unit@.len() - SERVICE_SUFFIX@.len());
        let mut at: usize = 0;
        while at < end && chars[at] != '@'
            invariant
                at <= end <= chars@.len(),
                forall|j: int| 0 <= j < at ==> chars@[j] != '@',
            decreases end - at,
        {
            at = at + 1;
        }
        proof {
            assert(stem =~= chars@.take(end as int));
            lemma_first_index_is(stem, '@', at as int);
        }
        let name = string_of(&chars, 0, at);
        assert(name@ =~= stem.take(first_index_of(stem, '@')));
        Some(split_at_char(name.as_str(), '-'))
    } else {
        None
    }
}

/// The id of the application that a unit runs, and the sandbox that the
/// unit shows.
pub fn application_of_unit(unit: &str) -> (r: (Option<String>, Containerization))
    ensures
        optional_text(r.0) == application_id(unit@),
        r.1 == unit_containerization(unit@),
{
    let parts = match parts_of_unit(unit) {
        Some(parts) => parts,
        None => {
            return (None, Containerization::Uncontained);
        },
    };
    let scope = str_ends_with(unit, SCOPE_SUFFIX);
    let back: usize = if scope {
        2
    } else {
        1
    };
    if parts.len() < back + 1 {
        return (None, Containerization::Uncontained);
    }
    let at = parts.len() - back;
    assert(parts.deep_view()[0] == parts[0]@);
    assert(parts.deep_view()[at as int] == parts[at as int]@);
    if !str_equal(parts[0].as_str(), APP_PART) {
        return (None, Containerization::Uncontained);
    }
    let id = unescape(parts[at].as_str());
    let flatpak = parts.len() >= 3 && {
        assert(parts.deep_view()[1] == parts[1]@);
        str_equal(parts[1].as_str(), FLATPAK_PART)
    };
    let sandbox = if flatpak {
        Containerization::Flatpak
    } else {
        Containerization::Uncontained
    };
    (Some(id), sandbox)
}

/// A time in milliseconds as a number of clock ticks, of which there are
/// `ticks_per_second` in a second, rounded down; `u64::MAX` where the number
/// is more than that.
pub open spec fn ticks_of(milliseconds: u64, ticks_per_second: u64) -> u64 {
    if milliseconds * ticks_per_second / 1000 > u64::MAX {
        u64::MAX
    } else {
        (milliseconds * ticks_per_second / 1000) as u64
    }
}

/// A time in milliseconds as a number of clock ticks, the unit of the
/// processor time.
pub fn timestamp_in_ticks(milliseconds: u64, ticks_per_second: u64) -> (r: u64)
    ensures
        r == ticks_of(milliseconds, ticks_per_second),
{
    assert(milliseconds * ticks_per_second <= u64::MAX * u64::MAX) by (nonlinear_arith)
        requires
            milliseconds <= u64::MAX,
            ticks_per_second <= u64::MAX,
    ;
    let ticks: u128 = (milliseconds as u128) * (ticks_per_second as u128) / 1000;
    if ticks > u64::MAX as u128 {
        u64::MAX
    } else {
        ticks as u64
    }
}

/// What was read of one process under `/proc`.
#[derive(Debug)]
pub struct RawProcess {
    /// The process id: the name of the directory.
    pub pid: i32,
    /// The user that owns the directory.
    pub uid: u32,
    /// The text of `stat`.
    pub stat: String,
    /// The text of `statm`.
    pub statm: String,
    /// The text of `comm`.
    pub comm: String,
    /// The text of `cmdline`.
    pub cmdline: String,
    /// The text of `cgroup`, where it could be read.
    pub cgroup: Option<String>,
    /// When `stat` was read.
    pub timestamp: u64,
}

/// What a `RawProcess` holds, with its texts as sequences of characters.
pub struct RawProcessView {
    pub pid: i32,
    pub uid: u32,
    pub stat: Seq<char>,
    pub statm: Seq<char>,
    pub comm: Seq<char>,
    pub cmdline: Seq<char>,
    pub cgroup: Option<Seq<char>>,
    pub timestamp: u64,
}

impl View for RawProcess {
    type V = RawProcessView;

    open spec fn view(&self) -> RawProcessView {
        RawProcessView {
            pid: self.pid,
            uid: self.uid,
            stat: self.stat@,
            statm: self.statm@,
            comm: self.comm@,
            cmdline: self.cmdline@,
            cgroup: optional_text(self.cgroup),
            timestamp: self.timestamp,
        }
    }
}

impl DeepView for RawProcess {
    type V = RawProcessView;

    open spec fn deep_view(&self) -> RawProcessView {
        self@
    }
}

/// The unit that the process runs in, where its `cgroup` file names one.
pub open spec fn raw_unit(raw: RawProcessView) -> Option<Seq<char>> {
    match raw.cgroup {
        Some(text) => cgroup_unit(text),
        None => None,
    }
}

/// The sample that the files of one process state; nothing where `stat` or
/// `statm` does not state what it should. The control group of the sample
/// is the id of the application that the unit of the process runs.
pub open spec fn sample_of(raw: RawProcessView, page_size: usize) -> Option<ProcessDataView> {
    match (stat_cpu_time(raw.stat), statm_memory(raw.statm, page_size)) {
        (Some(cpu_time), Some(memory_usage)) => Some(
            ProcessDataView {
                pid: raw.pid,
                commandline: raw.cmdline,
                comm: without_line_end(raw.comm),
                memory_usage,
                cpu_time,
                cpu_time_timestamp: raw.timestamp,
                cgroup: match raw_unit(raw) {
                    Some(unit) => application_id(unit),
                    None => None,
                },
                containerization: match raw_unit(raw) {
                    Some(unit) => unit_containerization(unit),
                    None => Containerization::Uncontained,
                },
                uid: raw.uid,
            },
        ),
        _ => None,
    }
}

/// The sample behind an optional value, by its view.
pub open spec fn sample_view(o: Option<ProcessData>) -> Option<ProcessDataView> {
    match o {
        Some(data) => Some(data@),
        None => None,
    }
}

impl ProcessData {
    /// The sample that the files of one process state.
    pub fn from_raw(raw: &RawProcess, page_size: usize) -> (r: Option<ProcessData>)
        ensures
            sample_view(r) == sample_of(raw@, page_size),
    {
        let cpu_time = cpu_time_of_stat(raw.stat.as_str());
        let memory = memory_of_statm(raw.statm.as_str(), page_size);
        let (cpu_time, memory_usage) = match (cpu_time, memory) {
            (Some(cpu_time), Some(memory_usage)) => (cpu_time, memory_usage),
            _ => {
                return None;
            },
        };
        let unit = match &raw.cgroup {
            Some(text) => unit_of_cgroup(text.as_str()),
            None => None,
        };
        let (cgroup, containerization) = match &unit {
            Some(unit) => application_of_unit(unit.as_str()),
            None => (None, Containerization::Uncontained),
        };
        Some(
            ProcessData {
                pid: raw.pid,
                commandline: raw.cmdline.clone(),
                comm: trim_line_end(raw.comm.as_str()),
                memory_usage,
                cpu_time,
                cpu_time_timestamp: raw.timestamp,
                cgroup,
                containerization,
                uid: raw.uid,
            },
        )
    }
}

/// The samples that a scan of `/proc` yields, in the order of the scan; a
/// process whose files state no sample is passed over.
pub open spec fn samples_of(scan: Seq<RawProcessView>, page_size: usize) -> Seq<ProcessDataView>
    decreases scan.len(),
{
    if scan.len() == 0 {
        Seq::empty()
    } else {
        match sample_of(scan.last(), page_size) {
            Some(sample) => samples_of(scan.drop_last(), page_size).push(sample),
            None => samples_of(scan.drop_last(), page_size),
        }
    }
}

/// The samples of a result, by their views.
pub open spec fn enumeration_view(r: Result<Vec<ProcessData>, EnumerationError>) -> Result<
    Seq<ProcessDataView>,
    EnumerationError,
> {
    match r {
        Ok(samples) => Ok(samples.deep_view()),
        Err(e) => Err(e),
    }
}

/// What an enumeration comes to, given the scan of `/proc` or the error
/// that kept it from being scanned.
pub open spec fn enumerated(
    scan: Result<Seq<RawProcessView>, EnumerationError>,
    page_size: usize,
) -> Result<Seq<ProcessDataView>, EnumerationError> {
    match scan {
        Ok(scan) => Ok(samples_of(scan, page_size)),
        Err(e) => Err(e),
    }
}

/// The scan of a result, by its views.
pub open spec fn scan_view(scan: Result<Vec<RawProcess>, EnumerationError>) -> Result<
    Seq<RawProcessView>,
    EnumerationError,
> {
    match scan {
        Ok(scan) => Ok(scan.deep_view()),
        Err(e) => Err(e),
    }
}

/// One sample for each process of a scan of `/proc` whose files state one;
/// the error of the scan where `/proc` could not be scanned. A process that
/// went away while it was read is passed over.
pub fn enumerate(scan: &Result<Vec<RawProcess>, EnumerationError>, page_size: usize) -> (r: Result<
    Vec<ProcessData>,
    EnumerationError,
>)
    ensures
        enumeration_view(r) == enumerated(scan_view(*scan), page_size),
{
    let scan = match scan {
        Ok(scan) => scan,
        Err(e) => {
            return Err(*e);
        },
    };
    let mut samples: Vec<ProcessData> = Vec::new();
    let mut i: usize = 0;
    assert(scan.deep_view().take(0) =~= Seq::<RawProcessView>::empty());
    assert(samples.deep_view() =~= Seq::<ProcessDataView>::empty());
    while i < scan.len()
        invariant
            i <= scan.len(),
            samples.deep_view() == samples_of(scan.deep_view().take(i as int), page_size),
        decreases scan.len() - i,
    {
        let ghost seen = scan.deep_view().take(i + 1);
        let ghost before = samples.deep_view();
        assert(seen.drop_last() =~= scan.deep_view().take(i as int));
        assert(seen.last() == scan[i as int]@);
        match ProcessData::from_raw(&scan[i], page_size) {
            Some(sample) => {
                samples.push(sample);
                assert(samples.deep_view() =~= before.push(sample@));
            },
            None => {},
        }
        i = i + 1;
    }
    assert(scan.deep_view().take(i as int) =~= scan.deep_view());
    Ok(samples)
}

} // verus!
