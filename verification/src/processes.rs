//! What a list of processes says: whose descendants run, and which browser profile they use.

use crate::text;
use vstd::prelude::*;

verus! {

/// A process: its number, its parent's, and the bytes of its command line.
#[derive(Debug)]
pub struct ProcessRecord {
    pub pid: u32,
    pub ppid: u32,
    pub command: Vec<u8>,
}

/// What a [`ProcessRecord`] holds.
pub struct ProcessV {
    pub pid: u32,
    pub ppid: u32,
    pub command: Seq<u8>,
}

impl View for ProcessRecord {
    type V = ProcessV;

    open spec fn view(&self) -> ProcessV {
        ProcessV { pid: self.pid, ppid: self.ppid, command: self.command@ }
    }
}

pub open spec fn records(v: Seq<ProcessRecord>) -> Seq<ProcessV> {
    Seq::new(v.len(), |i: int| v[i]@)
}

/// ASCII white space: a blank, a tab, a line feed, a form feed or a carriage return.
pub open spec fn white(b: u8) -> bool {
    b == 32 || b == 9 || b == 10 || b == 12 || b == 13
}

pub open spec fn digit(b: u8) -> bool {
    48 <= b <= 57
}

fn is_white(b: u8) -> (r: bool)
    ensures
        r == white(b),
{
    b == 32 || b == 9 || b == 10 || b == 12 || b == 13
}

/// The first place at or behind `i` where no white space stands.
pub open spec fn past_white(s: Seq<u8>, i: int) -> int
    decreases s.len() - i,
{
    if 0 <= i < s.len() && white(s[i]) {
        past_white(s, i + 1)
    } else {
        i
    }
}

/// The first place at or behind `i` where no digit stands.
pub open spec fn past_digits(s: Seq<u8>, i: int) -> int
    decreases s.len() - i,
{
    if 0 <= i < s.len() && digit(s[i]) {
        past_digits(s, i + 1)
    } else {
        i
    }
}

proof fn lemma_past(s: Seq<u8>, i: int)
    requires
        0 <= i <= s.len(),
    ensures
        i <= past_white(s, i) <= s.len(),
        i <= past_digits(s, i) <= s.len(),
        forall|k: int| i <= k < past_digits(s, i) ==> digit(#[trigger] s[k]),
    decreases s.len() - i,
{
    if i < s.len() {
        lemma_past(s, i + 1);
    }
}

fn skip_white(s: &[u8], i: usize) -> (r: usize)
    requires
        i <= s@.len(),
    ensures
        r == past_white(s@, i as int),
        i <= r <= s@.len(),
{
    let mut j: usize = i;
    while j < s.len() && is_white(s[j])
        invariant
            i <= j <= s@.len(),
            past_white(s@, i as int) == past_white(s@, j as int),
        decreases s@.len() - j,
    {
        j += 1;
    }
    j
}

fn skip_digits(s: &[u8], i: usize) -> (r: usize)
    requires
        i <= s@.len(),
    ensures
        r == past_digits(s@, i as int),
        i <= r <= s@.len(),
        forall|k: int| i <= k < r ==> digit(#[trigger] s@[k]),
{
    let mut j: usize = i;
    while j < s.len() && 48 <= s[j] && s[j] <= 57
        invariant
            i <= j <= s@.len(),
            past_digits(s@, i as int) == past_digits(s@, j as int),
            forall|k: int| i <= k < j ==> digit(#[trigger] s@[k]),
        decreases s@.len() - j,
    {
        j += 1;
    }
    j
}

/// The number that a row of digits spells.
pub open spec fn value(s: Seq<u8>) -> nat
    decreases s.len(),
{
    if s.len() == 0 {
        0
    } else {
        value(s.drop_last()) * 10 + (s.last() - 48) as nat
    }
}

/// The process number that a row of digits spells.
pub open spec fn number(s: Seq<u8>) -> Option<u32> {
    if s.len() > 0 && value(s) <= u32::MAX {
        Some(value(s) as u32)
    } else {
        None
    }
}

proof fn lemma_value_grows(s: Seq<u8>, i: int, j: int)
    requires
        0 <= i <= j <= s.len(),
    ensures
        value(s.take(i)) <= value(s.take(j)),
    decreases j - i,
{
    if i < j {
        assert(s.take(j).drop_last() =~= s.take(j - 1));
        lemma_value_grows(s, i, j - 1);
    }
}

fn read_number(s: &[u8], i: usize, j: usize) -> (r: Option<u32>)
    requires
        i <= j <= s@.len(),
        forall|k: int| i <= k < j ==> digit(#[trigger] s@[k]),
    ensures
        r == number(s@.subrange(i as int, j as int)),
{
    if i == j {
        return None;
    }
    let ghost part = s@.subrange(i as int, j as int);
    let mut n: u64 = 0;
    let mut k: usize = i;
    while k < j
        invariant
            i <= k <= j <= s@.len(),
            part == s@.subrange(i as int, j as int),
            part.len() > 0,
            forall|k: int| i <= k < j ==> digit(#[trigger] s@[k]),
            n == value(part.take(k - i)),
            n <= u32::MAX,
        decreases j - k,
    {
        assert(part.take(k - i + 1).drop_last() =~= part.take(k - i));
        assert(part.take(k - i + 1).last() == s@[k as int]);
        assert(digit(s@[k as int]));
        n = n * 10 + (s[k] - 48) as u64;
        k += 1;
        if n > 0xffff_ffff {
            proof {
                lemma_value_grows(part, k - i, j - i);
                assert(part.take(j - i) =~= part);
            }
            return None;
        }
    }
    assert(part.take(k - i) =~= part);
    Some(n as u32)
}

/// The process that a line tells of.
pub open spec fn record_of(line: Seq<u8>) -> Option<ProcessV> {
    let a = past_white(line, 0);
    let b = past_digits(line, a);
    let c = past_white(line, b);
    let d = past_digits(line, c);
    match (number(line.subrange(a, b)), number(line.subrange(c, d))) {
        (Some(pid), Some(ppid)) => Some(
            ProcessV {
                pid,
                ppid,
                command: line.subrange(past_white(line, d), line.len() as int),
            },
        ),
        _ => None,
    }
}

pub open spec fn blank(line: Seq<u8>) -> bool {
    past_white(line, 0) == line.len()
}

/// The lines of bytes: the pieces between the line feeds.
pub open spec fn lines(s: Seq<u8>) -> Seq<Seq<u8>>
    decreases s.len(),
{
    if s.len() == 0 {
        seq![Seq::<u8>::empty()]
    } else {
        let rest = lines(s.drop_last());
        if s.last() == 10 {
            rest.push(Seq::<u8>::empty())
        } else {
            rest.drop_last().push(rest.last().push(s.last()))
        }
    }
}

/// The processes that lines tell of, blank lines left out; nothing where a line tells of none.
pub open spec fn processes_in(v: Seq<Seq<u8>>) -> Option<Seq<ProcessV>>
    decreases v.len(),
{
    if v.len() == 0 {
        Some(Seq::empty())
    } else {
        match processes_in(v.drop_last()) {
            None => None,
            Some(rest) => if blank(v.last()) {
                Some(rest)
            } else {
                match record_of(v.last()) {
                    Some(p) => Some(rest.push(p)),
                    None => None,
                }
            },
        }
    }
}

/// The processes that a list tells of.
pub open spec fn listed(bytes: Seq<u8>) -> Option<Seq<ProcessV>> {
    processes_in(lines(bytes))
}

/// What rows of bytes hold.
pub open spec fn rows(v: Seq<Vec<u8>>) -> Seq<Seq<u8>> {
    Seq::new(v.len(), |i: int| v[i]@)
}

proof fn lemma_rows_push(v: Seq<Vec<u8>>, x: Vec<u8>)
    ensures
        rows(v.push(x)) == rows(v).push(x@),
{
    assert(rows(v.push(x)) =~= rows(v).push(x@));
}

fn split_lines(bytes: &[u8]) -> (r: Vec<Vec<u8>>)
    ensures
        rows(r@) == lines(bytes@),
{
    let mut done: Vec<Vec<u8>> = Vec::new();
    let mut line: Vec<u8> = Vec::new();
    let mut i: usize = 0;
    assert(rows(done@).push(line@) =~= seq![Seq::<u8>::empty()]);
    assert(bytes@.take(0) =~= Seq::empty());
    while i < bytes.len()
        invariant
            i <= bytes@.len(),
            lines(bytes@.take(i as int)) == rows(done@).push(line@),
        decreases bytes@.len() - i,
    {
        assert(bytes@.take(i + 1).drop_last() =~= bytes@.take(i as int));
        assert(bytes@.take(i + 1).last() == bytes@[i as int]);
        if bytes[i] == 10 {
            proof {
                lemma_rows_push(done@, line);
            }
            done.push(line);
            line = Vec::new();
            assert(line@ =~= Seq::<u8>::empty());
        } else {
            assert(rows(done@).push(line@).drop_last() =~= rows(done@));
            line.push(bytes[i]);
        }
        i += 1;
    }
    assert(bytes@.take(i as int) =~= bytes@);
    proof {
        lemma_rows_push(done@, line);
    }
    done.push(line);
    done
}

pub open spec fn record_view(o: Option<ProcessRecord>) -> Option<ProcessV> {
    match o {
        Some(p) => Some(p@),
        None => None,
    }
}

fn read_record(line: &[u8]) -> (r: Option<ProcessRecord>)
    ensures
        record_view(r) == record_of(line@),
{
    let a: usize = skip_white(line, 0);
    let b: usize = skip_digits(line, a);
    let c: usize = skip_white(line, b);
    let d: usize = skip_digits(line, c);
    let start: usize = skip_white(line, d);
    match (read_number(line, a, b), read_number(line, c, d)) {
        (Some(pid), Some(ppid)) => {
            let mut command: Vec<u8> = Vec::new();
            let mut i: usize = start;
            while i < line.len()
                invariant
                    start <= i <= line@.len(),
                    command@ == line@.subrange(start as int, i as int),
                decreases line@.len() - i,
            {
                command.push(line[i]);
                i += 1;
            }
            Some(ProcessRecord { pid, ppid, command })
        },
        _ => None,
    }
}

pub open spec fn records_view(o: Option<Vec<ProcessRecord>>) -> Option<Seq<ProcessV>> {
    match o {
        Some(v) => Some(records(v@)),
        None => None,
    }
}

proof fn lemma_processes_stop(v: Seq<Seq<u8>>, n: int)
    requires
        0 <= n <= v.len(),
        processes_in(v.take(n)) is None,
    ensures
        processes_in(v) is None,
    decreases v.len() - n,
{
    if n < v.len() {
        assert(v.take(n + 1).drop_last() =~= v.take(n));
        lemma_processes_stop(v, n + 1);
    } else {
        assert(v.take(n) =~= v);
    }
}

/// The processes that a list tells of: a number, the parent's number and a command on each
/// line.
pub fn process_list(bytes: &[u8]) -> (r: Option<Vec<ProcessRecord>>)
    ensures
        records_view(r) == listed(bytes@),
{
    let split: Vec<Vec<u8>> = split_lines(bytes);
    let ghost all = rows(split@);
    let mut out: Vec<ProcessRecord> = Vec::new();
    let mut i: usize = 0;
    assert(records(out@) =~= Seq::empty());
    while i < split.len()
        invariant
            i <= split@.len(),
            all == rows(split@),
            all == lines(bytes@),
            processes_in(all.take(i as int)) == Some(records(out@)),
        decreases split@.len() - i,
    {
        assert(all.take(i + 1).drop_last() =~= all.take(i as int));
        assert(all.take(i + 1).last() == split@[i as int]@);
        let line: &[u8] = split[i].as_slice();
        if skip_white(line, 0) < line.len() {
            match read_record(line) {
                Some(p) => {
                    assert(records(out@.push(p)) =~= records(out@).push(p@));
                    out.push(p);
                },
                None => {
                    proof {
                        lemma_processes_stop(all, i + 1);
                    }
                    return None;
                },
            }
        }
        i += 1;
    }
    assert(all.take(i as int) =~= all);
    Some(out)
}

/// The parent of a process: that of the first one with its number.
pub open spec fn parent(v: Seq<ProcessV>, pid: u32) -> Option<u32>
    decreases v.len(),
{
    if v.len() == 0 {
        None
    } else if v[0].pid == pid {
        Some(v[0].ppid)
    } else {
        parent(v.subrange(1, v.len() as int), pid)
    }
}

fn find_parent(v: &Vec<ProcessRecord>, pid: u32) -> (r: Option<u32>)
    ensures
        r == parent(records(v@), pid),
{
    let ghost all = records(v@);
    let mut i: usize = 0;
    assert(all.subrange(0, all.len() as int) =~= all);
    while i < v.len()
        invariant
            i <= v@.len(),
            all == records(v@),
            parent(all, pid) == parent(all.subrange(i as int, all.len() as int), pid),
        decreases v@.len() - i,
    {
        let ghost rest = all.subrange(i as int, all.len() as int);
        assert(rest[0] == v@[i as int]@);
        assert(rest.subrange(1, rest.len() as int) =~= all.subrange(i + 1, all.len() as int));
        if v[i].pid == pid {
            return Some(v[i].ppid);
        }
        i += 1;
    }
    None
}

/// Whether a process descends from another, at most so many generations down.
pub open spec fn descends(v: Seq<ProcessV>, pid: u32, ancestor: u32, generations: nat) -> bool
    decreases generations,
{
    if generations == 0 {
        false
    } else {
        match parent(v, pid) {
            None => false,
            Some(ppid) => if ppid == ancestor {
                true
            } else if ppid <= 1 || ppid == pid {
                false
            } else {
                descends(v, ppid, ancestor, (generations - 1) as nat)
            },
        }
    }
}

pub open spec fn is_below(v: Seq<ProcessV>, pid: u32, ancestor: u32) -> bool {
    descends(v, pid, ancestor, 64)
}

/// Whether a process descends from another.
pub fn is_descendant(pid: u32, ancestor: u32, processes: &Vec<ProcessRecord>) -> (r: bool)
    ensures
        r == is_below(records(processes@), pid, ancestor),
{
    let ghost all = records(processes@);
    let mut current: u32 = pid;
    let mut left: u32 = 64;
    while left > 0
        invariant
            all == records(processes@),
            is_below(all, pid, ancestor) == descends(all, current, ancestor, left as nat),
        decreases left,
    {
        match find_parent(processes, current) {
            None => {
                return false;
            },
            Some(ppid) => {
                if ppid == ancestor {
                    return true;
                }
                if ppid <= 1 || ppid == current {
                    return false;
                }
                current = ppid;
            },
        }
        left -= 1;
    }
    false
}

/// A direct child descends from its parent.
pub proof fn children_are_descendants(v: Seq<ProcessV>, pid: u32, ancestor: u32)
    requires
        parent(v, pid) == Some(ancestor),
    ensures
        is_below(v, pid, ancestor),
{
}

pub open spec fn at(line: Seq<u8>, part: Seq<u8>, i: int) -> bool {
    &&& 0 <= i <= line.len() - part.len()
    &&& line.subrange(i, i + part.len()) == part
    &&& i == 0 || white(line[i - 1])
}

/// Whether a part stands in a line behind white space or at its start.
pub open spec fn starts_argument(line: Seq<u8>, part: Seq<u8>) -> bool {
    exists|i: int| at(line, part, i)
}

/// Whether a part stands in a line between white space or its ends.
pub open spec fn is_argument(line: Seq<u8>, part: Seq<u8>) -> bool {
    exists|i: int|
        #[trigger] at(line, part, i) && (i + part.len() == line.len() || white(
            line[i + part.len()],
        ))
}

fn stands_at(line: &[u8], part: &[u8], i: usize) -> (r: bool)
    requires
        i + part@.len() <= line@.len(),
    ensures
        r == at(line@, part@, i as int),
{
    if i > 0 && !is_white(line[i - 1]) {
        return false;
    }
    let size: usize = line.len();
    let mut k: usize = 0;
    while k < part.len()
        invariant
            k <= part@.len(),
            size == line@.len(),
            i + part@.len() <= line@.len(),
            forall|j: int| 0 <= j < k ==> line@[i + j] == #[trigger] part@[j],
        decreases part@.len() - k,
    {
        if line[i + k] != part[k] {
            assert(line@.subrange(i as int, i + part@.len())[k as int] != part@[k as int]);
            return false;
        }
        k += 1;
    }
    assert(line@.subrange(i as int, i + part@.len()) =~= part@);
    true
}

fn find_start(line: &[u8], part: &[u8]) -> (r: bool)
    ensures
        r == starts_argument(line@, part@),
{
    if part.len() > line.len() {
        return false;
    }
    let last: usize = line.len() - part.len();
    let mut i: usize = 0;
    while i <= last
        invariant
            i <= last + 1,
            last == line@.len() - part@.len(),
            forall|k: int| 0 <= k < i ==> !at(line@, part@, k),
        decreases last + 1 - i,
    {
        if stands_at(line, part, i) {
            return true;
        }
        if i == last {
            assert(forall|k: int| at(line@, part@, k) ==> k <= last);
            return false;
        }
        i += 1;
    }
    false
}

/// Whether a part stands in a line between white space or its ends.
pub fn contains_complete_argument(line: &[u8], part: &[u8]) -> (r: bool)
    ensures
        r == is_argument(line@, part@),
{
    if part.len() > line.len() {
        return false;
    }
    let size: usize = line.len();
    let last: usize = size - part.len();
    let mut i: usize = 0;
    while i <= last
        invariant
            i <= last + 1,
            size == line@.len(),
            last == size - part@.len(),
            forall|k: int|
                0 <= k < i ==> !(#[trigger] at(line@, part@, k) && (k + part@.len() == line@.len()
                    || white(line@[k + part@.len()]))),
        decreases last + 1 - i,
    {
        if stands_at(line, part, i) && (i == last || is_white(line[i + part.len()])) {
            return true;
        }
        if i == last {
            assert(forall|k: int| at(line@, part@, k) ==> k <= last);
            return false;
        }
        i += 1;
    }
    false
}

/// `--user-data-dir`
pub open spec fn profile_flag() -> Seq<u8> {
    seq![45u8, 45, 117, 115, 101, 114, 45, 100, 97, 116, 97, 45, 100, 105, 114]
}

fn flag() -> (r: Vec<u8>)
    ensures
        r@ == profile_flag(),
{
    vec![45, 45, 117, 115, 101, 114, 45, 100, 97, 116, 97, 45, 100, 105, 114]
}

/// Whether a command line names exactly this profile.
pub open spec fn names_profile(command: Seq<u8>, profile: Seq<u8>) -> bool {
    ||| is_argument(command, profile_flag().push(61) + profile)
    ||| is_argument(command, profile_flag().push(32) + profile)
}

/// Whether a command line names a profile at all.
pub open spec fn names_any_profile(command: Seq<u8>) -> bool {
    ||| starts_argument(command, profile_flag().push(61))
    ||| starts_argument(command, profile_flag().push(32))
}

fn has_profile(command: &[u8], profile: &[u8]) -> (r: bool)
    ensures
        r == names_profile(command@, profile@),
{
    let mut equals: Vec<u8> = flag();
    equals.push(61);
    equals.extend_from_slice(profile);
    assert(equals@ =~= profile_flag().push(61) + profile@);
    let mut separated: Vec<u8> = flag();
    separated.push(32);
    separated.extend_from_slice(profile);
    assert(separated@ =~= profile_flag().push(32) + profile@);
    contains_complete_argument(command, equals.as_slice()) || contains_complete_argument(
        command,
        separated.as_slice(),
    )
}

fn has_any_profile(command: &[u8]) -> (r: bool)
    ensures
        r == names_any_profile(command@),
{
    let mut equals: Vec<u8> = flag();
    equals.push(61);
    let mut separated: Vec<u8> = flag();
    separated.push(32);
    find_start(command, equals.as_slice()) || find_start(command, separated.as_slice())
}

/// Whether a path holds no line break, so that it stands on one line of a list.
pub open spec fn one_line(profile: Seq<u8>) -> bool {
    forall|i: int| 0 <= i < profile.len() ==> #[trigger] profile[i] != 13 && profile[i] != 10
}

pub fn is_one_line(profile: &[u8]) -> (r: bool)
    ensures
        r == one_line(profile@),
{
    let mut i: usize = 0;
    while i < profile.len()
        invariant
            i <= profile@.len(),
            forall|k: int| 0 <= k < i ==> #[trigger] profile@[k] != 13 && profile@[k] != 10,
        decreases profile@.len() - i,
    {
        if profile[i] == 13 || profile[i] == 10 {
            assert(profile@[i as int] == 13 || profile@[i as int] == 10);
            return false;
        }
        i += 1;
    }
    true
}

pub open spec fn some_line_names(v: Seq<Seq<u8>>, profile: Seq<u8>) -> bool {
    exists|i: int| 0 <= i < v.len() && names_profile(#[trigger] v[i], profile)
}

/// Whether a command line in a list names this profile. Nothing where the profile cannot be
/// looked for.
pub fn list_has_profile(bytes: &[u8], profile: &[u8]) -> (r: Option<bool>)
    ensures
        r == if one_line(profile@) {
            Some(some_line_names(lines(bytes@), profile@))
        } else {
            None
        },
{
    if !is_one_line(profile) {
        return None;
    }
    let split: Vec<Vec<u8>> = split_lines(bytes);
    let ghost all = rows(split@);
    let mut i: usize = 0;
    while i < split.len()
        invariant
            i <= split@.len(),
            all == rows(split@),
            all == lines(bytes@),
            one_line(profile@),
            forall|k: int| 0 <= k < i ==> !names_profile(#[trigger] all[k], profile@),
        decreases split@.len() - i,
    {
        if has_profile(split[i].as_slice(), profile) {
            assert(names_profile(all[i as int], profile@));
            return Some(true);
        }
        i += 1;
    }
    Some(false)
}

/// Whether the browser that a daemon started uses this profile and no other; where it started
/// none, whether it has no pages and no profile is in use below it.
pub open spec fn owns(
    v: Seq<ProcessV>,
    daemon: u32,
    profile: Seq<u8>,
    launched: bool,
    pages: u64,
) -> bool {
    if launched {
        &&& exists|i: int|
            0 <= i < v.len() && is_below(v, v[i].pid, daemon) && names_profile(
                (#[trigger] v[i]).command,
                profile,
            )
        &&& forall|i: int|
            0 <= i < v.len() && is_below(v, v[i].pid, daemon) && names_any_profile(
                (#[trigger] v[i]).command,
            ) ==> names_profile(v[i].command, profile)
    } else {
        &&& pages == 0
        &&& forall|i: int|
            0 <= i < v.len() && is_below(v, v[i].pid, daemon) ==> !names_any_profile(
                (#[trigger] v[i]).command,
            )
    }
}

/// Whether a daemon owns a profile, by a list of processes.
pub fn daemon_owns_profile(
    bytes: &[u8],
    daemon: u32,
    profile: &[u8],
    launched: bool,
    pages: u64,
) -> (r: bool)
    ensures
        r == (one_line(profile@) && match listed(bytes@) {
            Some(v) => owns(v, daemon, profile@, launched, pages),
            None => false,
        }),
{
    if !is_one_line(profile) {
        return false;
    }
    let processes: Vec<ProcessRecord> = match process_list(bytes) {
        Some(v) => v,
        None => {
            return false;
        },
    };
    let ghost all = records(processes@);
    let mut exact: bool = false;
    let mut foreign: bool = false;
    let mut bearing: bool = false;
    let mut i: usize = 0;
    while i < processes.len()
        invariant
            i <= processes@.len(),
            all == records(processes@),
            exact == exists|k: int|
                0 <= k < i && is_below(all, all[k].pid, daemon) && names_profile(
                    (#[trigger] all[k]).command,
                    profile@,
                ),
            foreign == exists|k: int|
                0 <= k < i && is_below(all, all[k].pid, daemon) && names_any_profile(
                    (#[trigger] all[k]).command,
                ) && !names_profile(all[k].command, profile@),
            bearing == exists|k: int|
                0 <= k < i && is_below(all, all[k].pid, daemon) && names_any_profile(
                    (#[trigger] all[k]).command,
                ),
        decreases processes@.len() - i,
    {
        assert(all[i as int] == processes@[i as int]@);
        if is_descendant(processes[i].pid, daemon, &processes) {
            let here: bool = has_profile(processes[i].command.as_slice(), profile);
            let any: bool = has_any_profile(processes[i].command.as_slice());
            let ghost k0 = i as int;
            if here {
                assert(names_profile(all[k0].command, profile@));
                exact = true;
            }
            if any {
                assert(names_any_profile(all[k0].command));
                bearing = true;
                if !here {
                    foreign = true;
                }
            }
        }
        i += 1;
    }
    if launched {
        exact && !foreign
    } else {
        pages == 0 && !bearing
    }
}

/// Whether nothing below a daemon names a profile, by a list of processes.
pub open spec fn bare(v: Seq<ProcessV>, daemon: u32) -> bool {
    forall|i: int|
        0 <= i < v.len() && is_below(v, v[i].pid, daemon) ==> !starts_argument(
            (#[trigger] v[i]).command,
            profile_flag(),
        )
}

pub fn daemon_has_no_profile_descendants(bytes: &[u8], daemon: u32) -> (r: bool)
    ensures
        r == match listed(bytes@) {
            Some(v) => bare(v, daemon),
            None => false,
        },
{
    let processes: Vec<ProcessRecord> = match process_list(bytes) {
        Some(v) => v,
        None => {
            return false;
        },
    };
    let ghost all = records(processes@);
    let part: Vec<u8> = flag();
    let mut i: usize = 0;
    while i < processes.len()
        invariant
            i <= processes@.len(),
            all == records(processes@),
            listed(bytes@) == Some(all),
            part@ == profile_flag(),
            forall|k: int|
                0 <= k < i && is_below(all, all[k].pid, daemon) ==> !starts_argument(
                    (#[trigger] all[k]).command,
                    profile_flag(),
                ),
        decreases processes@.len() - i,
    {
        assert(all[i as int] == processes@[i as int]@);
        if is_descendant(processes[i].pid, daemon, &processes) && find_start(
            processes[i].command.as_slice(),
            part.as_slice(),
        ) {
            assert(starts_argument(all[i as int].command, profile_flag()));
            return false;
        }
        i += 1;
    }
    true
}

/// A daemon that owns a profile uses no other one.
pub proof fn owned_profiles_are_the_only_ones(
    v: Seq<ProcessV>,
    daemon: u32,
    profile: Seq<u8>,
    launched: bool,
    pages: u64,
    i: int,
)
    requires
        owns(v, daemon, profile, launched, pages),
        0 <= i < v.len(),
        is_below(v, v[i].pid, daemon),
        names_any_profile(v[i].command),
    ensures
        launched,
        names_profile(v[i].command, profile),
{
    assert(names_any_profile(v[i].command));
}

/// Whether the other end of a socket is a daemon: a process of this user and, where the system
/// tells its number, that of the daemon.
pub fn is_daemon_peer(uid: u32, pid: Option<u32>, user: u32, daemon: u32) -> (r: bool)
    ensures
        r == (uid == user && (pid matches Some(n) ==> n > 1 && n == daemon)),
{
    let same: bool = match pid {
        Some(n) => n > 1 && n == daemon,
        None => true,
    };
    uid == user && same
}

/// The process number that the text of a file spells: a number above 1.
pub open spec fn pid_in(s: Seq<char>) -> Option<u32> {
    match text::parsed_u64(text::trimmed(s)) {
        Some(n) => if 1 < n <= u32::MAX {
            Some(n as u32)
        } else {
            None
        },
        None => None,
    }
}

pub fn read_pid(s: &str) -> (r: Option<u32>)
    ensures
        r == pid_in(s@),
{
    let bare: String = text::trim(s);
    match text::parse_u64(bare.as_str()) {
        Some(n) => if 1 < n && n <= 0xffff_ffff {
            Some(n as u32)
        } else {
            None
        },
        None => None,
    }
}

} // verus!
