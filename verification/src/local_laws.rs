//! What holds of texts, files, processes and stored states.

use crate::broker::{self, Mode};
use crate::browser::{self, OwnershipMarkerV, RecoveryStep};
use crate::files::{self, FileFacts};
use crate::image_hosts::{self, HostAddress};
use crate::json::JsonV;
use crate::ledger::StoredRefV;
use crate::processes;
use crate::refinements::{self, AskedV};
use crate::text;
use vstd::prelude::*;

verus! {

proof fn lemma_trim_start(s: Seq<char>)
    ensures
        ({
            let t = text::trim_start(s);
            &&& t.len() <= s.len()
            &&& t == s.skip(s.len() - t.len())
            &&& t.len() > 0 ==> !text::is_white(t[0])
            &&& forall|i: int| 0 <= i < s.len() - t.len() ==> text::is_white(#[trigger] s[i])
        }),
    decreases s.len(),
{
    if s.len() > 0 && text::is_white(s[0]) {
        let rest = s.subrange(1, s.len() as int);
        lemma_trim_start(rest);
        let t = text::trim_start(rest);
        assert(rest.skip(rest.len() - t.len()) =~= s.skip(s.len() - t.len()));
        assert forall|i: int| 0 <= i < s.len() - t.len() implies text::is_white(#[trigger] s[i]) by {
            if i > 0 {
                assert(rest[i - 1] == s[i]);
            }
        }
    } else {
        assert(s.skip(0) =~= s);
    }
}

proof fn lemma_trim_end(s: Seq<char>)
    ensures
        ({
            let t = text::trim_end(s);
            &&& t.len() <= s.len()
            &&& t == s.take(t.len() as int)
            &&& t.len() > 0 ==> !text::is_white(t.last())
            &&& forall|i: int| t.len() <= i < s.len() ==> text::is_white(#[trigger] s[i])
        }),
    decreases s.len(),
{
    if s.len() > 0 && text::is_white(s.last()) {
        let rest = s.drop_last();
        lemma_trim_end(rest);
        let t = text::trim_end(rest);
        assert(rest.take(t.len() as int) =~= s.take(t.len() as int));
        assert forall|i: int| t.len() <= i < s.len() implies text::is_white(#[trigger] s[i]) by {
            if i < rest.len() {
                assert(rest[i] == s[i]);
            }
        }
    } else {
        assert(s.take(s.len() as int) =~= s);
    }
}

/// Trimming takes nothing but white space away, and all of it at both ends.
pub proof fn trimming_takes_white_space_alone(s: Seq<char>)
    ensures
        exists|start: int|
            0 <= start && start + text::trimmed(s).len() <= s.len() && (#[trigger] s.subrange(
                start,
                start + text::trimmed(s).len(),
            )) == text::trimmed(s) && (forall|i: int|
                0 <= i < s.len() && (i < start || i >= start + text::trimmed(s).len())
                    ==> text::is_white(#[trigger] s[i])),
        text::trimmed(s).len() > 0 ==> !text::is_white(text::trimmed(s)[0]) && !text::is_white(
            text::trimmed(s).last(),
        ),
{
    let a = text::trim_start(s);
    let t = text::trimmed(s);
    lemma_trim_start(s);
    lemma_trim_end(a);
    let start = s.len() - a.len();
    assert(s.subrange(start, start + t.len()) =~= t);
    assert forall|i: int| 0 <= i < s.len() && (i < start || i >= start + t.len()) implies text::is_white(
        #[trigger] s[i],
    ) by {
        if i >= start {
            assert(a[i - start] == s[i]);
        }
    }
}

/// The decimal spelling of a number is read back as the number.
pub proof fn decimals_are_read_back(n: nat)
    ensures
        text::all_digits(text::decimal(n)),
        text::decimal(n).len() > 0,
        text::digits_value(text::decimal(n)) == n,
    decreases n,
{
    let s = text::decimal(n);
    if n < 10 {
        assert(s.drop_last() =~= Seq::<char>::empty());
        assert(text::digits_value(s.drop_last()) == 0);
    } else {
        decimals_are_read_back(n / 10);
        assert(s.drop_last() =~= text::decimal(n / 10));
        assert forall|i: int| 0 <= i < s.len() implies text::is_digit(#[trigger] s[i]) by {
            if i < s.len() - 1 {
                assert(s[i] == text::decimal(n / 10)[i]);
            }
        }
    }
}

/// A profile directory is taken exactly where it is a real directory of the user, open to nobody
/// else.
pub proof fn profile_directories_are_private(f: FileFacts, user: u32)
    ensures
        files::browser_directory_problem(f, user) is None <==> !f.symlink && f.directory && f.uid
            == user && f.mode as int % 512 == 0o700,
        files::browser_parent_problem(f, user) is None <==> !f.symlink && f.directory && f.uid
            == user && !f.shared(),
{
}

/// A file or directory of the server belongs to its owner and is no link.
pub proof fn server_files_belong_to_their_owner(f: FileFacts, owner: u32, label: Seq<char>)
    ensures
        files::existing_problem(f, owner, label) is None <==> !f.symlink && f.uid == owner,
        files::ancestor_problem(f, owner) is None <==> !f.symlink && f.directory && f.uid == owner,
        files::created_problem(f, owner) is None <==> !f.symlink && f.directory && f.uid == owner,
        files::socket_path_problem(f, owner) is None <==> !f.symlink && f.socket && f.uid == owner,
        files::component_problem(f, true, label) is None <==> !f.symlink,
        files::component_problem(f, false, label) is None <==> !f.symlink || f.uid == 0,
{
}

/// A file that was opened is the one at its path, belongs to the user and is open to nobody else.
pub proof fn opened_files_are_private(opened: FileFacts, path: FileFacts, user: u32)
    ensures
        files::is_private_file(opened, path, user) <==> opened.uid == user && opened.device
            == path.device && opened.inode == path.inode && opened.mode as int % 512 == 0o600,
        files::leased(opened, path, user) <==> opened.device == path.device && opened.inode
            == path.inode && path.uid == user && path.mode as int % 512 == 0o700,
{
}

/// The server is started in one of four ways, and with any other arguments not at all.
pub proof fn modes_are_named_alone(name: Seq<char>, other: Seq<char>)
    ensures
        broker::mode_of(Seq::empty()) == Some(Mode::Frontend),
        broker::mode_of(seq![name]) == Some(Mode::Version) <==> name == "--version"@,
        broker::mode_of(seq![name]) == Some(Mode::Help) <==> name == "--help"@,
        broker::mode_of(seq![name]) == Some(Mode::Broker) <==> name == "--broker"@,
        broker::mode_of(seq![name]) != Some(Mode::Frontend),
        broker::mode_of(seq![name, other]) is None,
{
    reveal_strlit("--version");
    reveal_strlit("--help");
    reveal_strlit("--broker");
    assert("--version"@.len() == 9 && "--help"@.len() == 6 && "--broker"@.len() == 8);
    assert(seq![name][0] == name);
}

/// The four parts of an address are read back from its bits, in order.
#[verifier::spinoff_prover]
pub proof fn octets_are_read_back(a: u8, b: u8, c: u8, d: u8)
    ensures
        ({
            let bits = image_hosts::from_octets(a, b, c, d) as u32;
            &&& image_hosts::octet(bits, 0) == a
            &&& image_hosts::octet(bits, 1) == b
            &&& image_hosts::octet(bits, 2) == c
            &&& image_hosts::octet(bits, 3) == d
        }),
{
    let n = image_hosts::from_octets(a, b, c, d);
    let (x, y) = (a * 0x100 + b, c * 0x100 + d);
    assert(0 <= x < 0x1_0000 && 0 <= y < 0x1_0000);
    assert(n == x * 0x1_0000 + y);
    assert(0 <= n <= u32::MAX);
    assert(n / 0x1_0000 == x);
    assert(x % 0x100 == b);
    assert(n / 0x100_0000 == a);
    assert(n % 0x1_0000 == y);
    assert(n / 0x100 == x * 0x100 + c);
    assert((x * 0x100 + c) % 0x100 == c);
    assert(n % 0x100 == d);
}

/// Every address is kept once, in the order in which it comes first.
pub proof fn addresses_are_kept_once(v: Seq<HostAddress>, x: HostAddress)
    ensures
        image_hosts::once_each(v).no_duplicates(),
        image_hosts::once_each(v).contains(x) <==> v.contains(x),
    decreases v.len(),
{
    if v.len() > 0 {
        let rest = v.drop_last();
        addresses_are_kept_once(rest, x);
        addresses_are_kept_once(rest, v.last());
        let before = image_hosts::once_each(rest);
        let all = image_hosts::once_each(v);
        assert(v.contains(x) <==> rest.contains(x) || x == v.last()) by {
            if v.contains(x) {
                let i = choose|i: int| 0 <= i < v.len() && v[i] == x;
                if i < rest.len() {
                    assert(rest[i] == x);
                }
            }
            if rest.contains(x) {
                let i = choose|i: int| 0 <= i < rest.len() && rest[i] == x;
                assert(v[i] == x);
            }
            assert(v[v.len() - 1] == v.last());
        }
        if !before.contains(v.last()) {
            assert(all[before.len() as int] == v.last());
            if before.contains(x) {
                let i = choose|i: int| 0 <= i < before.len() && before[i] == x;
                assert(all[i] == x);
            }
            if all.contains(x) {
                let i = choose|i: int| 0 <= i < all.len() && all[i] == x;
                if i < before.len() {
                    assert(before[i] == x);
                }
            }
        }
    }
}

/// A recovery waits for the daemon that was closing, closes what was recorded where it is still
/// there, and closes the browser only where that fails or nothing was recorded.
pub proof fn recoveries_go_from_the_daemon_to_the_browser(m: OwnershipMarkerV, daemon: u32)
    ensures
        browser::recovery_start(None) is Err,
        m.closing_daemon_pid matches Some(pid) ==> browser::recovery_start(Some(m)) == Ok::<
            _,
            crate::failure::FailureV,
        >(RecoveryStep::ConfirmAbsent { daemon: pid }),
        m.closing_daemon_pid is None ==> browser::recovery_start(Some(m)) == Ok::<
            _,
            crate::failure::FailureV,
        >(RecoveryStep::CloseBrowser),
        browser::recovery_next(RecoveryStep::ConfirmAbsent { daemon }, true)
            == RecoveryStep::Recovered,
        browser::recovery_next(RecoveryStep::ConfirmAbsent { daemon }, false)
            == (RecoveryStep::CloseRecorded { daemon }),
        browser::recovery_next(RecoveryStep::CloseRecorded { daemon }, true)
            == RecoveryStep::Recovered,
        browser::recovery_next(RecoveryStep::CloseRecorded { daemon }, false)
            == RecoveryStep::CloseBrowser,
{
}

/// A cursor of refinements serves the context, the research, the view, the repeat mode and the
/// limit that it was made for. What a call leaves open is not held against it.
pub proof fn refinement_cursors_serve_their_call(stored: StoredRefV, q: AskedV)
    ensures
        refinements::binding_problem(stored, q) is None <==> {
            &&& stored.context_id == q.context_id
            &&& q.research is None || q.research == Some(stored.research_id)
            &&& q.view matches Some(v) ==> stored.value.field("view"@) == JsonV::Text(v)
            &&& q.repeat_mode matches Some(m) ==> stored.value.field("repeatMode"@) == JsonV::Text(
                m,
            )
            &&& q.limit matches Some(n) ==> stored.value.field("limit"@).as_unsigned() == Some(
                n as u64,
            )
        },
{
}

/// A record of a process tells first the process and then its parent.
pub proof fn records_tell_the_process_first(line: Seq<u8>, pid: Seq<u8>, ppid: Seq<u8>)
    requires
        pid.len() > 0,
        ppid.len() > 0,
        forall|i: int| 0 <= i < pid.len() ==> processes::digit(#[trigger] pid[i]),
        forall|i: int| 0 <= i < ppid.len() ==> processes::digit(#[trigger] ppid[i]),
        line == pid.push(32u8) + ppid,
    ensures
        processes::record_of(line) matches Some(p) ==> processes::number(pid) == Some(p.pid)
            && processes::number(ppid) == Some(p.ppid) && p.command.len() == 0,
        processes::number(pid) is Some && processes::number(ppid) is Some
            ==> processes::record_of(line) is Some,
{
    assert(line[0] == pid[0]);
    assert(processes::digit(pid[0]));
    assert(processes::past_white(line, 0) == 0);
    lemma_past_digits(line, 0, pid.len() as int);
    let b = pid.len() as int;
    assert(line[b] == 32u8);
    assert(line[b + 1] == ppid[0]);
    assert(processes::digit(ppid[0]));
    assert(processes::past_white(line, b + 1) == b + 1);
    assert(processes::past_white(line, b) == b + 1);
    assert forall|i: int| b + 1 <= i < line.len() implies processes::digit(#[trigger] line[i]) by {
        assert(line[i] == ppid[i - b - 1]);
    }
    lemma_past_digits(line, b + 1, line.len() as int);
    assert(line.subrange(0, b) =~= pid);
    assert(line.subrange(b + 1, line.len() as int) =~= ppid);
    assert(processes::past_white(line, line.len() as int) == line.len());
}

proof fn lemma_past_digits(s: Seq<u8>, i: int, end: int)
    requires
        0 <= i <= end <= s.len(),
        forall|k: int| i <= k < end ==> processes::digit(#[trigger] s[k]),
        end < s.len() ==> !processes::digit(s[end]),
    ensures
        processes::past_digits(s, i) == end,
    decreases end - i,
{
    if i < end {
        assert(processes::digit(s[i]));
        lemma_past_digits(s, i + 1, end);
    }
}

} // verus!
