//! Decision logic of the process monitor.
//!
//! The monitor's blocking work — spawning a shell, sleeping, polling a
//! file, querying sockets — happens outside this crate.  What is here is
//! everything the protocol decides from the values that work produces:
//! building the capture wrapper command, parsing the captured pid,
//! parsing the output of a socket listing, and the verdict on which pid a
//! freshly started service actually runs under.
//!
//! The capture protocol: the start command is wrapped so the shell writes
//! the backgrounded command's pid to a private file; the file is polled
//! for a bounded window and its contents parsed (anything malformed
//! counts as no capture); after a settling delay the captured pid is
//! checked against the live process table; if that fails and a port is
//! known, the process listening on the port is taken instead; and only
//! when neither path yields a running process does the start fail.

use vstd::prelude::*;

use crate::errors::UsmError;
use crate::text;

verus! {

/// How long the shell is given to write the pid file, in milliseconds.
pub const PID_FILE_WAIT_MS: u64 = 200;

/// How long a started service is given to stabilise before its pid is
/// verified, in milliseconds.
pub const START_VERIFY_WAIT_MS: u64 = 3000;

/// The fixed delay between the stop and start phases of a restart, in
/// milliseconds.
pub const RESTART_DELAY_MS: u64 = 2000;

/// The pid read from a capture file: its trimmed decimal value, or 0
/// when the contents are missing, malformed or out of range — 0 marks a
/// failed capture and triggers the port fallback.
pub open spec fn spec_captured_pid(s: Seq<char>) -> u32 {
    match text::spec_parse_u32(s) {
        Some(v) => v,
        None => 0,
    }
}

/// Parse the contents of the pid capture file.
pub fn parse_pid(contents: &str) -> (pid: u32)
    ensures
        pid == spec_captured_pid(contents@),
{
    match text::parse_u32_trimmed(contents) {
        Some(v) => v,
        None => 0,
    }
}

/// The wrapper handed to the shell: it backgrounds the command, writes
/// the backgrounded pid into `pid_file`, then waits so output capture
/// stays valid.
pub open spec fn spec_capture_command(command: Seq<char>, pid_file: Seq<char>) -> Seq<char> {
    "{ "@ + command + " } & echo $! > \""@ + pid_file + "\" && wait"@
}

/// Build the capture wrapper around a start command.
pub fn pid_capture_command(command: &str, pid_file: &str) -> (r: String)
    ensures
        r@ == spec_capture_command(command@, pid_file@),
{
    let mut s = String::from_str("{ ");
    s.append(command);
    s.append(" } & echo $! > \"");
    s.append(pid_file);
    s.append("\" && wait");
    proof {
        assert(s@ =~= spec_capture_command(command@, pid_file@));
    }
    s
}

/// The verdict of the capture protocol, given what the polling observed:
/// a captured pid that is alive wins; otherwise a running process found
/// on the service's port is taken; otherwise the start failed.
pub fn resolve_started_pid(
    captured_pid: u32,
    captured_running: bool,
    port_pid: Option<u32>,
    port_pid_running: bool,
) -> (r: Result<u32, UsmError>)
    ensures
        captured_pid > 0 && captured_running ==> r == Ok::<u32, UsmError>(captured_pid),
        !(captured_pid > 0 && captured_running) ==> match port_pid {
            Some(p) => if port_pid_running {
                r == Ok::<u32, UsmError>(p)
            } else {
                r == Err::<u32, UsmError>(UsmError::ProcessFailure)
            },
            None => r == Err::<u32, UsmError>(UsmError::ProcessFailure),
        },
{
    if captured_pid > 0 && captured_running {
        return Ok(captured_pid);
    }
    match port_pid {
        Some(p) => if port_pid_running {
            Ok(p)
        } else {
            Err(UsmError::ProcessFailure)
        },
        None => Err(UsmError::ProcessFailure),
    }
}

/// The position of the first occurrence of `pat` in `s`, or -1 when
/// `pat` does not occur.
pub open spec fn first_index_of(s: Seq<char>, pat: Seq<char>) -> int
    decreases s.len(),
{
    if pat.len() == 0 {
        0
    } else if s.len() < pat.len() {
        -1
    } else if s.subrange(0, pat.len() as int) == pat {
        0
    } else {
        let r = first_index_of(s.subrange(1, s.len() as int), pat);
        if r == -1 {
            -1
        } else {
            r + 1
        }
    }
}

/// The fields of `s` split at every occurrence of `sep`; splitting never
/// yields an empty list (an empty input is one empty field).
pub open spec fn spec_split(s: Seq<char>, sep: char) -> Seq<Seq<char>>
    decreases s.len(),
{
    if s.len() == 0 {
        seq![Seq::<char>::empty()]
    } else {
        let rest = spec_split(s.drop_last(), sep);
        if s.last() == sep {
            rest.push(Seq::<char>::empty())
        } else {
            rest.update(rest.len() - 1, rest.last().push(s.last()))
        }
    }
}

proof fn lemma_split_nonempty(s: Seq<char>, sep: char)
    ensures
        spec_split(s, sep).len() >= 1,
    decreases s.len(),
{
    if s.len() > 0 {
        lemma_split_nonempty(s.drop_last(), sep);
    }
}

/// Split `s` into its lines at `sep`.
fn split_at(s: &str, sep: char) -> (r: Vec<String>)
    ensures
        r@.map_values(|l: String| l@) == spec_split(s@, sep),
{
    let n = s.unicode_len();
    let mut fields: Vec<String> = Vec::new();
    let mut cur = String::new();
    let mut i: usize = 0;
    proof {
        assert(s@.subrange(0, 0) =~= Seq::<char>::empty());
        assert(fields@.map_values(|l: String| l@).push(cur@) =~= spec_split(
            s@.subrange(0, 0),
            sep,
        ));
    }
    while i < n
        invariant
            i <= n,
            n == s@.len(),
            fields@.map_values(|l: String| l@).push(cur@) == spec_split(
                s@.subrange(0, i as int),
                sep,
            ),
        decreases n - i,
    {
        let ghost prefix = s@.subrange(0, i as int);
        let ghost split_prev = spec_split(prefix, sep);
        proof {
            assert(s@.subrange(0, i + 1).drop_last() =~= prefix);
            assert(s@.subrange(0, i + 1).last() == s@[i as int]);
            lemma_split_nonempty(prefix, sep);
        }
        let c = s.get_char(i);
        if c == sep {
            fields.push(cur);
            cur = String::new();
            proof {
                assert(fields@.map_values(|l: String| l@).push(cur@) =~= spec_split(
                    s@.subrange(0, i + 1),
                    sep,
                ));
            }
        } else {
            let piece = s.substring_char(i, i + 1);
            cur.append(piece);
            proof {
                assert(cur@ =~= split_prev.last().push(s@[i as int]));
                assert(fields@.map_values(|l: String| l@).push(cur@) =~= spec_split(
                    s@.subrange(0, i + 1),
                    sep,
                ));
            }
        }
        i = i + 1;
    }
    fields.push(cur);
    proof {
        assert(s@.subrange(0, n as int) =~= s@);
        assert(fields@.map_values(|l: String| l@) =~= spec_split(s@, sep));
    }
    fields
}

/// Where `pat` first occurs in `s`, if it occurs.
fn find_first(s: &str, pat: &str) -> (r: Option<usize>)
    ensures
        match r {
            Some(k) => first_index_of(s@, pat@) == k as int && k + pat@.len() <= s@.len()
                && s@.subrange(k as int, k + pat@.len()) == pat@,
            None => first_index_of(s@, pat@) == -1,
        },
{
    let n = s.unicode_len();
    let m = pat.unicode_len();
    if m == 0 {
        proof {
            assert(s@.subrange(0, 0 + pat@.len() as int) =~= pat@);
        }
        return Some(0);
    }
    if m > n {
        return None;
    }
    let mut k: usize = 0;
    while k <= n - m
        invariant
            k <= n - m + 1,
            n == s@.len(),
            m == pat@.len(),
            1 <= m <= n,
            forall|j: int|
                0 <= j < k ==> #[trigger] s@.subrange(j, j + m as int) != pat@,
        decreases n - k,
    {
        if text::matches_at(s, k, pat) {
            proof {
                lemma_first_index_found(s@, pat@, k as int);
            }
            return Some(k);
        }
        k = k + 1;
    }
    proof {
        lemma_first_index_none(s@, pat@);
    }
    None
}

/// When a match exists at `k` and none earlier, `k` is the first index.
proof fn lemma_first_index_found(s: Seq<char>, pat: Seq<char>, k: int)
    requires
        0 <= k,
        1 <= pat.len(),
        k + pat.len() <= s.len(),
        s.subrange(k, k + pat.len() as int) == pat,
        forall|j: int| 0 <= j < k ==> #[trigger] s.subrange(j, j + pat.len() as int) != pat,
    ensures
        first_index_of(s, pat) == k,
    decreases k,
{
    if k == 0 {
    } else {
        let tail = s.subrange(1, s.len() as int);
        assert(s.subrange(0, 0 + pat.len() as int) != pat);
        assert forall|j: int| 0 <= j < k - 1 implies #[trigger] tail.subrange(
            j,
            j + pat.len() as int,
        ) != pat by {
            assert(tail.subrange(j, j + pat.len() as int) =~= s.subrange(
                j + 1,
                (j + 1) + pat.len() as int,
            ));
        }
        assert(tail.subrange(k - 1, (k - 1) + pat.len() as int) =~= s.subrange(
            k,
            k + pat.len() as int,
        ));
        lemma_first_index_found(tail, pat, k - 1);
    }
}

/// When no position matches a nonempty pattern, there is no first index.
proof fn lemma_first_index_none(s: Seq<char>, pat: Seq<char>)
    requires
        1 <= pat.len(),
        forall|j: int|
            0 <= j && j + pat.len() <= s.len() ==> #[trigger] s.subrange(
                j,
                j + pat.len() as int,
            ) != pat,
    ensures
        first_index_of(s, pat) == -1,
    decreases s.len(),
{
    if s.len() >= pat.len() {
        assert(s.subrange(0, 0 + pat.len() as int) != pat);
        let tail = s.subrange(1, s.len() as int);
        assert forall|j: int| 0 <= j && j + pat.len() <= tail.len() implies #[trigger] tail
            .subrange(j, j + pat.len() as int) != pat by {
            assert(tail.subrange(j, j + pat.len() as int) =~= s.subrange(
                j + 1,
                (j + 1) + pat.len() as int,
            ));
        }
        lemma_first_index_none(tail, pat);
    }
}

/// What one line of a socket listing yields: the digits after the first
/// `pid=` marker, cut at the first comma, trimmed and parsed; nothing
/// when the marker is absent or the field is not a number.
pub open spec fn spec_line_pid(line: Seq<char>) -> Option<u32> {
    let k = first_index_of(line, "pid="@);
    if k == -1 {
        None
    } else {
        let after = line.subrange(k + 4, line.len() as int);
        let c = first_index_of(after, ","@);
        let field = if c == -1 {
            after
        } else {
            after.subrange(0, c)
        };
        text::spec_parse_u32(field)
    }
}

/// The first pid any of the lines yields.
pub open spec fn spec_first_line_pid(lines: Seq<Seq<char>>) -> Option<u32>
    decreases lines.len(),
{
    if lines.len() == 0 {
        None
    } else {
        match spec_line_pid(lines[0]) {
            Some(v) => Some(v),
            None => spec_first_line_pid(lines.subrange(1, lines.len() as int)),
        }
    }
}

/// The pid a kernel socket listing names for a port: the header line is
/// skipped, and the first remaining line with a `pid=` field that parses
/// wins.
pub open spec fn spec_socket_listing_pid(output: Seq<char>) -> Option<u32> {
    let lines = spec_split(output, '\n');
    spec_first_line_pid(lines.subrange(1, lines.len() as int))
}

fn line_pid(line: &str) -> (r: Option<u32>)
    ensures
        r == spec_line_pid(line@),
{
    proof {
        reveal_strlit("pid=");
        reveal_strlit(",");
    }
    let k = match find_first(line, "pid=") {
        None => {
            return None;
        },
        Some(k) => k,
    };
    let n = line.unicode_len();
    let after = line.substring_char(k + 4, n);
    let field = match find_first(after, ",") {
        None => after,
        Some(c) => after.substring_char(0, c),
    };
    text::parse_u32_trimmed(field)
}

/// Extract the pid from the output of a socket listing such as `ss
/// -tlnp`: the first line is a header; each later line may carry a
/// `pid=NNN,` field.
pub fn pid_from_socket_listing(output: &str) -> (r: Option<u32>)
    ensures
        r == spec_socket_listing_pid(output@),
{
    let lines = split_at(output, '\n');
    let ghost all = spec_split(output@, '\n');
    let mut i: usize = 1;
    proof {
        lemma_split_nonempty(output@, '\n');
        assert(lines@.map_values(|l: String| l@).subrange(1, all.len() as int) =~= all.subrange(
            1,
            all.len() as int,
        ));
    }
    while i < lines.len()
        invariant
            1 <= i <= lines@.len(),
            lines@.map_values(|l: String| l@) == all,
            spec_socket_listing_pid(output@) == spec_first_line_pid(
                all.subrange(i as int, all.len() as int),
            ),
        decreases lines@.len() - i,
    {
        proof {
            let tail = all.subrange(i as int, all.len() as int);
            assert(tail[0] == all[i as int]);
            assert(tail.subrange(1, tail.len() as int) =~= all.subrange(
                i + 1,
                all.len() as int,
            ));
        }
        match line_pid(lines[i].as_str()) {
            Some(v) => {
                return Some(v);
            },
            None => {},
        }
        i = i + 1;
    }
    proof {
        assert(all.subrange(i as int, all.len() as int).len() == 0);
    }
    None
}

/// The pid a process-listing tool prints alone on its first line (the
/// `lsof -t` style): the first line trimmed and parsed.
pub open spec fn spec_first_line_number(output: Seq<char>) -> Option<u32> {
    text::spec_parse_u32(spec_split(output, '\n')[0])
}

/// Extract the pid from output that carries it alone on the first line.
pub fn pid_from_first_line(output: &str) -> (r: Option<u32>)
    ensures
        r == spec_first_line_number(output@),
{
    let lines = split_at(output, '\n');
    proof {
        lemma_split_nonempty(output@, '\n');
        assert(lines@.map_values(|l: String| l@)[0] == lines@[0]@);
    }
    text::parse_u32_trimmed(lines[0].as_str())
}

} // verus!
