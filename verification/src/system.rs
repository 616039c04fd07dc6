//! Queries against the operating system's process table, and the
//! command-line conventions shared by the rest of the crate.
//!
//! A command line is stored as a single string: the program and its
//! arguments joined by single spaces. `join` builds that string from
//! parts; the probe functions report what the process table holds.

use vstd::prelude::*;
use vstd::string::StringExecFns;

verus! {

/// A live entry of the operating system's process table, reduced to what
/// reconciliation needs: the full command line (parts joined by single
/// spaces) and the process id.
#[derive(Debug)]
pub struct Process {
    pub cmd: String,
    pub pid: i32,
}

/// One step of joining: append a part to what has been joined so far,
/// with a separating space unless nothing has been joined yet.
pub open spec fn join_step(acc: Seq<char>, part: Seq<char>) -> Seq<char> {
    if acc.len() == 0 {
        part
    } else {
        acc + seq![' '] + part
    }
}

/// Joining the parts onto an already-joined prefix, left to right.
pub open spec fn join_from(acc: Seq<char>, parts: Seq<Seq<char>>) -> Seq<char>
    decreases parts.len(),
{
    if parts.len() == 0 {
        acc
    } else {
        join_from(join_step(acc, parts[0]), parts.drop_first())
    }
}

/// The command line formed from the given parts: the parts in order,
/// separated by single spaces, except that parts joined while the
/// result is still empty contribute no separator.
pub open spec fn spec_join(parts: Seq<Seq<char>>) -> Seq<char> {
    join_from(Seq::empty(), parts)
}

/// Join command parts into a single space-separated command line.
pub fn join(parts: Vec<String>) -> (res: String)
    ensures
        res@ == spec_join(parts.deep_view()),
{
    let ghost all: Seq<Seq<char>> = parts.deep_view();
    let mut res = String::new();
    let mut i: usize = 0;
    proof {
        assert(all.skip(0) =~= all);
    }
    while i < parts.len()
        invariant
            i <= parts.len(),
            all == parts.deep_view(),
            join_from(res@, all.skip(i as int)) == spec_join(all),
        decreases parts.len() - i,
    {
        let ghost prev: Seq<char> = res@;
        proof {
            assert(all.skip(i as int)[0] == all[i as int]);
            assert(all.skip(i as int).drop_first() =~= all.skip(i as int + 1));
        }
        if !res.as_str().is_empty() {
            res.append(" ");
        }
        res.append(parts[i].as_str());
        proof {
            reveal_strlit(" ");
            assert(" "@ =~= seq![' ']);
            assert(res@ =~= join_step(prev, all[i as int]));
        }
        i = i + 1;
    }
    proof {
        assert(all.skip(parts.len() as int) =~= Seq::<Seq<char>>::empty());
    }
    res
}

/// An error raised by the system layer: an unusable command string.
#[derive(Debug)]
pub struct SysError {
    pub msg: String,
}

impl SysError {
    /// Wrap a message.
    pub fn new(msg: &str) -> (e: Self)
        ensures
            e.msg@ == msg@,
    {
        SysError { msg: msg.to_owned() }
    }

    /// The error raised for a command string that holds no tokens.
    pub fn new_with_invalid_command(cmd: &str) -> (e: Self)
        ensures
            e.msg@ == "Invalid command: "@ + cmd@,
    {
        let mut msg = "Invalid command: ".to_owned();
        msg.append(cmd);
        SysError { msg }
    }

    /// The message, for display by a caller.
    pub fn message(&self) -> (m: String)
        ensures
            m@ == self.msg@,
    {
        self.msg.clone()
    }
}

/// One step of scanning a command string: a space closes the current run
/// (if one is open), any other character extends it.
pub open spec fn scan_step(acc: (Seq<Seq<char>>, Seq<char>), c: char) -> (Seq<Seq<char>>, Seq<char>) {
    if c == ' ' {
        if acc.1.len() == 0 {
            acc
        } else {
            (acc.0.push(acc.1), Seq::empty())
        }
    } else {
        (acc.0, acc.1.push(c))
    }
}

/// Scanning `t` onward from an already-reached scan state, left to
/// right.
pub open spec fn scan_from(acc: (Seq<Seq<char>>, Seq<char>), t: Seq<char>) -> (
    Seq<Seq<char>>,
    Seq<char>,
)
    decreases t.len(),
{
    if t.len() == 0 {
        acc
    } else {
        scan_step(scan_from(acc, t.drop_last()), t.last())
    }
}

/// Scanning a whole string, left to right: the tokens completed so far
/// and the still-open run of non-space characters.
pub open spec fn scan(s: Seq<char>) -> (Seq<Seq<char>>, Seq<char>) {
    scan_from((Seq::empty(), Seq::empty()), s)
}

/// The tokens of a command string: its maximal runs of non-space
/// characters, in order. A single space is the only separator; there is
/// no shell and no quoting.
pub open spec fn spec_tokens(s: Seq<char>) -> Seq<Seq<char>> {
    let sc = scan(s);
    if sc.1.len() == 0 {
        sc.0
    } else {
        sc.0.push(sc.1)
    }
}

/// Whether a sequence of characters holds no space.
pub open spec fn space_free(s: Seq<char>) -> bool {
    forall|i: int| 0 <= i < s.len() ==> s[i] != ' '
}

/// Well-formed command parts: each one is a non-empty run with no
/// space in it — exactly what a scan of a command line can produce.
pub open spec fn well_formed_parts(parts: Seq<Seq<char>>) -> bool {
    forall|i: int|
        0 <= i < parts.len() ==> (#[trigger] parts[i]).len() > 0 && space_free(parts[i])
}

/// The tail of a joined command line: a separating space before each
/// part.
pub open spec fn rest_join(parts: Seq<Seq<char>>) -> Seq<char>
    decreases parts.len(),
{
    if parts.len() == 0 {
        Seq::empty()
    } else {
        seq![' '] + parts[0] + rest_join(parts.drop_first())
    }
}

proof fn lemma_scan_from_concat(acc: (Seq<Seq<char>>, Seq<char>), s: Seq<char>, t: Seq<char>)
    ensures
        scan_from(acc, s + t) == scan_from(scan_from(acc, s), t),
    decreases t.len(),
{
    if t.len() == 0 {
        assert(s + t =~= s);
    } else {
        lemma_scan_from_concat(acc, s, t.drop_last());
        assert((s + t).drop_last() =~= s + t.drop_last());
        assert((s + t).last() == t.last());
    }
}

proof fn lemma_scan_from_space_free(acc: (Seq<Seq<char>>, Seq<char>), p: Seq<char>)
    requires
        space_free(p),
    ensures
        scan_from(acc, p) == (acc.0, acc.1 + p),
    decreases p.len(),
{
    if p.len() == 0 {
        assert(acc.1 + p =~= acc.1);
    } else {
        assert(space_free(p.drop_last())) by {
            assert forall|i: int| 0 <= i < p.drop_last().len() implies p.drop_last()[i]
                != ' ' by {
                assert(p.drop_last()[i] == p[i]);
            }
        }
        lemma_scan_from_space_free(acc, p.drop_last());
        assert(p.last() != ' ');
        assert((acc.1 + p.drop_last()).push(p.last()) =~= acc.1 + p);
    }
}

proof fn lemma_join_from_nonempty(s: Seq<char>, parts: Seq<Seq<char>>)
    requires
        s.len() > 0,
    ensures
        join_from(s, parts) == s + rest_join(parts),
    decreases parts.len(),
{
    if parts.len() == 0 {
        assert(s + rest_join(parts) =~= s);
    } else {
        lemma_join_from_nonempty(s + seq![' '] + parts[0], parts.drop_first());
        assert(s + seq![' '] + parts[0] + rest_join(parts.drop_first()) =~= s + rest_join(
            parts,
        ));
    }
}

proof fn lemma_scan_from_rest_join(ts: Seq<Seq<char>>, cur: Seq<char>, parts: Seq<Seq<char>>)
    requires
        cur.len() > 0,
        well_formed_parts(parts),
    ensures
        scan_from((ts, cur), rest_join(parts)) == (if parts.len() == 0 {
            (ts, cur)
        } else {
            (ts.push(cur) + parts.take(parts.len() - 1), parts.last())
        }),
    decreases parts.len(),
{
    if parts.len() > 0 {
        let rest = parts.drop_first();
        let sep = seq![' '];
        assert(rest_join(parts) =~= (sep + parts[0]) + rest_join(rest));
        lemma_scan_from_concat((ts, cur), sep + parts[0], rest_join(rest));
        lemma_scan_from_concat((ts, cur), sep, parts[0]);
        assert(sep.drop_last() =~= Seq::<char>::empty());
        assert(sep.last() == ' ');
        assert(scan_from((ts, cur), sep.drop_last()) == (ts, cur));
        assert(scan_from((ts, cur), sep) == (ts.push(cur), Seq::<char>::empty()));
        lemma_scan_from_space_free((ts.push(cur), Seq::<char>::empty()), parts[0]);
        assert(Seq::<char>::empty() + parts[0] =~= parts[0]);
        assert(scan_from((ts, cur), sep + parts[0]) == (ts.push(cur), parts[0]));
        assert(well_formed_parts(rest)) by {
            assert forall|i: int| 0 <= i < rest.len() implies (#[trigger] rest[i]).len() > 0
                && space_free(rest[i]) by {
                assert(rest[i] == parts[i + 1]);
            }
        }
        lemma_scan_from_rest_join(ts.push(cur), parts[0], rest);
        if rest.len() == 0 {
            assert(ts.push(cur) + parts.take(parts.len() - 1) =~= ts.push(cur));
        } else {
            assert(parts.take(parts.len() - 1) =~= seq![parts[0]] + rest.take(
                rest.len() - 1,
            ));
            assert(ts.push(cur) + (seq![parts[0]] + rest.take(rest.len() - 1)) =~= ts.push(
                cur,
            ).push(parts[0]) + rest.take(rest.len() - 1));
            assert(parts.last() == rest.last());
        }
    }
}

/// A command line built by joining well-formed parts — each non-empty,
/// none holding a space — parses back to exactly those parts. This is
/// what keeps a command adopted from the process table (parts joined by
/// single spaces) stable under a later re-parse for spawning.
pub proof fn lemma_join_parse_round_trip(parts: Seq<Seq<char>>)
    requires
        parts.len() > 0,
        well_formed_parts(parts),
    ensures
        spec_tokens(spec_join(parts)) == parts,
{
    let rest = parts.drop_first();
    assert(join_step(Seq::empty(), parts[0]) == parts[0]);
    assert(spec_join(parts) == join_from(parts[0], rest));
    lemma_scan_from_space_free((Seq::<Seq<char>>::empty(), Seq::<char>::empty()), parts[0]);
    assert(Seq::<char>::empty() + parts[0] =~= parts[0]);
    if rest.len() == 0 {
        assert(join_from(parts[0], rest) == parts[0]);
        assert(scan(parts[0]) == (Seq::<Seq<char>>::empty(), parts[0]));
        assert(spec_tokens(parts[0]) =~= parts);
    } else {
        lemma_join_from_nonempty(parts[0], rest);
        lemma_scan_from_concat(
            (Seq::<Seq<char>>::empty(), Seq::<char>::empty()),
            parts[0],
            rest_join(rest),
        );
        assert(well_formed_parts(rest)) by {
            assert forall|i: int| 0 <= i < rest.len() implies (#[trigger] rest[i]).len() > 0
                && space_free(rest[i]) by {
                assert(rest[i] == parts[i + 1]);
            }
        }
        lemma_scan_from_rest_join(Seq::<Seq<char>>::empty(), parts[0], rest);
        let scanned = scan(spec_join(parts));
        assert(scanned == (
            Seq::<Seq<char>>::empty().push(parts[0]) + rest.take(rest.len() - 1),
            rest.last(),
        ));
        assert(rest.last().len() > 0);
        assert(spec_tokens(spec_join(parts)) =~= parts) by {
            assert(scanned.0.push(scanned.1) =~= parts);
        }
    }
}

proof fn lemma_well_formed_push(parts: Seq<Seq<char>>, p: Seq<char>)
    requires
        well_formed_parts(parts),
        p.len() > 0,
        space_free(p),
    ensures
        well_formed_parts(parts.push(p)),
{
    assert forall|i: int| 0 <= i < parts.push(p).len() implies (#[trigger] parts.push(
        p,
    )[i]).len() > 0 && space_free(parts.push(p)[i]) by {
        if i < parts.len() {
            assert(parts.push(p)[i] == parts[i]);
        } else {
            assert(parts.push(p)[i] == p);
        }
    }
}

proof fn lemma_scan_from_well_formed(acc: (Seq<Seq<char>>, Seq<char>), s: Seq<char>)
    requires
        well_formed_parts(acc.0),
        space_free(acc.1),
    ensures
        well_formed_parts(scan_from(acc, s).0),
        space_free(scan_from(acc, s).1),
    decreases s.len(),
{
    if s.len() > 0 {
        lemma_scan_from_well_formed(acc, s.drop_last());
        let mid = scan_from(acc, s.drop_last());
        let c = s.last();
        if c == ' ' {
            if mid.1.len() > 0 {
                lemma_well_formed_push(mid.0, mid.1);
            }
        } else {
            assert forall|i: int| 0 <= i < mid.1.push(c).len() implies mid.1.push(c)[i]
                != ' ' by {
                if i < mid.1.len() {
                    assert(mid.1.push(c)[i] == mid.1[i]);
                } else {
                    assert(mid.1.push(c)[i] == c);
                }
            }
        }
    }
}

/// Every token of a command string is non-empty and holds no space.
pub proof fn lemma_tokens_well_formed(s: Seq<char>)
    ensures
        well_formed_parts(spec_tokens(s)),
{
    lemma_scan_from_well_formed((Seq::<Seq<char>>::empty(), Seq::<char>::empty()), s);
    let sc = scan(s);
    if sc.1.len() > 0 {
        lemma_well_formed_push(sc.0, sc.1);
    }
}

/// Normalization is stable: once a command string is re-built from its
/// own tokens — as a record's command is after a spawn, from what the
/// process table reports — parsing it again recovers those same tokens.
pub proof fn lemma_parse_join_stable(s: Seq<char>)
    requires
        spec_tokens(s).len() > 0,
    ensures
        spec_tokens(spec_join(spec_tokens(s))) == spec_tokens(s),
{
    lemma_tokens_well_formed(s);
    lemma_join_parse_round_trip(spec_tokens(s));
}

/// Whether a character is whitespace, as `str::trim` defines it: one of
/// the characters with the Unicode `White_Space` property.
pub open spec fn spec_is_whitespace(c: char) -> bool {
    let n = c as u32;
    ||| n == 0x9
    ||| n == 0xA
    ||| n == 0xB
    ||| n == 0xC
    ||| n == 0xD
    ||| n == 0x20
    ||| n == 0x85
    ||| n == 0xA0
    ||| n == 0x1680
    ||| (0x2000 <= n && n <= 0x200A)
    ||| n == 0x2028
    ||| n == 0x2029
    ||| n == 0x202F
    ||| n == 0x205F
    ||| n == 0x3000
}

fn is_whitespace_char(c: char) -> (r: bool)
    ensures
        r == spec_is_whitespace(c),
{
    let n = c as u32;
    n == 0x9 || n == 0xA || n == 0xB || n == 0xC || n == 0xD || n == 0x20 || n == 0x85 || n
        == 0xA0 || n == 0x1680 || (0x2000 <= n && n <= 0x200A) || n == 0x2028 || n == 0x2029
        || n == 0x202F || n == 0x205F || n == 0x3000
}

/// A blank command string: one whose trimmed form is empty, that is,
/// one holding no non-whitespace character.
pub open spec fn spec_blank(s: Seq<char>) -> bool {
    forall|i: int| 0 <= i < s.len() ==> spec_is_whitespace(#[trigger] s[i])
}

proof fn lemma_nonspace_gives_token(s: Seq<char>, w: int)
    requires
        0 <= w < s.len(),
        s[w] != ' ',
    ensures
        spec_tokens(s).len() > 0,
    decreases s.len(),
{
    assert(scan(s) == scan_step(scan(s.drop_last()), s.last()));
    if s.last() == ' ' {
        assert(w < s.len() - 1);
        assert(s.drop_last()[w] == s[w]);
        lemma_nonspace_gives_token(s.drop_last(), w);
    }
}

/// Split a command string into its program and argument tokens: its
/// maximal runs of non-space characters, a single space being the only
/// separator — no shell, no quoting.
///
/// Fails with an "invalid command" error exactly when the trimmed
/// string is empty, that is, when the string holds no non-whitespace
/// character; a spawn from such a string is refused before any side
/// effect.
pub fn parse_command(input: &str) -> (r: Result<Vec<String>, SysError>)
    ensures
        r matches Ok(tokens) ==> tokens.deep_view() == spec_tokens(input@) && !spec_blank(
            input@,
        ) && spec_tokens(input@).len() > 0,
        r matches Err(e) ==> spec_blank(input@) && e.msg@ == "Invalid command: "@ + input@,
{
    let n = input.unicode_len();
    let mut tokens: Vec<String> = Vec::new();
    let mut start: usize = 0;
    let mut in_token: bool = false;
    let mut seen_text: bool = false;
    let mut i: usize = 0;
    proof {
        assert(input@.take(0) =~= Seq::<char>::empty());
    }
    while i < n
        invariant
            n == input@.len(),
            i <= n,
            start <= i,
            in_token ==> start < i,
            seen_text <==> (exists|j: int|
                0 <= j < i && !spec_is_whitespace(#[trigger] input@[j])),
            scan(input@.take(i as int)) == (
                tokens.deep_view(),
                if in_token {
                    input@.subrange(start as int, i as int)
                } else {
                    Seq::<char>::empty()
                },
            ),
        decreases n - i,
    {
        let ghost prev_tokens: Seq<Seq<char>> = tokens.deep_view();
        let ghost prev_run: Seq<char> = if in_token {
            input@.subrange(start as int, i as int)
        } else {
            Seq::<char>::empty()
        };
        let c = input.get_char(i);
        proof {
            assert(input@.take(i as int + 1).drop_last() =~= input@.take(i as int));
            assert(input@.take(i as int + 1).last() == input@[i as int]);
        }
        if !is_whitespace_char(c) {
            seen_text = true;
            proof {
                assert(!spec_is_whitespace(input@[i as int]));
            }
        }
        if c == ' ' {
            if in_token {
                let token = input.substring_char(start, i).to_owned();
                tokens.push(token);
                in_token = false;
                proof {
                    assert(tokens.deep_view() =~= prev_tokens.push(prev_run));
                }
            }
        } else {
            if !in_token {
                start = i;
                in_token = true;
            }
            proof {
                assert(input@.subrange(start as int, i as int + 1) =~= prev_run.push(
                    input@[i as int],
                ));
            }
        }
        i = i + 1;
    }
    proof {
        assert(input@.take(n as int) =~= input@);
    }
    if in_token {
        let ghost prev_tokens: Seq<Seq<char>> = tokens.deep_view();
        let token = input.substring_char(start, n).to_owned();
        tokens.push(token);
        proof {
            assert(tokens.deep_view() =~= prev_tokens.push(
                input@.subrange(start as int, n as int),
            ));
        }
    }
    if !seen_text {
        proof {
            assert(spec_blank(input@));
        }
        Err(SysError::new_with_invalid_command(input))
    } else {
        proof {
            let w = choose|j: int| 0 <= j < input@.len() && !spec_is_whitespace(input@[j]);
            assert(' ' as u32 == 0x20);
            assert(input@[w] != ' ');
            lemma_nonspace_gives_token(input@, w);
        }
        Ok(tokens)
    }
}

/// Relies on `sysinfo::System::{refresh_processes_specifics, process}`: the
/// entry returned, if any, is the one registered under `pid` (converted
/// through `sysinfo::Pid::from_u32`); its fields are the command-line parts
/// reported by the OS and whether the OS reports the process as a zombie.
#[verifier::external_body]
fn sys_probe_pid(pid: i32) -> (r: Option<(Vec<String>, bool)>) {
    let target = sysinfo::Pid::from_u32(pid as u32);
    let mut sys = sysinfo::System::new();
    sys.refresh_processes_specifics(
        sysinfo::ProcessesToUpdate::Some(&[target]),
        true,
        sysinfo::ProcessRefreshKind::everything(),
    );
    sys.process(target).map(|p| (
        p.cmd().iter().map(|part| part.to_string_lossy().into_owned()).collect(),
        matches!(p.status(), sysinfo::ProcessStatus::Zombie),
    ))
}

/// Relies on `sysinfo::System::{refresh_processes_specifics, processes}`:
/// one entry per process the OS reports, as the pid (through
/// `sysinfo::Pid::as_u32`) and the command-line parts.
#[verifier::external_body]
fn sys_list_processes() -> (r: Vec<(i32, Vec<String>)>) {
    let mut sys = sysinfo::System::new();
    sys.refresh_processes_specifics(
        sysinfo::ProcessesToUpdate::All,
        true,
        sysinfo::ProcessRefreshKind::everything(),
    );
    sys.processes().iter().map(|(pid, p)| (
        pid.as_u32() as i32,
        p.cmd().iter().map(|part| part.to_string_lossy().into_owned()).collect(),
    )).collect()
}

/// Send a forceful termination signal to the process with this pid.
///
/// Returns whether the signal was accepted by the OS, not whether the
/// process has exited: callers must re-query to confirm.
///
/// Relies on `sysinfo::Process::kill`: sends SIGKILL (or the platform
/// equivalent) and reports whether the signal was sent successfully.
#[verifier::external_body]
pub fn kill_by_pid(pid: i32) -> bool {
    let target = sysinfo::Pid::from_u32(pid as u32);
    let mut sys = sysinfo::System::new();
    sys.refresh_processes(sysinfo::ProcessesToUpdate::Some(&[target]), true);
    sys.process(target).map_or(false, |p| p.kill())
}

/// What a raw probe result for a pid means: an absent entry stays
/// absent, a zombie entry is treated as absent — zombies only arise
/// here from processes this program itself killed, and their resources
/// are reclaimed at program exit regardless — and a live entry is
/// reported with its command-line parts joined.
pub fn probe_to_process(pid: i32, probe: Option<(Vec<String>, bool)>) -> (r: Option<Process>)
    ensures
        probe is None ==> r is None,
        probe matches Some(entry) ==> (if entry.1 {
            r is None
        } else {
            r matches Some(p) && p.pid == pid && p.cmd@ == spec_join(entry.0.deep_view())
        }),
{
    match probe {
        None => None,
        Some((parts, zombie)) => {
            if zombie {
                None
            } else {
                Some(Process { cmd: join(parts), pid })
            }
        },
    }
}

/// Look up the live process table entry with exactly this pid.
///
/// A zombie entry is reported as absent.
pub fn get_by_pid(pid: i32) -> (r: Option<Process>)
    ensures
        r matches Some(p) ==> p.pid == pid,
{
    probe_to_process(pid, sys_probe_pid(pid))
}

/// The first of the given process-table entries whose joined command
/// line equals `cmd`, reported with that command line and its pid;
/// absent when no entry's command line matches.
pub fn find_by_cmd(entries: Vec<(i32, Vec<String>)>, cmd: &String) -> (r: Option<Process>)
    ensures
        ({
            let dv = entries.deep_view();
            match r {
                None => forall|i: int|
                    0 <= i < dv.len() ==> spec_join(#[trigger] dv[i].1) != cmd@,
                Some(p) => {
                    &&& p.cmd@ == cmd@
                    &&& (exists|i: int|
                        {
                            &&& 0 <= i < dv.len()
                            &&& spec_join(#[trigger] dv[i].1) == cmd@
                            &&& p.pid == dv[i].0
                            &&& (forall|j: int|
                                0 <= j < i ==> spec_join(#[trigger] dv[j].1) != cmd@)
                        })
                },
            }
        }),
{
    let ghost orig: Seq<(i32, Vec<String>)> = entries@;
    let ghost dv: Seq<(i32, Seq<Seq<char>>)> = entries.deep_view();
    let mut rest = entries;
    let ghost k: int = 0;
    proof {
        assert(orig.skip(0) =~= orig);
    }
    while rest.len() > 0
        invariant
            0 <= k,
            orig == entries@,
            dv == entries.deep_view(),
            k + rest@.len() == orig.len(),
            rest@ == orig.skip(k),
            dv.len() == orig.len(),
            forall|i: int| 0 <= i < orig.len() ==> #[trigger] dv[i] == orig[i].deep_view(),
            forall|j: int| 0 <= j < k ==> spec_join(#[trigger] dv[j].1) != cmd@,
        decreases rest.len(),
    {
        proof {
            assert(orig.skip(k)[0] == orig[k]);
            assert(orig.skip(k).remove(0) =~= orig.skip(k + 1));
        }
        let (pid, parts) = rest.remove(0);
        proof {
            assert(dv[k].1 == parts.deep_view());
            assert(dv[k].0 == pid);
        }
        let joined = join(parts);
        if joined == *cmd {
            proof {
                assert(dv == entries.deep_view());
                assert(spec_join(entries.deep_view()[k].1) == cmd@);
                assert(exists|i: int|
                    {
                        &&& 0 <= i < entries.deep_view().len()
                        &&& spec_join(#[trigger] entries.deep_view()[i].1) == cmd@
                        &&& pid == entries.deep_view()[i].0
                        &&& (forall|j: int|
                            0 <= j < i ==> spec_join(
                                #[trigger] entries.deep_view()[j].1,
                            ) != cmd@)
                    });
            }
            return Some(Process { cmd: joined, pid });
        }
        proof {
            k = k + 1;
        }
    }
    None
}

/// Find a live process whose full command line equals `cmd`.
pub fn get_by_cmd(cmd: &String) -> (r: Option<Process>)
    ensures
        r matches Some(p) ==> p.cmd@ == cmd@,
{
    find_by_cmd(sys_list_processes(), cmd)
}

} // verus!
