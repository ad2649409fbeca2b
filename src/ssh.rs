use vstd::prelude::*;

use crate::text::{
    all_digits, chars_of, decimal_in, decimal_value, is_blank, is_blank_char, is_digit,
    is_digit_char, push_char, string_of, trimmed,
};

verus! {

/// Whether a control master answers for the host.
#[derive(Debug, Clone, Copy, PartialEq, Eq, Structural)]
pub enum ControlMasterStatus {
    /// Control master is running with the given PID
    Running { pid: u32 },
    /// No control master is active
    NotRunning,
}

/// Why an operation on the control channel failed.
#[derive(Debug, Clone)]
pub enum SshError {
    /// The ssh client could not be run, or reported failure; carries its
    /// error output.
    TransportFailure(String),
    /// The ssh client succeeded but its output broke the documented form;
    /// carries that output.
    ProtocolViolation(String),
    /// The master was started but a later check does not find it.
    MasterNotDetected,
}

/// The part of a host's resolved ssh configuration that matters here.
#[derive(Debug, Clone)]
pub struct SshConfig {
    pub control_path: Option<String>,
}

/// The directive name and its separating space, as the configuration dump
/// writes it.
pub open spec fn directive_prefix() -> Seq<char> {
    seq!['c', 'o', 'n', 't', 'r', 'o', 'l', 'p', 'a', 't', 'h', ' ']
}

pub open spec fn none_word() -> Seq<char> {
    seq!['n', 'o', 'n', 'e']
}

/// A control path value: absent where it is empty or the word `none`.
pub open spec fn path_value(t: Seq<char>) -> Option<Seq<char>> {
    if t.len() == 0 || t == none_word() {
        None
    } else {
        Some(t)
    }
}

/// Whether the directive prefix starts at `i`.
pub open spec fn prefix_at(s: Seq<char>, i: int) -> bool {
    0 <= i && i + 12 <= s.len() && s.subrange(i, i + 12) == directive_prefix()
}

/// The end of the line that runs through `i`: the next newline at or after
/// `i`, or the end of the text.
pub open spec fn line_end(s: Seq<char>, i: int) -> int
    decreases s.len() - i,
{
    if 0 <= i < s.len() && s[i] != '\n' {
        line_end(s, i + 1)
    } else {
        i
    }
}

/// The control path of the first `controlpath` line at or after `i`, where
/// `line_start` tells whether `i` begins a line.
pub open spec fn control_path_from(s: Seq<char>, i: int, line_start: bool) -> Option<Seq<char>>
    decreases s.len() - i,
{
    if i < 0 || i >= s.len() {
        None
    } else if line_start && prefix_at(s, i) {
        path_value(trimmed(s.subrange(i + 12, line_end(s, i + 12))))
    } else {
        control_path_from(s, i + 1, s[i] == '\n')
    }
}

/// The control path that a configuration dump gives: the value of its first
/// `controlpath` line, trimmed, absent where there is no such line or its
/// value is empty or `none`.
pub open spec fn control_path_of(s: Seq<char>) -> Option<Seq<char>> {
    control_path_from(s, 0, true)
}

/// Whether `pid=` starts at `i`.
pub open spec fn marker_at(s: Seq<char>, i: int) -> bool {
    0 <= i && i + 4 <= s.len() && s[i] == 'p' && s[i + 1] == 'i' && s[i + 2] == 'd' && s[i + 3]
        == '='
}

/// The first place at or after `i` where `pid=` starts.
pub open spec fn first_marker_from(s: Seq<char>, i: int) -> Option<int>
    decreases s.len() - i,
{
    if i < 0 || i + 4 > s.len() {
        None
    } else if marker_at(s, i) {
        Some(i)
    } else {
        first_marker_from(s, i + 1)
    }
}

/// The end of the run of digits that starts at `i`.
pub open spec fn digit_run_end(s: Seq<char>, i: int) -> int
    decreases s.len() - i,
{
    if 0 <= i < s.len() && is_digit(s[i]) {
        digit_run_end(s, i + 1)
    } else {
        i
    }
}

/// The process id in a status message: the digits right after its first
/// `pid=`, where there are some and they fit in 32 bits.
pub open spec fn master_pid_of(s: Seq<char>) -> Option<u32> {
    match first_marker_from(s, 0) {
        None => None,
        Some(m) => {
            let d = s.subrange(m + 4, digit_run_end(s, m + 4));
            if d.len() > 0 && decimal_value(d) <= u32::MAX {
                Some(decimal_value(d) as u32)
            } else {
                None
            }
        },
    }
}

/// What a status check means: failure of the check says no master runs;
/// success must come with a process id.
pub open spec fn check_outcome(success: bool, stderr: Seq<char>) -> Option<ControlMasterStatus> {
    if !success {
        Some(ControlMasterStatus::NotRunning)
    } else {
        match master_pid_of(stderr) {
            Some(pid) => Some(ControlMasterStatus::Running { pid }),
            None => None,
        }
    }
}

impl SshConfig {
    /// The configuration that a dump of the resolved configuration gives.
    pub fn from_dump(output: &str) -> (r: SshConfig)
        ensures
            match r.control_path {
                Some(p) => control_path_of(output@) == Some(p@),
                None => control_path_of(output@) is None,
            },
    {
        SshConfig { control_path: parse_control_path(output) }
    }

    /// Check if this host has a control path configured
    pub fn has_control_path(&self) -> (r: bool)
        ensures
            r == match self.control_path {
                Some(p) => path_value(p@) is Some,
                None => false,
            },
    {
        match &self.control_path {
            Some(p) => {
                let v = chars_of(p.as_str());
                assert(v@.subrange(0, v@.len() as int) =~= p@);
                !(v.len() == 0 || is_none_word(&v, 0, v.len()))
            },
            None => false,
        }
    }
}

/// Whether `v[a..b]` is the word `none`.
fn is_none_word(v: &Vec<char>, a: usize, b: usize) -> (r: bool)
    requires
        a <= b <= v@.len(),
    ensures
        r == (v@.subrange(a as int, b as int) == none_word()),
{
    assert(none_word().len() == 4);
    let r = b - a == 4 && v[a] == 'n' && v[a + 1] == 'o' && v[a + 2] == 'n' && v[a + 3] == 'e';
    if r {
        assert(v@.subrange(a as int, b as int) =~= none_word());
    } else if b - a == 4 {
        let ghost d = v@.subrange(a as int, b as int);
        assert(d[0] != 'n' || d[1] != 'o' || d[2] != 'n' || d[3] != 'e');
    }
    r
}

/// Whether the directive prefix starts at `i` of `v`.
fn prefix_at_exec(v: &Vec<char>, i: usize) -> (r: bool)
    ensures
        r == prefix_at(v@, i as int),
{
    let p = vec!['c', 'o', 'n', 't', 'r', 'o', 'l', 'p', 'a', 't', 'h', ' '];
    assert(p@ =~= directive_prefix());
    if v.len() < 12 || i > v.len() - 12 {
        return false;
    }
    let n = v.len();
    let mut k: usize = 0;
    while k < 12
        invariant
            k <= 12,
            n == v@.len(),
            i + 12 <= n,
            p@ == directive_prefix(),
            forall|j: int| 0 <= j < k ==> v@[i + j] == p@[j],
        decreases 12 - k,
    {
        if v[i + k] != p[k] {
            assert(v@.subrange(i as int, i + 12)[k as int] != directive_prefix()[k as int]);
            return false;
        }
        k = k + 1;
    }
    assert(v@.subrange(i as int, i + 12) =~= directive_prefix());
    true
}

/// Parse the controlpath from ssh -G output
pub fn parse_control_path(output: &str) -> (r: Option<String>)
    ensures
        match r {
            Some(p) => control_path_of(output@) == Some(p@),
            None => control_path_of(output@) is None,
        },
{
    let v = chars_of(output);
    let mut i: usize = 0;
    let mut line_start = true;
    while i < v.len()
        invariant
            v@ == output@,
            i <= v@.len(),
            control_path_of(v@) == control_path_from(v@, i as int, line_start),
        decreases v@.len() - i,
    {
        if line_start && prefix_at_exec(&v, i) {
            let mut e: usize = i + 12;
            while e < v.len() && v[e] != '\n'
                invariant
                    i + 12 <= e <= v@.len(),
                    line_end(v@, i + 12) == line_end(v@, e as int),
                decreases v@.len() - e,
            {
                e = e + 1;
            }
            let (a, b) = trim_range(&v, i + 12, e);
            if a == b || is_none_word(&v, a, b) {
                return None;
            }
            return Some(string_of(&v, a, b));
        }
        line_start = v[i] == '\n';
        i = i + 1;
    }
    None
}

/// The bounds of `v[a..b]` without white space at either end.
fn trim_range(v: &Vec<char>, a: usize, b: usize) -> (r: (usize, usize))
    requires
        a <= b <= v@.len(),
    ensures
        a <= r.0 <= r.1 <= b,
        v@.subrange(r.0 as int, r.1 as int) == trimmed(v@.subrange(a as int, b as int)),
{
    let mut lo: usize = a;
    while lo < b && is_blank_char(v[lo])
        invariant
            a <= lo <= b <= v@.len(),
            trimmed(v@.subrange(a as int, b as int)) == trimmed(v@.subrange(lo as int, b as int)),
        decreases b - lo,
    {
        assert(v@.subrange(lo as int, b as int).drop_first() =~= v@.subrange(lo + 1, b as int));
        lo = lo + 1;
    }
    let mut hi: usize = b;
    while hi > lo && is_blank_char(v[hi - 1])
        invariant
            a <= lo <= hi <= b <= v@.len(),
            lo < hi ==> !is_blank(v@[lo as int]),
            trimmed(v@.subrange(a as int, b as int)) == trimmed(v@.subrange(lo as int, hi as int)),
        decreases hi - lo,
    {
        assert(v@.subrange(lo as int, hi as int).drop_last() =~= v@.subrange(lo as int, hi - 1));
        hi = hi - 1;
    }
    (lo, hi)
}

/// Parse PID from "Master running (pid=12345)" message
pub fn parse_master_pid(output: &str) -> (r: Option<u32>)
    ensures
        r == master_pid_of(output@),
{
    let v = chars_of(output);
    let mut i: usize = 0;
    while i < v.len() && v.len() - i >= 4
        invariant
            v@ == output@,
            i <= v@.len(),
            first_marker_from(v@, 0) == first_marker_from(v@, i as int),
        decreases v@.len() - i,
    {
        if v[i] == 'p' && v[i + 1] == 'i' && v[i + 2] == 'd' && v[i + 3] == '=' {
            let start = i + 4;
            let mut e: usize = start;
            while e < v.len() && is_digit_char(v[e])
                invariant
                    start <= e <= v@.len(),
                    digit_run_end(v@, start as int) == digit_run_end(v@, e as int),
                    forall|j: int| start <= j < e ==> is_digit(#[trigger] v@[j]),
                decreases v@.len() - e,
            {
                e = e + 1;
            }
            assert(all_digits(v@.subrange(start as int, e as int)));
            return decimal_in(&v, start, e, u32::MAX);
        }
        i = i + 1;
    }
    None
}

/// The status that a check of the control master reports, from whether the
/// check succeeded and its error output.
pub fn status_from_check(success: bool, stderr: &str) -> (r: Result<ControlMasterStatus, SshError>)
    ensures
        match check_outcome(success, stderr@) {
            Some(st) => r == Ok::<ControlMasterStatus, SshError>(st),
            None => r matches Err(SshError::ProtocolViolation(m)) && m@ == stderr@,
        },
{
    if !success {
        return Ok(ControlMasterStatus::NotRunning);
    }
    match parse_master_pid(stderr) {
        Some(pid) => Ok(ControlMasterStatus::Running { pid }),
        None => Err(SshError::ProtocolViolation(String::from_str(stderr))),
    }
}

/// The process id of a master just started, from the status that the check
/// after the settle delay reported.
pub fn pid_after_start(status: ControlMasterStatus) -> (r: Result<u32, SshError>)
    ensures
        match status {
            ControlMasterStatus::Running { pid } => r == Ok::<u32, SshError>(pid),
            ControlMasterStatus::NotRunning => r matches Err(SshError::MasterNotDetected),
        },
{
    match status {
        ControlMasterStatus::Running { pid } => Ok(pid),
        ControlMasterStatus::NotRunning => Err(SshError::MasterNotDetected),
    }
}

/// The digit character for `d` below ten.
pub open spec fn digit_char(d: nat) -> char {
    seq!['0', '1', '2', '3', '4', '5', '6', '7', '8', '9'][d as int]
}

/// `n` written in decimal, without leading zeros.
pub open spec fn decimal_text(n: nat) -> Seq<char>
    decreases n,
{
    if n < 10 {
        seq![digit_char(n)]
    } else {
        decimal_text(n / 10).push(digit_char(n % 10))
    }
}

/// Appends `n` written in decimal.
fn push_decimal(s: &mut String, n: u16)
    ensures
        final(s)@ == old(s)@ + decimal_text(n as nat),
    decreases n,
{
    let table = vec!['0', '1', '2', '3', '4', '5', '6', '7', '8', '9'];
    assert(table@ =~= seq!['0', '1', '2', '3', '4', '5', '6', '7', '8', '9']);
    if n >= 10 {
        push_decimal(s, n / 10);
    }
    push_char(s, table[(n % 10) as usize]);
    assert(final(s)@ =~= old(s)@ + decimal_text(n as nat));
}

/// The forward specification handed to the control channel: the port, the
/// remote host `localhost`, and the same port, separated by colons.
pub fn forward_spec(port: u16) -> (r: String)
    ensures
        r@ == decimal_text(port as nat) + ":localhost:"@ + decimal_text(port as nat),
{
    let mut s = String::new();
    push_decimal(&mut s, port);
    s.append(":localhost:");
    push_decimal(&mut s, port);
    s
}

/// The outcome of a control command from its exit status: failure carries
/// the command's error output without surrounding white space.
pub fn command_outcome(success: bool, stderr: &str) -> (r: Result<(), SshError>)
    ensures
        success ==> r is Ok,
        !success ==> (r matches Err(SshError::TransportFailure(m)) && m@ == trimmed(stderr@)),
{
    if success {
        return Ok(());
    }
    let v = chars_of(stderr);
    let (a, b) = trim_range(&v, 0, v.len());
    assert(v@.subrange(0, v@.len() as int) =~= stderr@);
    Err(SshError::TransportFailure(string_of(&v, a, b)))
}

} // verus!
