use crate::error::Error;
use vstd::prelude::*;
use vstd::string::*;

verus! {

/// A request to the supervisor over its control socket.
pub enum Request {
    Start(String),
    Stop(String),
    Other,
}

/// The first space in `s` at or after `from`, or the length of `s`.
pub open spec fn next_space(s: Seq<char>, from: int) -> int
    decreases s.len() - from,
{
    if from >= s.len() || from < 0 {
        s.len() as int
    } else if s[from] == ' ' {
        from
    } else {
        next_space(s, from + 1)
    }
}

/// The verb of a request line: up to its first space.
pub open spec fn verb_of(s: Seq<char>) -> Seq<char> {
    s.subrange(0, next_space(s, 0))
}

/// The service name of a request line: between its first and its second
/// space; empty where there is no space.
pub open spec fn name_of(s: Seq<char>) -> Seq<char> {
    let a = next_space(s, 0);
    if a >= s.len() {
        Seq::empty()
    } else {
        s.subrange(a + 1, next_space(s, a + 1))
    }
}

pub(crate) proof fn lemma_next_space_bounds(s: Seq<char>, from: int)
    requires
        0 <= from <= s.len(),
    ensures
        from <= next_space(s, from) <= s.len(),
    decreases s.len() - from,
{
    if from < s.len() && s[from] != ' ' {
        lemma_next_space_bounds(s, from + 1);
    }
}

/// The first space in `s` at or after `from`, or the length of `s`.
pub(crate) fn find_space(s: &str, from: usize) -> (r: usize)
    requires
        from <= s@.len(),
    ensures
        r == next_space(s@, from as int),
{
    let n = s.unicode_len();
    let mut i = from;
    while i < n
        invariant
            n == s@.len(),
            from <= i <= n,
            next_space(s@, from as int) == next_space(s@, i as int),
        decreases n - i,
    {
        if s.get_char(i) == ' ' {
            return i;
        }
        i = i + 1;
    }
    i
}

/// Whether `s` holds exactly the characters of `word`.
pub(crate) fn same_chars(s: &str, word: &str) -> (r: bool)
    ensures
        r == (s@ == word@),
{
    let n = s.unicode_len();
    if n != word.unicode_len() {
        return false;
    }
    let mut i: usize = 0;
    while i < n
        invariant
            n == s@.len(),
            n == word@.len(),
            i <= n,
            s@.subrange(0, i as int) == word@.subrange(0, i as int),
        decreases n - i,
    {
        if s.get_char(i) != word.get_char(i) {
            assert(s@[i as int] != word@[i as int]);
            return false;
        }
        i = i + 1;
        assert(s@.subrange(0, i as int) =~= word@.subrange(0, i as int) || s@[i - 1] != word@[i - 1]);
        assert(s@.subrange(0, i as int) =~= word@.subrange(0, i as int));
    }
    assert(s@ =~= s@.subrange(0, n as int));
    assert(word@ =~= word@.subrange(0, n as int));
    true
}

/// Splits a request line into its verb and service name: `start <name>`
/// and `stop <name>` are known, anything else is `Other`.
pub fn parse_request(line: &str) -> (r: Request)
    ensures
        verb_of(line@) == "start"@ ==> r is Start && r->Start_0@ == name_of(line@),
        verb_of(line@) == "stop"@ ==> r is Stop && r->Stop_0@ == name_of(line@),
        verb_of(line@) != "start"@ && verb_of(line@) != "stop"@ ==> r is Other,
{
    proof {
        lemma_next_space_bounds(line@, 0);
    }
    let n = line.unicode_len();
    let a = find_space(line, 0);
    let verb = line.substring_char(0, a);
    let name = if a < n {
        proof {
            lemma_next_space_bounds(line@, a + 1);
        }
        let b = find_space(line, a + 1);
        String::from_str(line.substring_char(a + 1, b))
    } else {
        String::new()
    };
    assert(name@ == name_of(line@));
    proof {
        reveal_strlit("start");
        reveal_strlit("stop");
        assert("start"@.len() != "stop"@.len());
    }
    if same_chars(verb, "start") {
        Request::Start(name)
    } else if same_chars(verb, "stop") {
        Request::Stop(name)
    } else {
        Request::Other
    }
}

/// The request line that asks the supervisor for `verb` on `service_name`.
pub fn request_line(verb: &str, service_name: &str) -> (r: String)
    ensures
        r@ == verb@ + " "@ + service_name@,
{
    String::from_str(verb).concat(" ").concat(service_name)
}

/// What the supervisor does on `start <name>`.
#[derive(PartialEq, Eq, Structural, Clone, Copy, Debug)]
pub enum StartStep {
    /// The service runs: answer with the PID of its PID-file.
    Reply(i32),
    /// Start the service and answer with its PID, or 0.
    Spawn,
}

/// What the supervisor does on `start <name>` where the service's PID-file
/// holds `existing`.
pub open spec fn start_step(existing: Option<i32>) -> StartStep {
    match existing {
        Some(pid) => StartStep::Reply(pid),
        None => StartStep::Spawn,
    }
}

/// What the supervisor does on `start <name>` where the service's PID-file
/// holds `existing`: a service that runs, or seems to, is not started again.
pub fn start(existing: Option<i32>) -> (r: StartStep)
    ensures
        r == start_step(existing),
{
    match existing {
        Some(pid) => StartStep::Reply(pid),
        None => StartStep::Spawn,
    }
}

/// The PID that answers a start: 0 where none came.
pub fn started_pid(result: Result<i32, Error>) -> (r: i32)
    ensures
        r == (match result {
            Ok(pid) => pid,
            Err(_) => 0,
        }),
{
    match result {
        Ok(pid) => pid,
        Err(_) => 0,
    }
}

/// Asked `start <name>` while the service's PID-file holds `pid`, however
/// often, the supervisor answers with that PID and spawns nothing, whether
/// or not a process with that PID lives.
pub proof fn lemma_start_idempotent(pid: i32)
    ensures
        start_step(Some(pid)) == StartStep::Reply(pid),
        start_step(Some(pid)) != StartStep::Spawn,
{
}

/// The ASCII digit of `d`.
pub open spec fn digit(d: nat) -> u8 {
    (48 + d) as u8
}

/// The decimal digits of `n`, most significant first.
pub open spec fn decimal(n: nat) -> Seq<u8>
    decreases n,
{
    if n < 10 {
        seq![digit(n)]
    } else {
        decimal(n / 10).push(digit(n % 10))
    }
}

/// The decimal text of `v`, with a minus sign where it is negative.
pub open spec fn signed_decimal(v: int) -> Seq<u8> {
    if v < 0 {
        seq![45u8] + decimal((-v) as nat)
    } else {
        decimal(v as nat)
    }
}

fn push_decimal(out: &mut Vec<u8>, n: u64)
    ensures
        final(out)@ == old(out)@ + decimal(n as nat),
    decreases n,
{
    if n >= 10 {
        push_decimal(out, n / 10);
    }
    out.push(48 + (n % 10) as u8);
    assert(out@ =~= old(out)@ + decimal(n as nat));
}

/// The decimal text of a PID, as the supervisor answers it.
pub fn reply(pid: i32) -> (r: Vec<u8>)
    ensures
        r@ == signed_decimal(pid as int),
{
    let mut out: Vec<u8> = Vec::new();
    if pid < 0 {
        out.push(45u8);
        let m: i64 = -(pid as i64);
        push_decimal(&mut out, m as u64);
    } else {
        push_decimal(&mut out, pid as u64);
    }
    assert(out@ =~= signed_decimal(pid as int));
    out
}

/// The contents of a PID-file: the PID in decimal and a newline.
pub fn pidfile_contents(pid: i32) -> (r: Vec<u8>)
    ensures
        r@ == signed_decimal(pid as int).push(10u8),
{
    let mut r = reply(pid);
    r.push(10u8);
    r
}

/// An ASCII digit.
pub open spec fn is_digit(b: u8) -> bool {
    48 <= b <= 57
}

/// The value of a string of ASCII digits.
pub open spec fn digits_value(s: Seq<u8>) -> int
    decreases s.len(),
{
    if s.len() == 0 {
        0
    } else {
        digits_value(s.drop_last()) * 10 + (s.last() - 48)
    }
}

/// A non-empty string of ASCII digits.
pub open spec fn all_digits(s: Seq<u8>) -> bool {
    s.len() > 0 && forall|i: int| 0 <= i < s.len() ==> is_digit(#[trigger] s[i])
}

/// The integer written in `s`: an optional sign, then digits.
pub open spec fn decimal_value(s: Seq<u8>) -> Option<int> {
    if s.len() > 0 && s[0] == 45 && all_digits(s.drop_first()) {
        Some(-digits_value(s.drop_first()))
    } else if s.len() > 0 && s[0] == 43 && all_digits(s.drop_first()) {
        Some(digits_value(s.drop_first()))
    } else if all_digits(s) {
        Some(digits_value(s))
    } else {
        None
    }
}

/// The `i32` written in `s`, where there is one that fits.
pub open spec fn i32_value(s: Seq<u8>) -> Option<i32> {
    match decimal_value(s) {
        Some(v) => if i32::MIN <= v <= i32::MAX {
            Some(v as i32)
        } else {
            None
        },
        None => None,
    }
}

proof fn lemma_digits_nonneg(s: Seq<u8>)
    requires
        forall|i: int| 0 <= i < s.len() ==> is_digit(#[trigger] s[i]),
    ensures
        digits_value(s) >= 0,
    decreases s.len(),
{
    if s.len() > 0 {
        lemma_digits_nonneg(s.drop_last());
    }
}

const LIMIT: i64 = 2147483648;

/// The value of the digits of `s` from `from` on, where it is at most
/// 2^31; `None` where a byte is no digit, there are none, or the value is
/// larger.
fn digits_upto_limit(s: &[u8], from: usize) -> (r: Option<i64>)
    requires
        from <= s@.len(),
    ensures
        match r {
            Some(v) => all_digits(s@.subrange(from as int, s@.len() as int)) && v == digits_value(
                s@.subrange(from as int, s@.len() as int),
            ) && 0 <= v <= LIMIT,
            None => !all_digits(s@.subrange(from as int, s@.len() as int)) || digits_value(
                s@.subrange(from as int, s@.len() as int),
            ) > LIMIT,
        },
{
    let ghost t = s@.subrange(from as int, s@.len() as int);
    if from >= s.len() {
        return None;
    }
    let mut acc: i64 = 0;
    let mut over = false;
    let mut i = from;
    while i < s.len()
        invariant
            from <= i <= s@.len(),
            from < s@.len(),
            t == s@.subrange(from as int, s@.len() as int),
            forall|k: int| from <= k < i ==> is_digit(#[trigger] s@[k]),
            !over ==> acc == digits_value(s@.subrange(from as int, i as int)) && 0 <= acc <= LIMIT,
            over ==> digits_value(s@.subrange(from as int, i as int)) > LIMIT,
        decreases s@.len() - i,
    {
        let b = s[i];
        if b < 48 || b > 57 {
            assert(!is_digit(t[i - from]));
            return None;
        }
        let ghost pre = s@.subrange(from as int, i as int);
        let ghost next = s@.subrange(from as int, i + 1);
        assert(next.drop_last() =~= pre);
        proof {
            lemma_digits_nonneg(pre);
        }
        if !over {
            let v = acc * 10 + (b - 48) as i64;
            if v > LIMIT {
                over = true;
            } else {
                acc = v;
            }
        } else {
            assert(digits_value(next) >= digits_value(pre) * 10) by (nonlinear_arith)
                requires
                    digits_value(next) == digits_value(pre) * 10 + (next.last() - 48),
                    next.last() >= 48,
            ;
            assert(digits_value(pre) * 10 >= digits_value(pre)) by (nonlinear_arith)
                requires
                    digits_value(pre) >= 0,
            ;
        }
        i = i + 1;
    }
    assert(s@.subrange(from as int, i as int) =~= t);
    assert forall|k: int| 0 <= k < t.len() implies is_digit(#[trigger] t[k]) by {
        assert(t[k] == s@[from + k]);
    }
    if over {
        None
    } else {
        Some(acc)
    }
}

/// The `i32` written in `s`: an optional `+` or `-`, then one or more ASCII
/// digits, with a value that fits.
pub fn parse_decimal(s: &[u8]) -> (r: Option<i32>)
    ensures
        r == i32_value(s@),
{
    if s.len() > 0 && (s[0] == 45 || s[0] == 43) {
        let neg = s[0] == 45;
        assert(s@.drop_first() =~= s@.subrange(1, s@.len() as int));
        assert(!is_digit(s@[0]));
        assert(!all_digits(s@));
        match digits_upto_limit(s, 1) {
            Some(v) => if neg {
                Some((-v) as i32)
            } else if v <= i32::MAX as i64 {
                Some(v as i32)
            } else {
                None
            },
            None => None,
        }
    } else {
        assert(s@ =~= s@.subrange(0, s@.len() as int));
        let r = match digits_upto_limit(s, 0) {
            Some(v) => if v <= i32::MAX as i64 {
                Some(v as i32)
            } else {
                None
            },
            None => None,
        };
        proof {
            if s@.len() > 0 && s@[0] == 45 {
                assert(!is_digit(s@[0]));
            }
            if s@.len() > 0 && s@[0] == 43 {
                assert(!is_digit(s@[0]));
            }
        }
        r
    }
}

/// Trailing whitespace, as `str::trim_end` takes it off ASCII text.
pub open spec fn is_space(b: u8) -> bool {
    b == 32 || (9 <= b <= 13)
}

/// `s` without its trailing whitespace.
pub open spec fn trim_end(s: Seq<u8>) -> Seq<u8>
    decreases s.len(),
{
    if s.len() > 0 && is_space(s.last()) {
        trim_end(s.drop_last())
    } else {
        s
    }
}

/// The PID held by a PID-file's contents, read leniently: trailing
/// whitespace is dropped; anything but a decimal `i32` gives `None`.
pub fn parse_pidfile(s: &[u8]) -> (r: Option<i32>)
    ensures
        r == i32_value(trim_end(s@)),
{
    let mut n = s.len();
    assert(s@.subrange(0, n as int) =~= s@);
    while n > 0 && (s[n - 1] == 32 || (9 <= s[n - 1] && s[n - 1] <= 13))
        invariant
            n <= s@.len(),
            trim_end(s@) == trim_end(s@.subrange(0, n as int)),
        decreases n,
    {
        assert(s@.subrange(0, n as int).drop_last() =~= s@.subrange(0, n - 1));
        n = n - 1;
    }
    assert(trim_end(s@.subrange(0, n as int)) == s@.subrange(0, n as int));
    let t = vstd::slice::slice_subrange(s, 0, n);
    parse_decimal(t)
}

} // verus!
