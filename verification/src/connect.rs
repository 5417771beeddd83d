//! The shell side of the relay between zsh and the daemon.
//!
//! The zsh glue writes one tab-separated request line per prompt:
//! `<gen>\t<exit>\t<dur>\t<cwd>\t<cols>\t<keymap>\t<env_meta>`, where
//! `env_meta` holds NUL-separated `KEY=VALUE` pairs. It reads back
//! `<kind>\t<gen>\t<left1>\t<left2>\n` lines, `R` for a render result and
//! `U` for an asynchronous update.
use vstd::prelude::*;
use vstd::slice::slice_subrange;
use vstd::utf8::{decode_utf8, encode_utf8, valid_utf8};

use crate::text::{chars_of, decimal, is_digit, all_digits, digits_value, push_decimal};

verus! {

/// Outcome of comparing this binary's build ID with the running daemon.
#[derive(Debug, Clone, PartialEq, Eq)]
pub enum BuildIdNegotiation {
    /// No local build fingerprint was computed; the daemon is used as is.
    Unchecked { env_var_names: Vec<String> },
    /// The daemon reported a matching build (or no build ID).
    Compatible { env_var_names: Vec<String> },
    /// Malformed or mismatched acknowledgement.
    Incompatible { env_var_names: Vec<String> },
}

impl BuildIdNegotiation {
    /// Environment variable names to forward from the shell on each request.
    pub fn env_var_names(&self) -> (r: &Vec<String>)
        ensures
            r == match *self {
                BuildIdNegotiation::Unchecked { env_var_names } => env_var_names,
                BuildIdNegotiation::Compatible { env_var_names } => env_var_names,
                BuildIdNegotiation::Incompatible { env_var_names } => env_var_names,
            },
    {
        match self {
            BuildIdNegotiation::Unchecked { env_var_names } => env_var_names,
            BuildIdNegotiation::Compatible { env_var_names } => env_var_names,
            BuildIdNegotiation::Incompatible { env_var_names } => env_var_names,
        }
    }

    /// Whether the daemon must be restarted before relaying.
    pub fn needs_daemon_restart(&self) -> (r: bool)
        ensures
            r == (*self is Incompatible),
    {
        match self {
            BuildIdNegotiation::Incompatible { .. } => true,
            _ => false,
        }
    }
}

/// The daemon's acknowledgement of a hello: the build it runs, when it
/// reports one, and the environment variable names to forward.
#[derive(Debug, Clone, PartialEq, Eq)]
pub struct HelloReply {
    /// The daemon's build ID.
    pub build_id: Option<String>,
    /// Environment variable names to forward on each request.
    pub env_var_names: Vec<String>,
}

/// Decides the build-ID handshake. Without a local build ID nothing is
/// checked (and no hello is sent); a reply that is no acknowledgement
/// (`None`) is incompatible; an acknowledgement is compatible when the daemon
/// reports no build ID or the same one as this binary.
pub fn negotiation_outcome(local_build_id: Option<&str>, reply: Option<HelloReply>) -> (r: BuildIdNegotiation)
    ensures
        local_build_id is None ==> (r matches BuildIdNegotiation::Unchecked { env_var_names }
            && env_var_names@.len() == 0),
        local_build_id is Some && reply is None ==> (r matches BuildIdNegotiation::Incompatible { env_var_names }
            && env_var_names@.len() == 0),
        local_build_id matches Some(id) ==> (reply matches Some(h) ==> r == if h.build_id is None
            || h.build_id->0@ == id@ {
            BuildIdNegotiation::Compatible { env_var_names: h.env_var_names }
        } else {
            BuildIdNegotiation::Incompatible { env_var_names: h.env_var_names }
        }),
{
    let id = match local_build_id {
        Some(id) => id,
        None => return BuildIdNegotiation::Unchecked { env_var_names: Vec::new() },
    };
    match reply {
        Some(h) => {
            let compatible = match &h.build_id {
                Some(theirs) => crate::text::str_eq(theirs.as_str(), id),
                None => true,
            };
            if compatible {
                BuildIdNegotiation::Compatible { env_var_names: h.env_var_names }
            } else {
                BuildIdNegotiation::Incompatible { env_var_names: h.env_var_names }
            }
        },
        None => BuildIdNegotiation::Incompatible { env_var_names: Vec::new() },
    }
}

/// Kind of line sent back to the zsh glue.
#[derive(Debug, Clone, Copy, PartialEq, Eq, Structural)]
pub enum ShellTabLineKind {
    /// The response to a request.
    RenderResult,
    /// An asynchronous update after slow modules finished.
    Update,
}

impl ShellTabLineKind {
    /// The line's leading tag: `R` or `U`.
    pub fn as_prefix(self) -> (r: u8)
        ensures
            r == (if self == ShellTabLineKind::RenderResult { 0x52u8 } else { 0x55u8 }),
    {
        match self {
            ShellTabLineKind::RenderResult => 0x52,
            ShellTabLineKind::Update => 0x55,
        }
    }
}

/// The ASCII bytes of a character sequence of ASCII characters.
pub open spec fn ascii_bytes(s: Seq<char>) -> Seq<u8> {
    Seq::new(s.len(), |i: int| s[i] as u8)
}

/// The response line `<kind>\t<gen>\t<left1>\t<left2>\n`.
pub open spec fn tab_response(kind: ShellTabLineKind, generation: u64, left1: Seq<u8>, left2: Seq<u8>) -> Seq<u8> {
    seq![if kind == ShellTabLineKind::RenderResult { 0x52u8 } else { 0x55u8 }, 9u8] + ascii_bytes(
        decimal(generation as nat),
    ) + seq![9u8] + left1 + seq![9u8] + left2 + seq![10u8]
}

fn push_bytes(buf: &mut Vec<u8>, b: &[u8])
    ensures
        final(buf)@ == old(buf)@ + b@,
{
    let mut i: usize = 0;
    while i < b.len()
        invariant
            i <= b.len(),
            buf@ == old(buf)@ + b@.take(i as int),
        decreases b.len() - i,
    {
        buf.push(b[i]);
        i = i + 1;
        assert(b@.take(i as int) =~= b@.take((i - 1) as int).push(b@[i - 1]));
    }
    assert(b@.take(b.len() as int) =~= b@);
}

proof fn lemma_decimal_ascii(n: nat)
    ensures
        forall|i: int| 0 <= i < decimal(n).len() ==> (decimal(n)[i] as u32) < 128,
    decreases n,
{
    if n >= 10 {
        lemma_decimal_ascii(n / 10);
        assert forall|i: int| 0 <= i < decimal(n).len() implies (decimal(n)[i] as u32) < 128 by {
            if i < decimal(n / 10).len() {
                assert(decimal(n)[i] == decimal(n / 10)[i]);
            }
        }
    }
}

/// Writes the response line for the zsh glue into `buf` (replacing its content).
pub fn format_tab_response(buf: &mut Vec<u8>, kind: ShellTabLineKind, generation: u64, left1: &str, left2: &str)
    ensures
        final(buf)@ == tab_response(kind, generation, encode_utf8(left1@), encode_utf8(left2@)),
{
    buf.clear();
    buf.push(kind.as_prefix());
    buf.push(9);
    let mut digits: Vec<char> = Vec::new();
    push_decimal(&mut digits, generation);
    assert(digits@ =~= decimal(generation as nat));
    proof {
        lemma_decimal_ascii(generation as nat);
    }
    let ghost start = buf@;
    let mut i: usize = 0;
    while i < digits.len()
        invariant
            i <= digits.len(),
            digits@ == decimal(generation as nat),
            forall|k: int| 0 <= k < digits@.len() ==> (digits@[k] as u32) < 128,
            buf@ == start + ascii_bytes(digits@.take(i as int)),
        decreases digits.len() - i,
    {
        let c = digits[i];
        buf.push(c as u8);
        i = i + 1;
        assert(ascii_bytes(digits@.take(i as int)) =~= ascii_bytes(digits@.take((i - 1) as int)).push(
            digits@[i - 1] as u8,
        ));
    }
    assert(digits@.take(digits.len() as int) =~= digits@);
    buf.push(9);
    push_bytes(buf, left1.as_bytes());
    buf.push(9);
    push_bytes(buf, left2.as_bytes());
    buf.push(10);
    assert(buf@ =~= tab_response(kind, generation, encode_utf8(left1@), encode_utf8(left2@)));
}

/// Decodes UTF-8 with `std::str::from_utf8`: the text when the bytes are
/// valid UTF-8, else nothing (as the function's documentation states).
#[verifier::external_body]
fn utf8_text(bytes: &[u8]) -> (r: Option<String>)
    ensures
        match r {
            Some(s) => valid_utf8(bytes@) && s@ == decode_utf8(bytes@),
            None => !valid_utf8(bytes@),
        },
{
    std::str::from_utf8(bytes).ok().map(|s| s.to_owned())
}

/// The text of UTF-8 bytes, or `None` when they are not valid UTF-8.
pub open spec fn utf8_spec(b: Seq<u8>) -> Option<Seq<char>> {
    if valid_utf8(b) { Some(decode_utf8(b)) } else { None }
}

/// The `KEY=VALUE` pair of one part of the environment field: split at the
/// first `=`, kept only when both sides are valid UTF-8.
pub open spec fn env_pair(part: Seq<u8>) -> Option<(Seq<char>, Seq<char>)> {
    let eq = first_index(part, 0x3d);
    if eq < 0 {
        None
    } else {
        match (utf8_spec(part.take(eq)), utf8_spec(part.skip(eq + 1))) {
            (Some(k), Some(v)) => Some((k, v)),
            _ => None,
        }
    }
}

/// The index of the first byte `b` in `s` from index `i` on, or -1.
pub open spec fn first_index_from(s: Seq<u8>, b: u8, i: int) -> int
    decreases s.len() - i,
{
    if i < 0 || i >= s.len() {
        -1
    } else if s[i] == b {
        i
    } else {
        first_index_from(s, b, i + 1)
    }
}

/// The index of the first byte `b` in `s`, or -1.
pub open spec fn first_index(s: Seq<u8>, b: u8) -> int {
    first_index_from(s, b, 0)
}

/// The NUL-separated parts of `meta` from index `i` on, as pairs.
pub open spec fn env_pairs_from(meta: Seq<u8>, i: int) -> Seq<(Seq<char>, Seq<char>)>
    decreases meta.len() - i,
{
    if i < 0 || i > meta.len() {
        Seq::empty()
    } else {
        let z = first_index_from(meta, 0u8, i);
        let end = if z < 0 { meta.len() as int } else { z };
        let here = match env_pair(meta.subrange(i, end)) {
            Some(p) => seq![p],
            None => Seq::empty(),
        };
        if z < i || z >= meta.len() {
            here
        } else {
            here + env_pairs_from(meta, z + 1)
        }
    }
}

/// The variables of the environment field: nothing when it is empty, else
/// each NUL-separated `KEY=VALUE` part in order (parts without `=`, or not
/// valid UTF-8, are dropped).
pub open spec fn env_meta_spec(meta: Seq<u8>) -> Seq<(Seq<char>, Seq<char>)> {
    if meta.len() == 0 { Seq::empty() } else { env_pairs_from(meta, 0) }
}

/// The views of a list of string pairs.
pub open spec fn pairs_view(v: Seq<(String, String)>) -> Seq<(Seq<char>, Seq<char>)> {
    Seq::new(v.len(), |i: int| (v[i].0@, v[i].1@))
}

proof fn lemma_first_index_from(s: Seq<u8>, b: u8, i: int)
    requires
        0 <= i,
    ensures
        first_index_from(s, b, i) == -1 || (i <= first_index_from(s, b, i) < s.len() && s[first_index_from(
            s,
            b,
            i,
        )] == b),
        forall|k: int|
            i <= k < s.len() && (first_index_from(s, b, i) == -1 || k < first_index_from(s, b, i)) ==> s[k] != b,
    decreases s.len() - i,
{
    if i < s.len() && s[i] != b {
        lemma_first_index_from(s, b, i + 1);
    }
}

fn find_byte(s: &[u8], b: u8, i: usize) -> (r: Option<usize>)
    requires
        i <= s.len(),
    ensures
        match r {
            Some(k) => k as int == first_index_from(s@, b, i as int),
            None => first_index_from(s@, b, i as int) == -1,
        },
{
    let mut k = i;
    while k < s.len()
        invariant
            i <= k <= s.len(),
            first_index_from(s@, b, i as int) == first_index_from(s@, b, k as int),
        decreases s.len() - k,
    {
        if s[k] == b {
            return Some(k);
        }
        k = k + 1;
    }
    None
}

fn parse_env_pair(part: &[u8]) -> (r: Option<(String, String)>)
    ensures
        match r {
            Some((k, v)) => env_pair(part@) == Some((k@, v@)),
            None => env_pair(part@) is None,
        },
{
    let eq = match find_byte(part, 0x3d, 0) {
        Some(e) => e,
        None => return None,
    };
    proof {
        lemma_first_index_from(part@, 0x3d, 0);
    }
    assert(eq < part.len());
    let key = utf8_text(slice_subrange(part, 0, eq));
    let value = utf8_text(slice_subrange(part, eq + 1, part.len()));
    assert(part@.subrange(0, eq as int) =~= part@.take(eq as int));
    assert(part@.subrange(eq + 1, part@.len() as int) =~= part@.skip(eq + 1));
    match (key, value) {
        (Some(k), Some(v)) => Some((k, v)),
        _ => None,
    }
}

/// Parses the NUL-separated `KEY=VALUE` pairs of the environment field.
pub fn parse_env_meta(meta: &[u8]) -> (r: Vec<(String, String)>)
    ensures
        pairs_view(r@) == env_meta_spec(meta@),
{
    let mut vars: Vec<(String, String)> = Vec::new();
    if meta.len() == 0 {
        assert(pairs_view(vars@) =~= Seq::<(Seq<char>, Seq<char>)>::empty());
        return vars;
    }
    let mut i: usize = 0;
    let ghost mut done: Seq<(Seq<char>, Seq<char>)> = Seq::empty();
    assert(pairs_view(vars@) =~= done);
    loop
        invariant
            i <= meta.len(),
            meta.len() > 0,
            pairs_view(vars@) == done,
            env_meta_spec(meta@) == done + env_pairs_from(meta@, i as int),
        decreases meta.len() - i,
    {
        let z = find_byte(meta, 0, i);
        proof {
            lemma_first_index_from(meta@, 0, i as int);
        }
        let end = match z {
            Some(k) => k,
            None => meta.len(),
        };
        let part = slice_subrange(meta, i, end);
        let ghost here = match env_pair(meta@.subrange(i as int, end as int)) {
            Some(p) => seq![p],
            None => Seq::empty(),
        };
        match parse_env_pair(part) {
            Some(p) => {
                let ghost pv = (p.0@, p.1@);
                vars.push(p);
                proof {
                    assert(pairs_view(vars@) =~= done.push(pv));
                    done = done.push(pv);
                }
            },
            None => {},
        }
        proof {
            assert(pairs_view(vars@) == done);
        }
        match z {
            Some(k) => {
                proof {
                    assert(env_pairs_from(meta@, i as int) == here + env_pairs_from(meta@, k + 1));
                }
                i = k + 1;
                assert(env_meta_spec(meta@) == done + env_pairs_from(meta@, i as int));
            },
            None => {
                proof {
                    assert(env_pairs_from(meta@, i as int) == here);
                }
                assert(env_meta_spec(meta@) =~= done);
                return vars;
            },
        }
    }
}

/// What `str::parse` accepts for an unsigned integer type with maximum
/// `max`: an optional `+`, then decimal digits whose value is at most `max`.
pub open spec fn parse_uint_spec(s: Seq<char>, max: nat) -> Option<nat> {
    let d = if s.len() > 0 && s[0] == '+' { s.drop_first() } else { s };
    if d.len() == 0 || !all_digits(d) || digits_value(d) > max {
        None
    } else {
        Some(digits_value(d))
    }
}

/// What `str::parse::<i32>` accepts: an optional sign, then decimal digits
/// whose signed value fits.
pub open spec fn parse_i32_spec(s: Seq<char>) -> Option<int> {
    if s.len() > 0 && s[0] == '-' {
        let d = s.drop_first();
        if d.len() == 0 || !all_digits(d) || digits_value(d) > 0x8000_0000 {
            None
        } else {
            Some(-digits_value(d))
        }
    } else {
        match parse_uint_spec(s, 0x7fff_ffff) {
            Some(v) => Some(v as int),
            None => None,
        }
    }
}

proof fn lemma_digits_prefix(d: Seq<char>, i: int)
    requires
        0 <= i <= d.len(),
    ensures
        digits_value(d.take(i)) <= digits_value(d),
    decreases d.len() - i,
{
    if i < d.len() {
        lemma_digits_prefix(d, i + 1);
        assert(d.take(i + 1).drop_last() =~= d.take(i));
    } else {
        assert(d.take(i) =~= d);
    }
}

/// The value of the digits `s[from..]`, when they are one or more decimal
/// digits worth at most `max`.
fn parse_digits(s: &[char], from: usize, max: u64) -> (r: Option<u64>)
    requires
        from <= s.len(),
    ensures
        ({
            let d = s@.skip(from as int);
            match r {
                Some(v) => d.len() > 0 && all_digits(d) && digits_value(d) <= max && v == digits_value(d),
                None => d.len() == 0 || !all_digits(d) || digits_value(d) > max,
            }
        }),
{
    let ghost d = s@.skip(from as int);
    if from >= s.len() {
        return None;
    }
    let mut v: u64 = 0;
    let mut i: usize = from;
    while i < s.len()
        invariant
            from <= i <= s.len(),
            from < s.len(),
            d == s@.skip(from as int),
            v == digits_value(d.take(i - from)),
            v <= max,
            forall|k: int| 0 <= k < i - from ==> is_digit(#[trigger] d[k]),
        decreases s.len() - i,
    {
        let c = s[i];
        let u = c as u32;
        assert(d[i - from] == c);
        if !(0x30 <= u && u <= 0x39) {
            assert(!is_digit(d[i - from]));
            return None;
        }
        let dv: u64 = (u - 0x30) as u64;
        assert(d.take(i - from + 1).drop_last() =~= d.take(i - from));
        assert(d.take(i - from + 1).last() == c);
        assert(digits_value(d.take(i - from + 1)) == v * 10 + dv);
        if dv > max || v > (max - dv) / 10 {
            proof {
                if dv <= max {
                    assert(v * 10 + dv > max) by (nonlinear_arith)
                        requires
                            v > (max - dv) / 10,
                            dv <= max,
                    ;
                }
                lemma_digits_prefix(d, i - from + 1);
            }
            return None;
        }
        proof {
            assert(v * 10 + dv <= max) by (nonlinear_arith)
                requires
                    v <= (max - dv) / 10,
                    dv <= max,
            ;
        }
        v = v * 10 + dv;
        i = i + 1;
    }
    assert(d.take(i - from) =~= d);
    Some(v)
}

/// Parses an unsigned integer at most `max`, as `str::parse` does.
pub fn parse_uint(s: &[char], max: u64) -> (r: Option<u64>)
    ensures
        match r {
            Some(v) => parse_uint_spec(s@, max as nat) == Some(v as nat),
            None => parse_uint_spec(s@, max as nat) is None,
        },
{
    let from: usize = if s.len() > 0 && s[0] == '+' { 1 } else { 0 };
    assert(s@.skip(from as int) =~= (if s@.len() > 0 && s@[0] == '+' { s@.drop_first() } else { s@ }));
    parse_digits(s, from, max)
}

/// Parses an `i32`, as `str::parse` does.
pub fn parse_i32(s: &[char]) -> (r: Option<i32>)
    ensures
        match r {
            Some(v) => parse_i32_spec(s@) == Some(v as int),
            None => parse_i32_spec(s@) is None,
        },
{
    if s.len() > 0 && s[0] == '-' {
        assert(s@.skip(1) =~= s@.drop_first());
        match parse_digits(s, 1, 0x8000_0000) {
            Some(v) => {
                if v == 0x8000_0000 {
                    Some(i32::MIN)
                } else {
                    Some(-(v as i32))
                }
            },
            None => None,
        }
    } else {
        match parse_uint(s, 0x7fff_ffff) {
            Some(v) => Some(v as i32),
            None => None,
        }
    }
}

/// A field of the request line.
#[derive(Debug, Clone, Copy, PartialEq, Eq, Structural)]
pub enum RequestField {
    Generation,
    LastExitCode,
    DurationMs,
    Cwd,
    Cols,
    Keymap,
}

/// The name of a field in error messages.
pub open spec fn field_name(f: RequestField) -> Seq<char> {
    match f {
        RequestField::Generation => "generation"@,
        RequestField::LastExitCode => "last_exit_code"@,
        RequestField::DurationMs => "duration_ms"@,
        RequestField::Cwd => "cwd"@,
        RequestField::Cols => "cols"@,
        RequestField::Keymap => "keymap"@,
    }
}

impl RequestField {
    /// The name of this field in error messages.
    pub fn name(&self) -> (r: &'static str)
        ensures
            r@ == field_name(*self),
    {
        match self {
            RequestField::Generation => "generation",
            RequestField::LastExitCode => "last_exit_code",
            RequestField::DurationMs => "duration_ms",
            RequestField::Cwd => "cwd",
            RequestField::Cols => "cols",
            RequestField::Keymap => "keymap",
        }
    }
}

/// Why a request line is rejected.
#[derive(Debug, Clone, PartialEq, Eq)]
pub enum ShellRequestError {
    /// Fewer than seven tab-separated fields (the number found).
    FieldCount(usize),
    /// A field is not valid UTF-8.
    NotUtf8(RequestField),
    /// A numeric field does not parse (with its text).
    Invalid(RequestField, String),
}

/// A prompt request from the shell.
#[derive(Debug, Clone, PartialEq, Eq)]
pub struct ShellRequest {
    /// The shell session.
    pub session_id: u64,
    /// The prompt generation (increasing per session).
    pub generation: u64,
    /// Working directory.
    pub cwd: String,
    /// Terminal width.
    pub cols: u16,
    /// Exit code of the last command.
    pub last_exit_code: i32,
    /// Duration of the last command, when measured.
    pub duration_ms: Option<u64>,
    /// Current zle keymap.
    pub keymap: String,
    /// Forwarded environment variables.
    pub env_vars: Vec<(String, String)>,
}

/// The positions of the first `n` tabs from index `i` on.
pub open spec fn tabs_from(line: Seq<u8>, i: int, n: nat) -> Seq<int>
    decreases n,
{
    if n == 0 {
        Seq::empty()
    } else {
        let t = first_index_from(line, 9, i);
        if t < 0 {
            Seq::empty()
        } else {
            seq![t] + tabs_from(line, t + 1, (n - 1) as nat)
        }
    }
}

/// The mathematical content of a parsed request.
pub struct RequestModel {
    pub generation: u64,
    pub last_exit_code: i32,
    pub duration_ms: Option<u64>,
    pub cwd: Seq<char>,
    pub cols: u16,
    pub keymap: Seq<char>,
    pub env_vars: Seq<(Seq<char>, Seq<char>)>,
}

/// The mathematical content of a rejection.
pub enum RequestErrorModel {
    FieldCount(nat),
    NotUtf8(RequestField),
    Invalid(RequestField, Seq<char>),
}

/// The text of a field, or why it is not valid UTF-8.
pub open spec fn text_field(b: Seq<u8>, f: RequestField) -> Result<Seq<char>, RequestErrorModel> {
    match utf8_spec(b) {
        Some(t) => Ok(t),
        None => Err(RequestErrorModel::NotUtf8(f)),
    }
}

/// An unsigned numeric field at most `max`, or why it is rejected.
pub open spec fn uint_field(b: Seq<u8>, f: RequestField, max: nat) -> Result<nat, RequestErrorModel> {
    match utf8_spec(b) {
        Some(t) => match parse_uint_spec(t, max) {
            Some(v) => Ok(v),
            None => Err(RequestErrorModel::Invalid(f, t)),
        },
        None => Err(RequestErrorModel::NotUtf8(f)),
    }
}

/// The exit code field, or why it is rejected.
pub open spec fn exit_field(b: Seq<u8>) -> Result<int, RequestErrorModel> {
    match utf8_spec(b) {
        Some(t) => match parse_i32_spec(t) {
            Some(v) => Ok(v),
            None => Err(RequestErrorModel::Invalid(RequestField::LastExitCode, t)),
        },
        None => Err(RequestErrorModel::NotUtf8(RequestField::LastExitCode)),
    }
}

/// What a request line parses to: seven tab-separated fields (the last one,
/// the environment, may itself hold tabs), checked in order.
pub open spec fn parse_request_spec(line: Seq<u8>) -> Result<RequestModel, RequestErrorModel> {
    let t = tabs_from(line, 0, 6);
    if t.len() != 6 {
        Err(RequestErrorModel::FieldCount(t.len() + 1))
    } else {
        let f_gen = line.subrange(0, t[0]);
        let f_exit = line.subrange(t[0] + 1, t[1]);
        let f_dur = line.subrange(t[1] + 1, t[2]);
        let f_cwd = line.subrange(t[2] + 1, t[3]);
        let f_cols = line.subrange(t[3] + 1, t[4]);
        let f_keymap = line.subrange(t[4] + 1, t[5]);
        let f_env = line.subrange(t[5] + 1, line.len() as int);
        match uint_field(f_gen, RequestField::Generation, u64::MAX as nat) {
            Err(e) => Err(e),
            Ok(generation) => match exit_field(f_exit) {
                Err(e) => Err(e),
                Ok(exit) => match (if f_dur.len() == 0 { Ok(None) } else {
                    match uint_field(f_dur, RequestField::DurationMs, u64::MAX as nat) {
                        Ok(v) => Ok(Some(v as u64)),
                        Err(e) => Err(e),
                    }
                }) {
                    Err(e) => Err(e),
                    Ok(duration_ms) => match text_field(f_cwd, RequestField::Cwd) {
                        Err(e) => Err(e),
                        Ok(cwd) => match uint_field(f_cols, RequestField::Cols, u16::MAX as nat) {
                            Err(e) => Err(e),
                            Ok(cols) => match text_field(f_keymap, RequestField::Keymap) {
                                Err(e) => Err(e),
                                Ok(keymap) => Ok(
                                    RequestModel {
                                        generation: generation as u64,
                                        last_exit_code: exit as i32,
                                        duration_ms,
                                        cwd,
                                        cols: cols as u16,
                                        keymap,
                                        env_vars: env_meta_spec(f_env),
                                    },
                                ),
                            },
                        },
                    },
                },
            },
        }
    }
}

/// The model of a parsed request.
pub open spec fn request_model(r: ShellRequest) -> RequestModel {
    RequestModel {
        generation: r.generation,
        last_exit_code: r.last_exit_code,
        duration_ms: r.duration_ms,
        cwd: r.cwd@,
        cols: r.cols,
        keymap: r.keymap@,
        env_vars: pairs_view(r.env_vars@),
    }
}

/// The model of a rejection.
pub open spec fn error_model(e: ShellRequestError) -> RequestErrorModel {
    match e {
        ShellRequestError::FieldCount(n) => RequestErrorModel::FieldCount(n as nat),
        ShellRequestError::NotUtf8(f) => RequestErrorModel::NotUtf8(f),
        ShellRequestError::Invalid(f, t) => RequestErrorModel::Invalid(f, t@),
    }
}

fn field_text(b: &[u8], f: RequestField) -> (r: Result<String, ShellRequestError>)
    ensures
        match r {
            Ok(t) => text_field(b@, f) == Ok::<Seq<char>, RequestErrorModel>(t@),
            Err(e) => text_field(b@, f) == Err::<Seq<char>, RequestErrorModel>(error_model(e)),
        },
{
    match utf8_text(b) {
        Some(t) => Ok(t),
        None => Err(ShellRequestError::NotUtf8(f)),
    }
}

fn field_uint(b: &[u8], f: RequestField, max: u64) -> (r: Result<u64, ShellRequestError>)
    ensures
        match r {
            Ok(v) => uint_field(b@, f, max as nat) == Ok::<nat, RequestErrorModel>(v as nat),
            Err(e) => uint_field(b@, f, max as nat) == Err::<nat, RequestErrorModel>(error_model(e)),
        },
{
    let t = match utf8_text(b) {
        Some(t) => t,
        None => return Err(ShellRequestError::NotUtf8(f)),
    };
    let cs = chars_of(t.as_str());
    match parse_uint(cs.as_slice(), max) {
        Some(v) => Ok(v),
        None => Err(ShellRequestError::Invalid(f, t)),
    }
}

fn field_exit(b: &[u8]) -> (r: Result<i32, ShellRequestError>)
    ensures
        match r {
            Ok(v) => exit_field(b@) == Ok::<int, RequestErrorModel>(v as int),
            Err(e) => exit_field(b@) == Err::<int, RequestErrorModel>(error_model(e)),
        },
{
    let t = match utf8_text(b) {
        Some(t) => t,
        None => return Err(ShellRequestError::NotUtf8(RequestField::LastExitCode)),
    };
    let cs = chars_of(t.as_str());
    match parse_i32(cs.as_slice()) {
        Some(v) => Ok(v),
        None => Err(ShellRequestError::Invalid(RequestField::LastExitCode, t)),
    }
}

/// Parses a request line from the shell.
pub fn parse_shell_request(line: &[u8], session_id: u64) -> (r: Result<ShellRequest, ShellRequestError>)
    ensures
        match r {
            Ok(req) => req.session_id == session_id && parse_request_spec(line@) == Ok::<
                RequestModel,
                RequestErrorModel,
            >(request_model(req)),
            Err(e) => parse_request_spec(line@) == Err::<RequestModel, RequestErrorModel>(error_model(e)),
        },
{
    let mut tabs: Vec<usize> = Vec::new();
    let mut from: usize = 0;
    let ghost mut rest_spec: Seq<int> = tabs_from(line@, 0, 6);
    while tabs.len() < 6
        invariant
            tabs@.len() <= 6,
            from <= line.len(),
            forall|k: int| 0 <= k < tabs@.len() ==> tabs@[k] < line@.len(),
            tabs@.len() > 0 ==> from == tabs@.last() + 1,
            tabs_from(line@, 0, 6) == Seq::new(tabs@.len(), |k: int| tabs@[k] as int) + tabs_from(
                line@,
                from as int,
                (6 - tabs@.len()) as nat,
            ),
            forall|a: int, b: int| 0 <= a < b < tabs@.len() ==> tabs@[a] < tabs@[b],
        decreases 6 - tabs@.len(),
    {
        let ghost before = tabs@;
        proof {
            lemma_first_index_from(line@, 9, from as int);
        }
        match find_byte(line, 9, from) {
            Some(t) => {
                tabs.push(t);
                from = t + 1;
                assert(Seq::new(tabs@.len(), |k: int| tabs@[k] as int) =~= Seq::new(before.len(), |k: int| before[k] as int).push(t as int));
            },
            None => {
                let n = tabs.len();
                assert(tabs_from(line@, from as int, (6 - n) as nat) =~= Seq::<int>::empty());
                assert(tabs_from(line@, 0, 6).len() == n);
                return Err(ShellRequestError::FieldCount(n + 1));
            },
        }
    }
    assert(tabs_from(line@, 0, 6) =~= Seq::new(6, |k: int| tabs@[k] as int));
    let t0 = tabs[0];
    let t1 = tabs[1];
    let t2 = tabs[2];
    let t3 = tabs[3];
    let t4 = tabs[4];
    let t5 = tabs[5];
    let generation = match field_uint(slice_subrange(line, 0, t0), RequestField::Generation, u64::MAX) {
        Ok(v) => v,
        Err(e) => return Err(e),
    };
    let last_exit_code = match field_exit(slice_subrange(line, t0 + 1, t1)) {
        Ok(v) => v,
        Err(e) => return Err(e),
    };
    let f_dur = slice_subrange(line, t1 + 1, t2);
    let duration_ms = if f_dur.len() == 0 {
        None
    } else {
        match field_uint(f_dur, RequestField::DurationMs, u64::MAX) {
            Ok(v) => Some(v),
            Err(e) => return Err(e),
        }
    };
    let cwd = match field_text(slice_subrange(line, t2 + 1, t3), RequestField::Cwd) {
        Ok(v) => v,
        Err(e) => return Err(e),
    };
    let cols = match field_uint(slice_subrange(line, t3 + 1, t4), RequestField::Cols, 0xffff) {
        Ok(v) => v as u16,
        Err(e) => return Err(e),
    };
    let keymap = match field_text(slice_subrange(line, t4 + 1, t5), RequestField::Keymap) {
        Ok(v) => v,
        Err(e) => return Err(e),
    };
    let env_vars = parse_env_meta(slice_subrange(line, t5 + 1, line.len()));
    Ok(ShellRequest { session_id, generation, cwd, cols, last_exit_code, duration_ms, keymap, env_vars })
}

/// Kinds of I/O error that the relay distinguishes.
#[derive(Debug, Clone, Copy, PartialEq, Eq, Structural)]
pub enum IoErrorKind {
    BrokenPipe,
    ConnectionReset,
    ConnectionAborted,
    NotConnected,
    Other,
}

/// Whether an I/O error means the socket peer went away (so the relay reconnects).
pub fn is_socket_error(kind: IoErrorKind) -> (r: bool)
    ensures
        r == (kind != IoErrorKind::Other),
{
    match kind {
        IoErrorKind::BrokenPipe | IoErrorKind::ConnectionReset | IoErrorKind::ConnectionAborted
        | IoErrorKind::NotConnected => true,
        IoErrorKind::Other => false,
    }
}

/// How many times the relay tries to reach the daemon again before it gives up.
pub const MAX_RETRIES: u32 = 10;

/// How a relay session with the daemon ended.
#[derive(Debug, Clone, Copy, PartialEq, Eq, Structural)]
pub enum SessionEnd {
    /// The shell closed its end of the pipe.
    ShellClosed,
    /// The daemon closed the connection.
    DaemonClosed,
    /// Relaying failed with an error of the given kind (`Other` for errors
    /// that are not about the socket).
    Failed(IoErrorKind),
}

/// What the relay does next.
#[derive(Debug, Clone, Copy, PartialEq, Eq, Structural)]
pub enum RelayAction {
    /// Relay requests over the new connection.
    Relay,
    /// Wait, make sure the daemon runs, and connect again.
    Reconnect,
    /// Stop relaying without error.
    Stop,
    /// Stop relaying with the error.
    Fail,
}

/// Decides after an attempt to connect, given the retries used so far: a
/// connection resets the count; a failure is retried until the retries run
/// out, then reported. Returns the action and the new count.
pub fn after_connect(retries: u32, connected: bool) -> (r: (RelayAction, u32))
    ensures
        connected ==> r == (RelayAction::Relay, 0u32),
        !connected && retries >= MAX_RETRIES ==> r == (RelayAction::Fail, retries),
        !connected && retries < MAX_RETRIES ==> r == (RelayAction::Reconnect, (retries + 1) as u32),
{
    if connected {
        (RelayAction::Relay, 0)
    } else if retries >= MAX_RETRIES {
        (RelayAction::Fail, retries)
    } else {
        (RelayAction::Reconnect, retries + 1)
    }
}

/// Decides after a relay session ended: the shell closing ends the relay; an
/// error that is not about the socket is reported; otherwise (the daemon went
/// away) the relay reconnects until the retries run out, then stops.
pub fn after_session(retries: u32, end: SessionEnd) -> (r: (RelayAction, u32))
    requires
        retries < u32::MAX,
    ensures
        end == SessionEnd::ShellClosed ==> r == (RelayAction::Stop, retries),
        end == SessionEnd::Failed(IoErrorKind::Other) ==> r == (RelayAction::Fail, retries),
        (end == SessionEnd::DaemonClosed || (end matches SessionEnd::Failed(k) && k != IoErrorKind::Other)) ==> r == (
        if retries + 1 >= MAX_RETRIES {
            RelayAction::Stop
        } else {
            RelayAction::Reconnect
        },
        (retries + 1) as u32,
        ),
{
    match end {
        SessionEnd::ShellClosed => (RelayAction::Stop, retries),
        SessionEnd::Failed(kind) => {
            if !is_socket_error(kind) {
                return (RelayAction::Fail, retries);
            }
            let n = retries + 1;
            if n >= MAX_RETRIES {
                (RelayAction::Stop, n)
            } else {
                (RelayAction::Reconnect, n)
            }
        },
        SessionEnd::DaemonClosed => {
            let n = retries + 1;
            if n >= MAX_RETRIES {
                (RelayAction::Stop, n)
            } else {
                (RelayAction::Reconnect, n)
            }
        },
    }
}

} // verus!
