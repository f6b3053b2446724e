//! The golden fixture text format: a fixture's configuration, agents,
//! runtime states and requests, with every `f32` written as its bit pattern
//! in hexadecimal. The records here hold those bit patterns, so a fixture
//! is written and read back exactly.
use vstd::prelude::*;
use vstd::string::*;
use crate::text::{decimal, digit_char, digit_str, is_blank, is_blank_str, is_whitespace_char, push_decimal, push_text, spec_is_whitespace, str_eq};
use crate::types::{AgentLabels, DEFAULT_DIM};
use crate::config::{all_digits, digits_value, lemma_digits_value_grows, trim, trim_text};
use crate::loom_projection::{concat_map, lemma_concat_map_step};

verus! {

/// The shape and seed of a synthetic routing fixture.
#[derive(Clone, Copy, Debug, PartialEq, Eq, Structural)]
pub struct FixtureConfig {
    pub agent_count: usize,
    pub task_count: usize,
    pub dimensions: usize,
    pub k: usize,
    pub seed: u64,
}

impl Default for FixtureConfig {
    /// The benchmark's fixture: 128 agents, 32 tasks, the default width, k of 8.
    fn default() -> (r: Self)
        ensures
            r == (FixtureConfig {
                agent_count: 128,
                task_count: 32,
                dimensions: DEFAULT_DIM,
                k: 8,
                seed: 0x5154_4f4d,
            }),
    {
        FixtureConfig { agent_count: 128, task_count: 32, dimensions: DEFAULT_DIM, k: 8, seed: 0x5154_4f4d }
    }
}

/// An agent of a fixture, its vector as `f32` bit patterns.
#[derive(Clone, Debug, PartialEq, Eq)]
pub struct GoldenAgent {
    pub id: u32,
    pub labels: AgentLabels,
    pub vector_bits: Vec<u32>,
}

/// An agent's runtime state, its norms as `f32` bit patterns.
#[derive(Clone, Copy, Debug, PartialEq, Eq, Structural)]
pub struct GoldenState {
    pub queue_depth_bits: u32,
    pub latency_bits: u32,
    pub cache_pressure_bits: u32,
    pub availability: u32,
}

/// A routing request of a fixture, its radius and vector as `f32` bit patterns.
#[derive(Clone, Debug, PartialEq, Eq)]
pub struct GoldenRequest {
    pub task_id: u64,
    pub k: usize,
    pub fallback_generalist_id: u32,
    pub radius_bits: u32,
    pub vector_bits: Vec<u32>,
}

/// A fixture as the golden format stores it.
#[derive(Clone, Debug, PartialEq, Eq)]
pub struct GoldenRecords {
    pub config: FixtureConfig,
    pub agents: Vec<GoldenAgent>,
    pub states: Vec<GoldenState>,
    pub requests: Vec<GoldenRequest>,
}

/// Why a golden fixture text was refused: the line (0 for the fixture's
/// overall shape) and what was wrong.
#[derive(Clone, Debug, PartialEq, Eq)]
pub struct GoldenFormatError {
    pub line: usize,
    pub message: String,
}

/// `std::io::Error`, carried opaque in the error of a fixture file that
/// could not be read or written.
#[verifier::external_type_specification]
#[verifier::external_body]
pub struct ExIoError(std::io::Error);

/// Why reading or writing a golden fixture failed: the file could not be
/// read or written, or its text was refused at a line (0 for a fixture
/// whose shape does not match its configuration).
#[derive(Debug)]
pub enum GoldenFixtureError {
    Io(std::io::Error),
    Format { line: usize, message: String },
}

/// The text `std::io::Error` displays. Nothing is stated of it: it comes
/// from the operating system.
#[verifier::external_body]
fn io_error_text(error: &std::io::Error) -> String {
    format!("{error}")
}

impl GoldenFixtureError {
    /// The error's message; for a refused text, the line and the reason.
    pub fn to_string(&self) -> (r: String)
        ensures
            self matches GoldenFixtureError::Format { line, message } ==> r@
                == "golden fixture parse error on line "@ + decimal(line as nat) + ": "@ + message@,
    {
        match self {
            GoldenFixtureError::Io(error) => io_error_text(error),
            GoldenFixtureError::Format { line, message } => {
                let mut out = String::new();
                push_text(&mut out, "golden fixture parse error on line ");
                push_decimal(&mut out, *line as u64);
                push_text(&mut out, ": ");
                push_text(&mut out, message.as_str());
                out
            },
        }
    }
}

/// The error for a refused text.
fn format_error(e: GoldenFormatError) -> (r: GoldenFixtureError)
    ensures
        r matches GoldenFixtureError::Format { line, message } && line == e.line && message@ == e.message@,
{
    GoldenFixtureError::Format { line: e.line, message: e.message }
}

/// An agent with its vector as a sequence.
pub struct GoldenAgentView {
    pub id: u32,
    pub labels: AgentLabels,
    pub vector_bits: Seq<u32>,
}

/// A request with its vector as a sequence.
pub struct GoldenRequestView {
    pub task_id: u64,
    pub k: usize,
    pub fallback_generalist_id: u32,
    pub radius_bits: u32,
    pub vector_bits: Seq<u32>,
}

/// A fixture with its lists as sequences.
pub struct GoldenRecordsView {
    pub config: FixtureConfig,
    pub agents: Seq<GoldenAgentView>,
    pub states: Seq<GoldenState>,
    pub requests: Seq<GoldenRequestView>,
}

impl View for GoldenAgent {
    type V = GoldenAgentView;

    open spec fn view(&self) -> GoldenAgentView {
        GoldenAgentView { id: self.id, labels: self.labels, vector_bits: self.vector_bits@ }
    }
}

impl View for GoldenRequest {
    type V = GoldenRequestView;

    open spec fn view(&self) -> GoldenRequestView {
        GoldenRequestView {
            task_id: self.task_id,
            k: self.k,
            fallback_generalist_id: self.fallback_generalist_id,
            radius_bits: self.radius_bits,
            vector_bits: self.vector_bits@,
        }
    }
}

impl View for GoldenRecords {
    type V = GoldenRecordsView;

    open spec fn view(&self) -> GoldenRecordsView {
        GoldenRecordsView {
            config: self.config,
            agents: self.agents@.map_values(|a: GoldenAgent| a@),
            states: self.states@,
            requests: self.requests@.map_values(|r: GoldenRequest| r@),
        }
    }
}

/// Reading `s` line by line, lines separated by `'\n'`: the finished lines
/// and the line still being read.
pub open spec fn line_scan(s: Seq<char>) -> (Seq<Seq<char>>, Seq<char>)
    decreases s.len(),
{
    if s.len() == 0 {
        (Seq::empty(), Seq::empty())
    } else {
        let prev = line_scan(s.drop_last());
        if s.last() == '\n' {
            (prev.0.push(prev.1), Seq::empty())
        } else {
            (prev.0, prev.1.push(s.last()))
        }
    }
}

/// The lines of `s`: separated by `'\n'`, with no empty line after a final
/// `'\n'` (a line's trailing `'\r'` is white space, which reading trims).
pub open spec fn text_lines(s: Seq<char>) -> Seq<Seq<char>> {
    if line_scan(s).1.len() > 0 {
        line_scan(s).0.push(line_scan(s).1)
    } else {
        line_scan(s).0
    }
}

/// The lines of `lines` that are not blank, each with its line number.
pub open spec fn numbered_nonblank(lines: Seq<Seq<char>>) -> Seq<(int, Seq<char>)>
    decreases lines.len(),
{
    if lines.len() == 0 {
        Seq::empty()
    } else if is_blank(lines.last()) {
        numbered_nonblank(lines.drop_last())
    } else {
        numbered_nonblank(lines.drop_last()).push((lines.len() as int, lines.last()))
    }
}

/// Splitting `s` at white space: the finished words and the word still being read.
pub open spec fn word_scan(s: Seq<char>) -> (Seq<Seq<char>>, Seq<char>)
    decreases s.len(),
{
    if s.len() == 0 {
        (Seq::empty(), Seq::empty())
    } else {
        let prev = word_scan(s.drop_last());
        if spec_is_whitespace(s.last()) {
            if prev.1.len() > 0 {
                (prev.0.push(prev.1), Seq::empty())
            } else {
                (prev.0, Seq::empty())
            }
        } else {
            (prev.0, prev.1.push(s.last()))
        }
    }
}

/// The white-space separated words of `s`.
pub open spec fn words(s: Seq<char>) -> Seq<Seq<char>> {
    if word_scan(s).1.len() > 0 {
        word_scan(s).0.push(word_scan(s).1)
    } else {
        word_scan(s).0
    }
}

/// The texts of a list of owned strings.
pub open spec fn string_views(v: Seq<String>) -> Seq<Seq<char>> {
    v.map_values(|s: String| s@)
}

/// The line numbers and texts of a list of numbered lines.
pub open spec fn numbered_views(v: Seq<(usize, String)>) -> Seq<(int, Seq<char>)> {
    v.map_values(|p: (usize, String)| (p.0 as int, p.1@))
}

/// The non-blank lines of `text` with their numbers, and how many lines it has.
pub fn nonblank_lines(text: &str) -> (r: (Vec<(usize, String)>, usize))
    ensures
        numbered_views(r.0@) == numbered_nonblank(text_lines(text@)),
        r.1 == text_lines(text@).len(),
        r.1 <= text@.len(),
{
    let n = text.unicode_len();
    let mut out: Vec<(usize, String)> = Vec::new();
    let mut count: usize = 0;
    let mut start: usize = 0;
    let mut i: usize = 0;
    while i < n
        invariant
            n == text@.len(),
            start <= i <= n,
            line_scan(text@.take(i as int)) == (
                line_scan(text@.take(i as int)).0,
                text@.subrange(start as int, i as int),
            ),
            count == line_scan(text@.take(i as int)).0.len(),
            count <= start,
            numbered_views(out@) == numbered_nonblank(line_scan(text@.take(i as int)).0),
        decreases n - i,
    {
        proof {
            assert(text@.take(i + 1).drop_last() =~= text@.take(i as int));
        }
        if text.get_char(i) == '\n' {
            let line = text.substring_char(start, i);
            let ghost before = out@;
            let ghost lines = line_scan(text@.take(i as int)).0;
            count = count + 1;
            if !is_blank_str(line) {
                out.push((count, String::from_str(line)));
            }
            proof {
                let next = lines.push(line@);
                assert(next.drop_last() =~= lines);
                assert(numbered_views(out@) =~= numbered_nonblank(next));
            }
            start = i + 1;
            assert(text@.subrange(start as int, i + 1) =~= Seq::<char>::empty());
        } else {
            assert(text@.subrange(start as int, i + 1) =~= text@.subrange(start as int, i as int).push(
                text@[i as int],
            ));
        }
        i = i + 1;
    }
    assert(text@.take(n as int) =~= text@);
    if start < n {
        let line = text.substring_char(start, n);
        let ghost before = out@;
        let ghost lines = line_scan(text@).0;
        count = count + 1;
        if !is_blank_str(line) {
            out.push((count, String::from_str(line)));
        }
        proof {
            let next = lines.push(line@);
            assert(next.drop_last() =~= lines);
            assert(numbered_views(out@) =~= numbered_nonblank(next));
        }
    }
    (out, count)
}

/// The white-space separated words of `line`.
pub fn split_words(line: &str) -> (r: Vec<String>)
    ensures
        string_views(r@) == words(line@),
{
    let n = line.unicode_len();
    let mut out: Vec<String> = Vec::new();
    let mut start: usize = 0;
    let mut i: usize = 0;
    while i < n
        invariant
            n == line@.len(),
            start <= i <= n,
            word_scan(line@.take(i as int)) == (
                string_views(out@),
                line@.subrange(start as int, i as int),
            ),
        decreases n - i,
    {
        proof {
            assert(line@.take(i + 1).drop_last() =~= line@.take(i as int));
        }
        if is_whitespace_char(line.get_char(i)) {
            if start < i {
                let ghost before = out@;
                out.push(String::from_str(line.substring_char(start, i)));
                assert(string_views(out@) =~= string_views(before).push(
                    line@.subrange(start as int, i as int),
                ));
            }
            start = i + 1;
            assert(line@.subrange(start as int, i + 1) =~= Seq::<char>::empty());
        } else {
            assert(line@.subrange(start as int, i + 1) =~= line@.subrange(start as int, i as int).push(
                line@[i as int],
            ));
        }
        i = i + 1;
    }
    assert(line@.take(n as int) =~= line@);
    if start < n {
        let ghost before = out@;
        out.push(String::from_str(line.substring_char(start, n)));
        assert(string_views(out@) =~= string_views(before).push(line@.subrange(start as int, n as int)));
    }
    out
}

/// `tok` without one leading `+`.
pub open spec fn unsigned_digits(tok: Seq<char>) -> Seq<char> {
    if tok.len() > 0 && tok[0] == '+' {
        tok.drop_first()
    } else {
        tok
    }
}

/// The value a token reads as in decimal, when it is an optional `+` and one
/// or more digits whose value is at most `max`.
pub open spec fn decimal_token(tok: Seq<char>, max: nat) -> Option<nat> {
    let d = unsigned_digits(tok);
    if d.len() > 0 && all_digits(d) && digits_value(d) <= max {
        Some(digits_value(d))
    } else {
        None
    }
}

/// A hexadecimal digit, in either case.
pub open spec fn is_hex_digit(c: char) -> bool {
    ||| '0' <= c <= '9'
    ||| 'a' <= c <= 'f'
    ||| 'A' <= c <= 'F'
}

/// The value of a hexadecimal digit.
pub open spec fn hex_digit_value(c: char) -> nat {
    if '0' <= c <= '9' {
        ((c as int) - ('0' as int)) as nat
    } else if 'a' <= c <= 'f' {
        ((c as int) - ('a' as int) + 10) as nat
    } else {
        ((c as int) - ('A' as int) + 10) as nat
    }
}

/// Every character of `d` is a hexadecimal digit.
pub open spec fn all_hex(d: Seq<char>) -> bool {
    forall|i: int| 0 <= i < d.len() ==> is_hex_digit(#[trigger] d[i])
}

/// The value of a run of hexadecimal digits.
pub open spec fn hex_value(d: Seq<char>) -> nat
    decreases d.len(),
{
    if d.len() == 0 {
        0
    } else {
        hex_value(d.drop_last()) * 16 + hex_digit_value(d.last())
    }
}

/// The value a token reads as in hexadecimal, when it is an optional `+` and
/// one or more hexadecimal digits whose value is at most `max`.
pub open spec fn hex_token(tok: Seq<char>, max: nat) -> Option<nat> {
    let d = unsigned_digits(tok);
    if d.len() > 0 && all_hex(d) && hex_value(d) <= max {
        Some(hex_value(d))
    } else {
        None
    }
}

/// The lowercase hexadecimal digit of a value below sixteen.
pub open spec fn hex_char(d: nat) -> char {
    if d < 10 {
        (d + 48) as char
    } else {
        (d + 87) as char
    }
}

/// The last `width` lowercase hexadecimal digits of `n`, zero-padded.
pub open spec fn hex_fixed(n: nat, width: nat) -> Seq<char>
    decreases width,
{
    if width == 0 {
        Seq::empty()
    } else {
        hex_fixed(n / 16, (width - 1) as nat).push(hex_char(n % 16))
    }
}

proof fn lemma_hex_value_grows(d: Seq<char>, i: int)
    requires
        0 <= i <= d.len(),
    ensures
        hex_value(d.take(i)) <= hex_value(d),
    decreases d.len() - i,
{
    if i < d.len() {
        lemma_hex_value_grows(d, i + 1);
        assert(d.take(i + 1).drop_last() =~= d.take(i));
    } else {
        assert(d.take(i) =~= d);
    }
}

/// Reads `tok` as a decimal value of at most `max`.
pub fn parse_decimal_token(tok: &str, max: u64) -> (r: Option<u64>)
    ensures
        match decimal_token(tok@, max as nat) {
            Some(v) => r == Some(v as u64),
            None => r is None,
        },
{
    let n = tok.unicode_len();
    let start: usize = if n > 0 && tok.get_char(0) == '+' {
        1
    } else {
        0
    };
    let ghost d = unsigned_digits(tok@);
    assert(d =~= tok@.subrange(start as int, n as int));
    if start == n {
        return None;
    }
    let mut value: u64 = 0;
    let mut i: usize = start;
    while i < n
        invariant
            n == tok@.len(),
            start <= i <= n,
            d == tok@.subrange(start as int, n as int),
            d == unsigned_digits(tok@),
            d.len() > 0,
            all_digits(d.take(i - start)),
            value == digits_value(d.take(i - start)),
            value <= max,
        decreases n - i,
    {
        let c = tok.get_char(i);
        proof {
            assert(d.take(i - start + 1).drop_last() =~= d.take(i - start));
            assert(d.take(i - start + 1).last() == c);
        }
        assert(d[i - start] == c);
        if c < '0' || c > '9' {
            assert(!all_digits(d));
            return None;
        }
        let digit: u64 = (c as u32 - '0' as u32) as u64;
        assert(digits_value(d.take(i - start + 1)) == value * 10 + digit);
        if digit > max || value > (max - digit) / 10 {
            proof {
                assert(value * 10 + digit > max) by (nonlinear_arith)
                    requires
                        digit > max || value > (max - digit) / 10,
                        value >= 0,
                ;
                if all_digits(d) {
                    lemma_digits_value_grows(d, i - start + 1);
                }
            }
            return None;
        }
        proof {
            assert(value * 10 + digit <= max) by (nonlinear_arith)
                requires
                    value <= (max - digit) / 10,
                    digit <= max,
            ;
        }
        value = value * 10 + digit;
        i = i + 1;
    }
    assert(d.take(n - start) =~= d);
    Some(value)
}

fn hex_digit_exec(c: char) -> (r: Option<u64>)
    ensures
        match r {
            Some(v) => is_hex_digit(c) && v == hex_digit_value(c),
            None => !is_hex_digit(c),
        },
{
    if '0' <= c && c <= '9' {
        Some((c as u32 - '0' as u32) as u64)
    } else if 'a' <= c && c <= 'f' {
        Some((c as u32 - 'a' as u32 + 10) as u64)
    } else if 'A' <= c && c <= 'F' {
        Some((c as u32 - 'A' as u32 + 10) as u64)
    } else {
        None
    }
}

/// Reads `tok` as a hexadecimal value of at most `max`.
pub fn parse_hex_token(tok: &str, max: u64) -> (r: Option<u64>)
    ensures
        match hex_token(tok@, max as nat) {
            Some(v) => r == Some(v as u64),
            None => r is None,
        },
{
    let n = tok.unicode_len();
    let start: usize = if n > 0 && tok.get_char(0) == '+' {
        1
    } else {
        0
    };
    let ghost d = unsigned_digits(tok@);
    assert(d =~= tok@.subrange(start as int, n as int));
    if start == n {
        return None;
    }
    let mut value: u64 = 0;
    let mut i: usize = start;
    while i < n
        invariant
            n == tok@.len(),
            start <= i <= n,
            d == tok@.subrange(start as int, n as int),
            d == unsigned_digits(tok@),
            d.len() > 0,
            all_hex(d.take(i - start)),
            value == hex_value(d.take(i - start)),
            value <= max,
        decreases n - i,
    {
        let c = tok.get_char(i);
        proof {
            assert(d.take(i - start + 1).drop_last() =~= d.take(i - start));
            assert(d.take(i - start + 1).last() == c);
        }
        assert(d[i - start] == c);
        let digit = match hex_digit_exec(c) {
            Some(v) => v,
            None => {
                assert(!all_hex(d));
                return None;
            },
        };
        assert(hex_value(d.take(i - start + 1)) == value * 16 + digit);
        if digit > max || value > (max - digit) / 16 {
            proof {
                assert(value * 16 + digit > max) by (nonlinear_arith)
                    requires
                        digit > max || value > (max - digit) / 16,
                        value >= 0,
                ;
                lemma_hex_value_grows(d, i - start + 1);
            }
            return None;
        }
        proof {
            assert(value * 16 + digit <= max) by (nonlinear_arith)
                requires
                    value <= (max - digit) / 16,
                    digit <= max,
            ;
        }
        value = value * 16 + digit;
        i = i + 1;
    }
    assert(d.take(n - start) =~= d);
    Some(value)
}

fn hex_digit_str(d: u64) -> (r: &'static str)
    requires
        d < 16,
    ensures
        r@ == seq![hex_char(d as nat)],
{
    proof {
        reveal_strlit("0");
        reveal_strlit("1");
        reveal_strlit("2");
        reveal_strlit("3");
        reveal_strlit("4");
        reveal_strlit("5");
        reveal_strlit("6");
        reveal_strlit("7");
        reveal_strlit("8");
        reveal_strlit("9");
        reveal_strlit("a");
        reveal_strlit("b");
        reveal_strlit("c");
        reveal_strlit("d");
        reveal_strlit("e");
        reveal_strlit("f");
    }
    if d == 0 {
        "0"
    } else if d == 1 {
        "1"
    } else if d == 2 {
        "2"
    } else if d == 3 {
        "3"
    } else if d == 4 {
        "4"
    } else if d == 5 {
        "5"
    } else if d == 6 {
        "6"
    } else if d == 7 {
        "7"
    } else if d == 8 {
        "8"
    } else if d == 9 {
        "9"
    } else if d == 10 {
        "a"
    } else if d == 11 {
        "b"
    } else if d == 12 {
        "c"
    } else if d == 13 {
        "d"
    } else if d == 14 {
        "e"
    } else {
        "f"
    }
}

/// Appends the last `width` lowercase hexadecimal digits of `n`, zero-padded.
pub fn push_hex_fixed(out: &mut String, n: u64, width: u64)
    ensures
        final(out)@ == old(out)@ + hex_fixed(n as nat, width as nat),
    decreases width,
{
    if width == 0 {
        assert(out@ =~= old(out)@ + hex_fixed(n as nat, width as nat));
        return ;
    }
    push_hex_fixed(out, n / 16, width - 1);
    push_text(out, hex_digit_str(n % 16));
    assert(out@ =~= old(out)@ + hex_fixed(n as nat, width as nat));
}

/// Sixteen to the power `w`.
pub open spec fn pow16(w: nat) -> nat
    decreases w,
{
    if w == 0 {
        1
    } else {
        16 * pow16((w - 1) as nat)
    }
}

pub(crate) proof fn lemma_decimal_reads_back(n: nat)
    ensures
        decimal(n).len() > 0,
        all_digits(decimal(n)),
        digits_value(decimal(n)) == n,
        decimal_token(decimal(n), n) == Some(n),
        forall|i: int| 0 <= i < decimal(n).len() ==> !spec_is_whitespace(#[trigger] decimal(n)[i]),
    decreases n,
{
    assert(digit_char(n % 10) as int == n % 10 + 48);
    if n >= 10 {
        lemma_decimal_reads_back(n / 10);
        let p = decimal(n / 10);
        let d = decimal(n);
        assert(d == p.push(digit_char(n % 10)));
        assert(d.drop_last() =~= p);
        assert(digits_value(d) == digits_value(p) * 10 + n % 10);
        assert((n / 10) * 10 + n % 10 == n);
        assert forall|i: int| 0 <= i < d.len() implies '0' <= #[trigger] d[i] <= '9' by {
            if i < p.len() {
                assert(d[i] == p[i]);
            }
        }
    }
    let d = decimal(n);
    if n < 10 {
        assert(digit_char(n) as int == n + 48);
        assert(d == seq![digit_char(n)]);
        assert(d.last() == digit_char(n));
        assert(d.drop_last() =~= Seq::<char>::empty());
        assert(digits_value(d.drop_last()) == 0);
        assert(('0' as nat) == 48);
        assert(digits_value(d) == n);
    }
    assert(d[0] != '+') by {
        assert('0' <= d[0] <= '9');
    }
    assert(unsigned_digits(d) == d);
    assert forall|i: int| 0 <= i < d.len() implies !spec_is_whitespace(#[trigger] d[i]) by {
        assert('0' <= d[i] <= '9');
    }
}

pub(crate) proof fn lemma_pow16_positive(w: nat)
    ensures
        pow16(w) > 0,
    decreases w,
{
    if w > 0 {
        lemma_pow16_positive((w - 1) as nat);
    }
}

pub(crate) proof fn lemma_hex_reads_back(n: nat, width: nat)
    ensures
        hex_fixed(n, width).len() == width,
        all_hex(hex_fixed(n, width)),
        hex_value(hex_fixed(n, width)) == n % pow16(width),
        forall|i: int| 0 <= i < hex_fixed(n, width).len() ==> !spec_is_whitespace(#[trigger] hex_fixed(n, width)[i]) && hex_fixed(n, width)[i] != '+',
    decreases width,
{
    if width > 0 {
        let w1 = (width - 1) as nat;
        lemma_hex_reads_back(n / 16, w1);
        lemma_pow16_positive(w1);
        let p = hex_fixed(n / 16, w1);
        let h = hex_fixed(n, width);
        assert(h.drop_last() =~= p);
        assert(h.last() == hex_char(n % 16));
        assert(hex_digit_value(hex_char(n % 16)) == n % 16);
        assert(hex_value(h) == hex_value(p) * 16 + n % 16);
        assert((n / 16) % pow16(w1) * 16 + n % 16 == n % (16 * pow16(w1))) by (nonlinear_arith)
            requires
                pow16(w1) > 0,
        {
            assert(pow16(w1) > 0);
            vstd::arithmetic::div_mod::lemma_breakdown(n as int, 16, pow16(w1) as int);
        }
        assert forall|i: int| 0 <= i < h.len() implies is_hex_digit(#[trigger] h[i]) by {
            if i < p.len() {
                assert(h[i] == p[i]);
            }
        }
        assert forall|i: int| 0 <= i < h.len() implies !spec_is_whitespace(#[trigger] h[i]) && h[i] != '+' by {
            if i < p.len() {
                assert(h[i] == p[i]);
            }
        }
    }
}

/// The first line of every golden fixture.
pub const GOLDEN_MAGIC: &'static str = "qtom-golden-fixture-v1";

/// A value as eight hexadecimal digits, the width of an `f32` bit pattern.
pub open spec fn hex8(bits: u32) -> Seq<char> {
    hex_fixed(bits as nat, 8)
}

/// Bit patterns written one after another, each after a space.
pub open spec fn hex_words(bits: Seq<u32>) -> Seq<char>
    decreases bits.len(),
{
    if bits.len() == 0 {
        Seq::empty()
    } else {
        hex_words(bits.drop_last()) + " "@ + hex8(bits.last())
    }
}

/// The configuration line.
pub open spec fn config_line(c: FixtureConfig) -> Seq<char> {
    "config "@ + decimal(c.agent_count as nat) + " "@ + decimal(c.task_count as nat) + " "@
        + decimal(c.dimensions as nat) + " "@ + decimal(c.k as nat) + " "@ + hex_fixed(
        c.seed as nat,
        16,
    ) + "\n"@
}

/// The line of an agent: its id, labels and vector.
pub open spec fn agent_line(a: GoldenAgentView) -> Seq<char> {
    "agent "@ + decimal(a.id as nat) + " "@ + decimal(a.labels.model_profile as nat) + " "@
        + decimal(a.labels.tool_profile as nat) + " "@ + decimal(a.labels.mcp_profile as nat) + " "@
        + decimal(a.labels.memory_profile as nat) + " "@ + decimal(a.labels.cost_class as nat) + " "@
        + decimal(a.labels.latency_class as nat) + hex_words(a.vector_bits) + "\n"@
}

/// The line of a runtime state.
pub open spec fn state_line(st: GoldenState) -> Seq<char> {
    "state "@ + hex8(st.queue_depth_bits) + " "@ + hex8(st.latency_bits) + " "@ + hex8(
        st.cache_pressure_bits,
    ) + " "@ + decimal(st.availability as nat) + "\n"@
}

/// The line of a request: its task, k, fallback, radius and vector.
pub open spec fn request_line(r: GoldenRequestView) -> Seq<char> {
    "request "@ + decimal(r.task_id as nat) + " "@ + decimal(r.k as nat) + " "@ + decimal(
        r.fallback_generalist_id as nat,
    ) + " "@ + hex8(r.radius_bits) + hex_words(r.vector_bits) + "\n"@
}

/// `agent_line` as a function.
pub open spec fn agent_lines() -> spec_fn(GoldenAgentView) -> Seq<char> {
    |a: GoldenAgentView| agent_line(a)
}

/// `state_line` as a function.
pub open spec fn state_lines() -> spec_fn(GoldenState) -> Seq<char> {
    |st: GoldenState| state_line(st)
}

/// `request_line` as a function.
pub open spec fn request_lines() -> spec_fn(GoldenRequestView) -> Seq<char> {
    |r: GoldenRequestView| request_line(r)
}

/// The golden text of a fixture: the format line, the configuration, then
/// the agents, the states and the requests, each list after a header with
/// its length, and the end marker.
pub open spec fn golden_text(r: GoldenRecordsView) -> Seq<char> {
    GOLDEN_MAGIC@ + "\n"@ + config_line(r.config) + "agents "@ + decimal(r.agents.len()) + "\n"@
        + concat_map(r.agents, agent_lines()) + "states "@ + decimal(r.states.len()) + "\n"@
        + concat_map(r.states, state_lines()) + "requests "@ + decimal(r.requests.len()) + "\n"@
        + concat_map(r.requests, request_lines()) + "end\n"@
}

/// The position of the first agent whose vector is not `dims` wide.
pub open spec fn first_misfit_agent(agents: Seq<GoldenAgentView>, dims: nat) -> Option<int>
    decreases agents.len(),
{
    if agents.len() == 0 {
        None
    } else {
        match first_misfit_agent(agents.drop_last(), dims) {
            Some(i) => Some(i),
            None => if agents.last().vector_bits.len() != dims {
                Some(agents.len() - 1)
            } else {
                None
            },
        }
    }
}

/// The position of the first request whose vector is not `dims` wide.
pub open spec fn first_misfit_request(requests: Seq<GoldenRequestView>, dims: nat) -> Option<int>
    decreases requests.len(),
{
    if requests.len() == 0 {
        None
    } else {
        match first_misfit_request(requests.drop_last(), dims) {
            Some(i) => Some(i),
            None => if requests.last().vector_bits.len() != dims {
                Some(requests.len() - 1)
            } else {
                None
            },
        }
    }
}

/// What is wrong with a fixture's shape, if anything: agent, state and
/// request counts that differ from the configuration, then the first agent
/// and the first request whose vector has the wrong width.
pub open spec fn shape_error(r: GoldenRecordsView) -> Option<Seq<char>> {
    let c = r.config;
    if r.agents.len() != c.agent_count {
        Some("agent count mismatch: config="@ + decimal(c.agent_count as nat) + ", fixture="@ + decimal(
            r.agents.len(),
        ))
    } else if r.states.len() != c.agent_count {
        Some("state count mismatch: config="@ + decimal(c.agent_count as nat) + ", fixture="@ + decimal(
            r.states.len(),
        ))
    } else if r.requests.len() != c.task_count {
        Some("request count mismatch: config="@ + decimal(c.task_count as nat) + ", fixture="@ + decimal(
            r.requests.len(),
        ))
    } else {
        match first_misfit_agent(r.agents, c.dimensions as nat) {
            Some(i) => Some("agent "@ + decimal(r.agents[i].id as nat) + " dimension mismatch: expected "@
                + decimal(c.dimensions as nat) + ", got "@ + decimal(r.agents[i].vector_bits.len())),
            None => match first_misfit_request(r.requests, c.dimensions as nat) {
                Some(i) => Some("request "@ + decimal(r.requests[i].task_id as nat)
                    + " dimension mismatch: expected "@ + decimal(c.dimensions as nat) + ", got "@
                    + decimal(r.requests[i].vector_bits.len())),
                None => None,
            },
        }
    }
}

fn count_mismatch(prefix: &str, expected: usize, actual: usize) -> (r: String)
    ensures
        r@ == prefix@ + decimal(expected as nat) + ", fixture="@ + decimal(actual as nat),
{
    let mut out = String::new();
    push_text(&mut out, prefix);
    push_decimal(&mut out, expected as u64);
    push_text(&mut out, ", fixture=");
    push_decimal(&mut out, actual as u64);
    out
}

fn width_mismatch(prefix: &str, id: u64, expected: usize, actual: usize) -> (r: String)
    ensures
        r@ == prefix@ + decimal(id as nat) + " dimension mismatch: expected "@ + decimal(
            expected as nat,
        ) + ", got "@ + decimal(actual as nat),
{
    let mut out = String::new();
    push_text(&mut out, prefix);
    push_decimal(&mut out, id as u64);
    push_text(&mut out, " dimension mismatch: expected ");
    push_decimal(&mut out, expected as u64);
    push_text(&mut out, ", got ");
    push_decimal(&mut out, actual as u64);
    out
}

/// Refuses a fixture whose shape does not match its configuration (line 0).
pub fn validate_golden_shape(records: &GoldenRecords) -> (r: Result<(), GoldenFormatError>)
    ensures
        match shape_error(records@) {
            Some(m) => r matches Err(e) && e.line == 0 && e.message@ == m,
            None => r is Ok,
        },
{
    let c = records.config;
    if records.agents.len() != c.agent_count {
        let message = count_mismatch("agent count mismatch: config=", c.agent_count, records.agents.len());
        return Err(GoldenFormatError { line: 0, message });
    }
    if records.states.len() != c.agent_count {
        let message = count_mismatch("state count mismatch: config=", c.agent_count, records.states.len());
        return Err(GoldenFormatError { line: 0, message });
    }
    if records.requests.len() != c.task_count {
        let message = count_mismatch("request count mismatch: config=", c.task_count, records.requests.len());
        return Err(GoldenFormatError { line: 0, message });
    }
    let ghost agents = records@.agents;
    let n = records.agents.len();
    let mut i: usize = 0;
    while i < n
        invariant
            n == records.agents@.len(),
            agents == records@.agents,
            c == records.config,
            records.agents@.len() == c.agent_count,
            records.states@.len() == c.agent_count,
            records.requests@.len() == c.task_count,
            i <= n,
            first_misfit_agent(agents.take(i as int), c.dimensions as nat) is None,
        decreases n - i,
    {
        proof {
            assert(agents.take(i + 1).drop_last() =~= agents.take(i as int));
        }
        let a = &records.agents[i];
        assert(agents[i as int] == records.agents@[i as int]@);
        if a.vector_bits.len() != c.dimensions {
            proof {
                assert(agents[i as int] == records.agents@[i as int]@);
                assert(agents.take(i + 1).last() == agents[i as int]);
                assert(agents.take(i + 1).len() == i + 1);
                assert(first_misfit_agent(agents.take(i + 1), c.dimensions as nat) == Some(i as int));
                lemma_first_misfit_agent_stays(agents, c.dimensions as nat, i + 1);
            }
            let message = width_mismatch("agent ", a.id as u64, c.dimensions, a.vector_bits.len());
            return Err(GoldenFormatError { line: 0, message });
        }
        i = i + 1;
    }
    assert(agents.take(n as int) =~= agents);
    let ghost requests = records@.requests;
    let m = records.requests.len();
    let mut j: usize = 0;
    while j < m
        invariant
            m == records.requests@.len(),
            requests == records@.requests,
            c == records.config,
            records.agents@.len() == c.agent_count,
            records.states@.len() == c.agent_count,
            records.requests@.len() == c.task_count,
            first_misfit_agent(records@.agents, c.dimensions as nat) is None,
            j <= m,
            first_misfit_request(requests.take(j as int), c.dimensions as nat) is None,
        decreases m - j,
    {
        proof {
            assert(requests.take(j + 1).drop_last() =~= requests.take(j as int));
        }
        let q = &records.requests[j];
        assert(requests[j as int] == records.requests@[j as int]@);
        if q.vector_bits.len() != c.dimensions {
            proof {
                assert(requests[j as int] == records.requests@[j as int]@);
                assert(requests.take(j + 1).last() == requests[j as int]);
                assert(requests.take(j + 1).len() == j + 1);
                assert(first_misfit_request(requests.take(j + 1), c.dimensions as nat) == Some(j as int));
                lemma_first_misfit_request_stays(requests, c.dimensions as nat, j + 1);
            }
            let message = width_mismatch("request ", q.task_id, c.dimensions, q.vector_bits.len());
            return Err(GoldenFormatError { line: 0, message });
        }
        j = j + 1;
    }
    assert(requests.take(m as int) =~= requests);
    Ok(())
}

proof fn lemma_first_misfit_agent_stays(agents: Seq<GoldenAgentView>, dims: nat, k: int)
    requires
        0 <= k <= agents.len(),
        first_misfit_agent(agents.take(k), dims) is Some,
    ensures
        first_misfit_agent(agents, dims) == first_misfit_agent(agents.take(k), dims),
    decreases agents.len() - k,
{
    if k == agents.len() {
        assert(agents.take(k) =~= agents);
    } else {
        assert(agents.take(k + 1).drop_last() =~= agents.take(k));
        lemma_first_misfit_agent_stays(agents, dims, k + 1);
    }
}

proof fn lemma_first_misfit_request_stays(requests: Seq<GoldenRequestView>, dims: nat, k: int)
    requires
        0 <= k <= requests.len(),
        first_misfit_request(requests.take(k), dims) is Some,
    ensures
        first_misfit_request(requests, dims) == first_misfit_request(requests.take(k), dims),
    decreases requests.len() - k,
{
    if k == requests.len() {
        assert(requests.take(k) =~= requests);
    } else {
        assert(requests.take(k + 1).drop_last() =~= requests.take(k));
        lemma_first_misfit_request_stays(requests, dims, k + 1);
    }
}

fn push_hex_words(out: &mut String, bits: &Vec<u32>)
    ensures
        final(out)@ == old(out)@ + hex_words(bits@),
{
    let ghost start = out@;
    let n = bits.len();
    let mut i: usize = 0;
    assert(bits@.take(0) =~= Seq::<u32>::empty());
    assert(out@ =~= start + hex_words(bits@.take(0)));
    while i < n
        invariant
            n == bits@.len(),
            i <= n,
            out@ == start + hex_words(bits@.take(i as int)),
        decreases n - i,
    {
        push_text(out, " ");
        push_hex_fixed(out, bits[i] as u64, 8);
        proof {
            assert(bits@.take(i + 1).drop_last() =~= bits@.take(i as int));
            assert(bits@.take(i + 1).last() == bits@[i as int]);
        }
        assert(out@ =~= start + hex_words(bits@.take(i + 1)));
        i = i + 1;
    }
    assert(bits@.take(n as int) =~= bits@);
}

fn push_agent_line(out: &mut String, a: &GoldenAgent)
    ensures
        final(out)@ == old(out)@ + agent_line(a@),
{
    let ghost start = out@;
    push_text(out, "agent ");
    push_decimal(out, a.id as u64);
    push_text(out, " ");
    push_decimal(out, a.labels.model_profile as u64);
    push_text(out, " ");
    push_decimal(out, a.labels.tool_profile as u64);
    push_text(out, " ");
    push_decimal(out, a.labels.mcp_profile as u64);
    push_text(out, " ");
    push_decimal(out, a.labels.memory_profile as u64);
    push_text(out, " ");
    push_decimal(out, a.labels.cost_class as u64);
    push_text(out, " ");
    push_decimal(out, a.labels.latency_class as u64);
    push_hex_words(out, &a.vector_bits);
    push_text(out, "\n");
    assert(out@ =~= start + agent_line(a@));
}

fn push_state_line(out: &mut String, st: &GoldenState)
    ensures
        final(out)@ == old(out)@ + state_line(*st),
{
    let ghost start = out@;
    push_text(out, "state ");
    push_hex_fixed(out, st.queue_depth_bits as u64, 8);
    push_text(out, " ");
    push_hex_fixed(out, st.latency_bits as u64, 8);
    push_text(out, " ");
    push_hex_fixed(out, st.cache_pressure_bits as u64, 8);
    push_text(out, " ");
    push_decimal(out, st.availability as u64);
    push_text(out, "\n");
    assert(out@ =~= start + state_line(*st));
}

fn push_request_line(out: &mut String, r: &GoldenRequest)
    ensures
        final(out)@ == old(out)@ + request_line(r@),
{
    let ghost start = out@;
    push_text(out, "request ");
    push_decimal(out, r.task_id);
    push_text(out, " ");
    push_decimal(out, r.k as u64);
    push_text(out, " ");
    push_decimal(out, r.fallback_generalist_id as u64);
    push_text(out, " ");
    push_hex_fixed(out, r.radius_bits as u64, 8);
    push_hex_words(out, &r.vector_bits);
    push_text(out, "\n");
    assert(out@ =~= start + request_line(r@));
}

/// The golden text of a fixture, or the refusal of a fixture whose shape
/// does not match its configuration.
fn encode_golden_text(records: &GoldenRecords) -> (r: Result<String, GoldenFormatError>)
    ensures
        match shape_error(records@) {
            Some(m) => r matches Err(e) && e.line == 0 && e.message@ == m,
            None => r matches Ok(text) && text@ == golden_text(records@),
        },
{
    validate_golden_shape(records)?;
    let ghost view = records@;
    let mut out = String::new();
    push_text(&mut out, GOLDEN_MAGIC);
    push_text(&mut out, "\n");
    let c = records.config;
    push_text(&mut out, "config ");
    push_decimal(&mut out, c.agent_count as u64);
    push_text(&mut out, " ");
    push_decimal(&mut out, c.task_count as u64);
    push_text(&mut out, " ");
    push_decimal(&mut out, c.dimensions as u64);
    push_text(&mut out, " ");
    push_decimal(&mut out, c.k as u64);
    push_text(&mut out, " ");
    push_hex_fixed(&mut out, c.seed, 16);
    push_text(&mut out, "\n");
    push_text(&mut out, "agents ");
    push_decimal(&mut out, records.agents.len() as u64);
    push_text(&mut out, "\n");
    let ghost head = out@;
    assert(head =~= GOLDEN_MAGIC@ + "\n"@ + config_line(view.config) + "agents "@ + decimal(
        view.agents.len(),
    ) + "\n"@);
    let n = records.agents.len();
    let mut i: usize = 0;
    while i < n
        invariant
            n == records.agents@.len(),
            view == records@,
            i <= n,
            out@ == head + concat_map(view.agents.take(i as int), agent_lines()),
        decreases n - i,
    {
        push_agent_line(&mut out, &records.agents[i]);
        proof {
            lemma_concat_map_step(view.agents, i as int, agent_lines());
            assert(view.agents[i as int] == records.agents@[i as int]@);
        }
        assert(out@ =~= head + concat_map(view.agents.take(i + 1), agent_lines()));
        i = i + 1;
    }
    assert(view.agents.take(n as int) =~= view.agents);
    push_text(&mut out, "states ");
    push_decimal(&mut out, records.states.len() as u64);
    push_text(&mut out, "\n");
    let ghost mid = out@;
    let m = records.states.len();
    let mut j: usize = 0;
    while j < m
        invariant
            m == records.states@.len(),
            view == records@,
            j <= m,
            out@ == mid + concat_map(view.states.take(j as int), state_lines()),
        decreases m - j,
    {
        push_state_line(&mut out, &records.states[j]);
        proof {
            lemma_concat_map_step(view.states, j as int, state_lines());
        }
        assert(out@ =~= mid + concat_map(view.states.take(j + 1), state_lines()));
        j = j + 1;
    }
    assert(view.states.take(m as int) =~= view.states);
    push_text(&mut out, "requests ");
    push_decimal(&mut out, records.requests.len() as u64);
    push_text(&mut out, "\n");
    let ghost tail = out@;
    let q = records.requests.len();
    let mut k: usize = 0;
    while k < q
        invariant
            q == records.requests@.len(),
            view == records@,
            k <= q,
            out@ == tail + concat_map(view.requests.take(k as int), request_lines()),
        decreases q - k,
    {
        push_request_line(&mut out, &records.requests[k]);
        proof {
            lemma_concat_map_step(view.requests, k as int, request_lines());
            assert(view.requests[k as int] == records.requests@[k as int]@);
        }
        assert(out@ =~= tail + concat_map(view.requests.take(k + 1), request_lines()));
        k = k + 1;
    }
    assert(view.requests.take(q as int) =~= view.requests);
    push_text(&mut out, "end\n");
    assert(out@ =~= golden_text(view));
    Ok(out)
}

/// Where a golden text was refused, and why.
pub open spec fn refusal_of(e: GoldenFormatError) -> (int, Seq<char>) {
    (e.line as int, e.message@)
}

/// The refusal for running out of lines while expecting `context`.
pub open spec fn eof_refusal(total: nat, context: Seq<char>) -> (int, Seq<char>) {
    (total + 1 as int, "expected "@ + context + ", reached end of file"@)
}

/// The refusal for a line with the wrong number of words.
pub open spec fn field_count_refusal(line: int, context: Seq<char>, expected: nat, got: nat) -> (
    int,
    Seq<char>,
) {
    (line, context + " expected "@ + decimal(expected) + " fields, got "@ + decimal(got))
}

/// The refusal for a line that does not start with its keyword.
pub open spec fn keyword_refusal(line: int, expected: Seq<char>, found: Seq<char>) -> (int, Seq<char>) {
    (line, "expected keyword "@ + expected + ", got "@ + found)
}

/// The refusal for a word that does not read as the field's value.
pub open spec fn value_refusal(line: int, field: Seq<char>, token: Seq<char>) -> (int, Seq<char>) {
    (line, "invalid "@ + field + ": "@ + token)
}

/// A decimal field of at most `max`.
pub open spec fn decimal_field(tok: Seq<char>, max: nat, line: int, field: Seq<char>) -> Result<
    nat,
    (int, Seq<char>),
> {
    match decimal_token(tok, max) {
        Some(v) => Ok(v),
        None => Err(value_refusal(line, field, tok)),
    }
}

/// A hexadecimal field of at most `max`.
pub open spec fn hex_field(tok: Seq<char>, max: nat, line: int, field: Seq<char>) -> Result<
    nat,
    (int, Seq<char>),
> {
    match hex_token(tok, max) {
        Some(v) => Ok(v),
        None => Err(value_refusal(line, field, tok)),
    }
}

/// A vector of `f32` bit patterns, one hexadecimal word each; the first bad word is refused.
pub open spec fn hex_vector(toks: Seq<Seq<char>>, line: int, field: Seq<char>) -> Result<
    Seq<u32>,
    (int, Seq<char>),
>
    decreases toks.len(),
{
    if toks.len() == 0 {
        Ok(Seq::empty())
    } else {
        match hex_vector(toks.drop_last(), line, field) {
            Err(e) => Err(e),
            Ok(v) => match hex_token(toks.last(), u32::MAX as nat) {
                Some(x) => Ok(v.push(x as u32)),
                None => Err(value_refusal(line, field, toks.last())),
            },
        }
    }
}

/// The configuration a line sets.
pub open spec fn config_record(line: (int, Seq<char>)) -> Result<FixtureConfig, (int, Seq<char>)> {
    let n = line.0;
    let ws = words(line.1);
    if ws.len() != 6 {
        Err(field_count_refusal(n, "config"@, 6, ws.len()))
    } else if ws[0] != "config"@ {
        Err(keyword_refusal(n, "config"@, ws[0]))
    } else {
        match decimal_field(ws[1], usize::MAX as nat, n, "agent_count"@) {
            Err(e) => Err(e),
            Ok(a) => match decimal_field(ws[2], usize::MAX as nat, n, "task_count"@) {
                Err(e) => Err(e),
                Ok(t) => match decimal_field(ws[3], usize::MAX as nat, n, "dimensions"@) {
                    Err(e) => Err(e),
                    Ok(d) => match decimal_field(ws[4], usize::MAX as nat, n, "k"@) {
                        Err(e) => Err(e),
                        Ok(k) => match hex_field(ws[5], u64::MAX as nat, n, "seed"@) {
                            Err(e) => Err(e),
                            Ok(seed) => Ok(
                                FixtureConfig {
                                    agent_count: a as usize,
                                    task_count: t as usize,
                                    dimensions: d as usize,
                                    k: k as usize,
                                    seed: seed as u64,
                                },
                            ),
                        },
                    },
                },
            },
        }
    }
}

/// The count a list header line announces.
pub open spec fn count_record(line: (int, Seq<char>), keyword: Seq<char>) -> Result<nat, (int, Seq<char>)> {
    let n = line.0;
    let ws = words(line.1);
    if ws.len() != 2 {
        Err(field_count_refusal(n, keyword, 2, ws.len()))
    } else if ws[0] != keyword {
        Err(keyword_refusal(n, keyword, ws[0]))
    } else {
        decimal_field(ws[1], usize::MAX as nat, n, keyword)
    }
}

/// The agent a line describes, with a `dims`-wide vector.
pub open spec fn agent_record(line: (int, Seq<char>), dims: nat) -> Result<GoldenAgentView, (int, Seq<char>)> {
    let n = line.0;
    let ws = words(line.1);
    if ws.len() != 8 + dims {
        Err(field_count_refusal(n, "agent"@, 8 + dims, ws.len()))
    } else if ws[0] != "agent"@ {
        Err(keyword_refusal(n, "agent"@, ws[0]))
    } else {
        match decimal_field(ws[1], u32::MAX as nat, n, "agent id"@) {
            Err(e) => Err(e),
            Ok(id) => match decimal_field(ws[2], u16::MAX as nat, n, "model_profile"@) {
                Err(e) => Err(e),
                Ok(mp) => match decimal_field(ws[3], u16::MAX as nat, n, "tool_profile"@) {
                    Err(e) => Err(e),
                    Ok(tp) => match decimal_field(ws[4], u16::MAX as nat, n, "mcp_profile"@) {
                        Err(e) => Err(e),
                        Ok(mcp) => match decimal_field(ws[5], u16::MAX as nat, n, "memory_profile"@) {
                            Err(e) => Err(e),
                            Ok(mem) => match decimal_field(ws[6], u8::MAX as nat, n, "cost_class"@) {
                                Err(e) => Err(e),
                                Ok(cost) => match decimal_field(ws[7], u8::MAX as nat, n, "latency_class"@) {
                                    Err(e) => Err(e),
                                    Ok(lat) => match hex_vector(ws.subrange(8, ws.len() as int), n, "agent vector"@) {
                                        Err(e) => Err(e),
                                        Ok(v) => Ok(
                                            GoldenAgentView {
                                                id: id as u32,
                                                labels: AgentLabels {
                                                    model_profile: mp as u16,
                                                    tool_profile: tp as u16,
                                                    mcp_profile: mcp as u16,
                                                    memory_profile: mem as u16,
                                                    cost_class: cost as u8,
                                                    latency_class: lat as u8,
                                                },
                                                vector_bits: v,
                                            },
                                        ),
                                    },
                                },
                            },
                        },
                    },
                },
            },
        }
    }
}

/// The runtime state a line describes.
pub open spec fn state_record(line: (int, Seq<char>)) -> Result<GoldenState, (int, Seq<char>)> {
    let n = line.0;
    let ws = words(line.1);
    if ws.len() != 5 {
        Err(field_count_refusal(n, "state"@, 5, ws.len()))
    } else if ws[0] != "state"@ {
        Err(keyword_refusal(n, "state"@, ws[0]))
    } else {
        match hex_field(ws[1], u32::MAX as nat, n, "queue_depth_norm"@) {
            Err(e) => Err(e),
            Ok(q) => match hex_field(ws[2], u32::MAX as nat, n, "latency_norm"@) {
                Err(e) => Err(e),
                Ok(l) => match hex_field(ws[3], u32::MAX as nat, n, "cache_pressure_norm"@) {
                    Err(e) => Err(e),
                    Ok(c) => match decimal_field(ws[4], u32::MAX as nat, n, "availability"@) {
                        Err(e) => Err(e),
                        Ok(a) => Ok(
                            GoldenState {
                                queue_depth_bits: q as u32,
                                latency_bits: l as u32,
                                cache_pressure_bits: c as u32,
                                availability: a as u32,
                            },
                        ),
                    },
                },
            },
        }
    }
}

/// The request a line describes, with a `dims`-wide vector.
pub open spec fn request_record(line: (int, Seq<char>), dims: nat) -> Result<GoldenRequestView, (int, Seq<char>)> {
    let n = line.0;
    let ws = words(line.1);
    if ws.len() != 5 + dims {
        Err(field_count_refusal(n, "request"@, 5 + dims, ws.len()))
    } else if ws[0] != "request"@ {
        Err(keyword_refusal(n, "request"@, ws[0]))
    } else {
        match decimal_field(ws[1], u64::MAX as nat, n, "task_id"@) {
            Err(e) => Err(e),
            Ok(task) => match decimal_field(ws[2], usize::MAX as nat, n, "request k"@) {
                Err(e) => Err(e),
                Ok(k) => match decimal_field(ws[3], u32::MAX as nat, n, "fallback_generalist_id"@) {
                    Err(e) => Err(e),
                    Ok(fb) => match hex_field(ws[4], u32::MAX as nat, n, "radius_max_threshold"@) {
                        Err(e) => Err(e),
                        Ok(radius) => match hex_vector(ws.subrange(5, ws.len() as int), n, "request vector"@) {
                            Err(e) => Err(e),
                            Ok(v) => Ok(
                                GoldenRequestView {
                                    task_id: task as u64,
                                    k: k as usize,
                                    fallback_generalist_id: fb as u32,
                                    radius_bits: radius as u32,
                                    vector_bits: v,
                                },
                            ),
                        },
                    },
                },
            },
        }
    }
}

/// The `count` agents described from position `start` of the non-blank
/// lines; the first missing line or bad agent is refused.
pub open spec fn agent_records(lines: Seq<(int, Seq<char>)>, start: nat, count: nat, dims: nat, total: nat) -> Result<
    Seq<GoldenAgentView>,
    (int, Seq<char>),
>
    decreases count,
{
    if count == 0 {
        Ok(Seq::empty())
    } else {
        match agent_records(lines, start, (count - 1) as nat, dims, total) {
            Err(e) => Err(e),
            Ok(prev) => if start + count - 1 >= lines.len() {
                Err(eof_refusal(total, "agent"@))
            } else {
                match agent_record(lines[start + count - 1], dims) {
                    Err(e) => Err(e),
                    Ok(a) => Ok(prev.push(a)),
                }
            },
        }
    }
}

/// The `count` runtime states described from position `start`.
pub open spec fn state_records(lines: Seq<(int, Seq<char>)>, start: nat, count: nat, total: nat) -> Result<
    Seq<GoldenState>,
    (int, Seq<char>),
>
    decreases count,
{
    if count == 0 {
        Ok(Seq::empty())
    } else {
        match state_records(lines, start, (count - 1) as nat, total) {
            Err(e) => Err(e),
            Ok(prev) => if start + count - 1 >= lines.len() {
                Err(eof_refusal(total, "state"@))
            } else {
                match state_record(lines[start + count - 1]) {
                    Err(e) => Err(e),
                    Ok(st) => Ok(prev.push(st)),
                }
            },
        }
    }
}

/// The `count` requests described from position `start`.
pub open spec fn request_records(lines: Seq<(int, Seq<char>)>, start: nat, count: nat, dims: nat, total: nat) -> Result<
    Seq<GoldenRequestView>,
    (int, Seq<char>),
>
    decreases count,
{
    if count == 0 {
        Ok(Seq::empty())
    } else {
        match request_records(lines, start, (count - 1) as nat, dims, total) {
            Err(e) => Err(e),
            Ok(prev) => if start + count - 1 >= lines.len() {
                Err(eof_refusal(total, "request"@))
            } else {
                match request_record(lines[start + count - 1], dims) {
                    Err(e) => Err(e),
                    Ok(r) => Ok(prev.push(r)),
                }
            },
        }
    }
}

/// Reading the end of a golden text, once its requests ended before
/// position `at` of the non-blank lines: the end marker, nothing after it,
/// and a shape that matches the configuration.
pub open spec fn golden_tail(lines: Seq<(int, Seq<char>)>, at: nat, total: nat, records: GoldenRecordsView) -> Result<
    GoldenRecordsView,
    (int, Seq<char>),
> {
    if at >= lines.len() {
        Err(eof_refusal(total, "end marker"@))
    } else if trim_text(lines[at as int].1) != "end"@ {
        Err((lines[at as int].0, "expected end marker"@))
    } else if at + 1 < lines.len() {
        Err((lines[at + 1 as int].0, "unexpected trailing content"@))
    } else {
        match shape_error(records) {
            Some(m) => Err((0, m)),
            None => Ok(records),
        }
    }
}

/// Reading the states, the requests and the end of a golden text, once its
/// agents ended before position `at` of the non-blank lines.
pub open spec fn golden_after_agents(
    lines: Seq<(int, Seq<char>)>,
    at: nat,
    total: nat,
    config: FixtureConfig,
    agents: Seq<GoldenAgentView>,
) -> Result<GoldenRecordsView, (int, Seq<char>)> {
    if at >= lines.len() {
        Err(eof_refusal(total, "states header"@))
    } else {
        match count_record(lines[at as int], "states"@) {
            Err(e) => Err(e),
            Ok(sc) => match state_records(lines, at + 1, sc, total) {
                Err(e) => Err(e),
                Ok(states) => {
                    let q = at + 1 + sc;
                    if q >= lines.len() {
                        Err(eof_refusal(total, "requests header"@))
                    } else {
                        match count_record(lines[q as int], "requests"@) {
                            Err(e) => Err(e),
                            Ok(rc) => match request_records(lines, q + 1, rc, config.dimensions as nat, total) {
                                Err(e) => Err(e),
                                Ok(requests) => golden_tail(
                                    lines,
                                    q + 1 + rc,
                                    total,
                                    GoldenRecordsView { config, agents, states, requests },
                                ),
                            },
                        }
                    }
                },
            },
        }
    }
}

/// What reading a golden text gives: its fixture, or where and why it was refused.
pub open spec fn golden_outcome(text: Seq<char>) -> Result<GoldenRecordsView, (int, Seq<char>)> {
    let total = text_lines(text).len();
    let lines = numbered_nonblank(text_lines(text));
    if lines.len() < 1 {
        Err(eof_refusal(total, "format magic"@))
    } else if trim_text(lines[0].1) != GOLDEN_MAGIC@ {
        Err((lines[0].0, "expected "@ + GOLDEN_MAGIC@))
    } else if lines.len() < 2 {
        Err(eof_refusal(total, "config"@))
    } else {
        match config_record(lines[1]) {
            Err(e) => Err(e),
            Ok(config) => if lines.len() < 3 {
                Err(eof_refusal(total, "agents header"@))
            } else {
                match count_record(lines[2], "agents"@) {
                    Err(e) => Err(e),
                    Ok(ac) => match agent_records(lines, 3, ac, config.dimensions as nat, total) {
                        Err(e) => Err(e),
                        Ok(agents) => golden_after_agents(lines, 3 + ac, total, config, agents),
                    },
                }
            },
        }
    }
}

/// Appends the decimal rendering of `n`, which may exceed 64 bits.
fn push_decimal_wide(out: &mut String, n: u128)
    ensures
        final(out)@ == old(out)@ + decimal(n as nat),
    decreases n,
{
    if n >= 10 {
        push_decimal_wide(out, n / 10);
    }
    push_text(out, digit_str((n % 10) as u64));
    proof {
        if n >= 10 {
            assert(decimal(n as nat) == decimal((n / 10) as nat).push(digit_char((n % 10) as nat)));
        }
    }
    assert(final(out)@ =~= old(out)@ + decimal(n as nat));
}

fn eof_error(total: usize, context: &str) -> (r: GoldenFormatError)
    requires
        total < usize::MAX,
    ensures
        refusal_of(r) == eof_refusal(total as nat, context@),
{
    let mut message = String::new();
    push_text(&mut message, "expected ");
    push_text(&mut message, context);
    push_text(&mut message, ", reached end of file");
    assert(message@ =~= "expected "@ + context@ + ", reached end of file"@);
    GoldenFormatError { line: total + 1, message }
}

fn field_count_error(line: usize, context: &str, expected: u128, got: usize) -> (r: GoldenFormatError)
    ensures
        refusal_of(r) == field_count_refusal(line as int, context@, expected as nat, got as nat),
{
    let mut message = String::new();
    push_text(&mut message, context);
    push_text(&mut message, " expected ");
    push_decimal_wide(&mut message, expected);
    push_text(&mut message, " fields, got ");
    push_decimal(&mut message, got as u64);
    assert(message@ =~= context@ + " expected "@ + decimal(expected as nat) + " fields, got "@ + decimal(
        got as nat,
    ));
    GoldenFormatError { line, message }
}

fn keyword_error(line: usize, expected: &str, found: &str) -> (r: GoldenFormatError)
    ensures
        refusal_of(r) == keyword_refusal(line as int, expected@, found@),
{
    let mut message = String::new();
    push_text(&mut message, "expected keyword ");
    push_text(&mut message, expected);
    push_text(&mut message, ", got ");
    push_text(&mut message, found);
    assert(message@ =~= "expected keyword "@ + expected@ + ", got "@ + found@);
    GoldenFormatError { line, message }
}

fn value_error(line: usize, field: &str, token: &str) -> (r: GoldenFormatError)
    ensures
        refusal_of(r) == value_refusal(line as int, field@, token@),
{
    let mut message = String::new();
    push_text(&mut message, "invalid ");
    push_text(&mut message, field);
    push_text(&mut message, ": ");
    push_text(&mut message, token);
    assert(message@ =~= "invalid "@ + field@ + ": "@ + token@);
    GoldenFormatError { line, message }
}

fn decimal_field_exec(tok: &str, max: u64, line: usize, field: &str) -> (r: Result<u64, GoldenFormatError>)
    ensures
        match decimal_field(tok@, max as nat, line as int, field@) {
            Ok(v) => r == Ok::<u64, GoldenFormatError>(v as u64),
            Err(e) => r matches Err(x) && refusal_of(x) == e,
        },
{
    match parse_decimal_token(tok, max) {
        Some(v) => Ok(v),
        None => Err(value_error(line, field, tok)),
    }
}

fn hex_field_exec(tok: &str, max: u64, line: usize, field: &str) -> (r: Result<u64, GoldenFormatError>)
    ensures
        match hex_field(tok@, max as nat, line as int, field@) {
            Ok(v) => r == Ok::<u64, GoldenFormatError>(v as u64),
            Err(e) => r matches Err(x) && refusal_of(x) == e,
        },
{
    match parse_hex_token(tok, max) {
        Some(v) => Ok(v),
        None => Err(value_error(line, field, tok)),
    }
}

proof fn lemma_hex_vector_err_stays(toks: Seq<Seq<char>>, k: int, line: int, field: Seq<char>)
    requires
        0 <= k <= toks.len(),
        hex_vector(toks.take(k), line, field) is Err,
    ensures
        hex_vector(toks, line, field) == hex_vector(toks.take(k), line, field),
    decreases toks.len() - k,
{
    if k == toks.len() {
        assert(toks.take(k) =~= toks);
    } else {
        assert(toks.take(k + 1).drop_last() =~= toks.take(k));
        lemma_hex_vector_err_stays(toks, k + 1, line, field);
    }
}

/// The words from position `from` on, read as `f32` bit patterns.
fn hex_vector_exec(words_v: &Vec<String>, from: usize, line: usize, field: &str) -> (r: Result<
    Vec<u32>,
    GoldenFormatError,
>)
    requires
        from <= words_v@.len(),
    ensures
        match hex_vector(string_views(words_v@).subrange(from as int, words_v@.len() as int), line as int, field@) {
            Ok(v) => r matches Ok(x) && x@ == v,
            Err(e) => r matches Err(x) && refusal_of(x) == e,
        },
{
    let ghost toks = string_views(words_v@).subrange(from as int, words_v@.len() as int);
    let n = words_v.len();
    let mut out: Vec<u32> = Vec::new();
    let mut i: usize = from;
    assert(toks.take(0) =~= Seq::<Seq<char>>::empty());
    while i < n
        invariant
            n == words_v@.len(),
            from <= i <= n,
            toks == string_views(words_v@).subrange(from as int, n as int),
            hex_vector(toks.take(i - from), line as int, field@) == Ok::<Seq<u32>, (int, Seq<char>)>(out@),
        decreases n - i,
    {
        let tok = words_v[i].as_str();
        proof {
            assert(toks.take(i - from + 1).drop_last() =~= toks.take(i - from));
            assert(toks.take(i - from + 1).last() == tok@);
        }
        match parse_hex_token(tok, 0xffff_ffff) {
            Some(v) => {
                out.push(v as u32);
            },
            None => {
                proof {
                    lemma_hex_vector_err_stays(toks, i - from + 1, line as int, field@);
                }
                return Err(value_error(line, field, tok));
            },
        }
        i = i + 1;
    }
    assert(toks.take(n - from) =~= toks);
    Ok(out)
}

/// The configuration line `text` (line `line`) sets.
fn config_record_exec(line: usize, text: &str) -> (r: Result<FixtureConfig, GoldenFormatError>)
    ensures
        match config_record((line as int, text@)) {
            Ok(c) => r == Ok::<FixtureConfig, GoldenFormatError>(c),
            Err(e) => r matches Err(x) && refusal_of(x) == e,
        },
{
    let ws = split_words(text);
    let ghost w = string_views(ws@);
    if ws.len() != 6 {
        return Err(field_count_error(line, "config", 6, ws.len()));
    }
    assert(w[0] == ws@[0]@ && w[1] == ws@[1]@ && w[2] == ws@[2]@ && w[3] == ws@[3]@ && w[4] == ws@[4]@
        && w[5] == ws@[5]@);
    if !str_eq(ws[0].as_str(), "config") {
        return Err(keyword_error(line, "config", ws[0].as_str()));
    }
    let max = usize::MAX as u64;
    let a = decimal_field_exec(ws[1].as_str(), max, line, "agent_count")?;
    let t = decimal_field_exec(ws[2].as_str(), max, line, "task_count")?;
    let d = decimal_field_exec(ws[3].as_str(), max, line, "dimensions")?;
    let k = decimal_field_exec(ws[4].as_str(), max, line, "k")?;
    let seed = hex_field_exec(ws[5].as_str(), u64::MAX, line, "seed")?;
    Ok(
        FixtureConfig {
            agent_count: a as usize,
            task_count: t as usize,
            dimensions: d as usize,
            k: k as usize,
            seed,
        },
    )
}

/// The count a list header line announces.
fn count_record_exec(line: usize, text: &str, keyword: &str) -> (r: Result<usize, GoldenFormatError>)
    ensures
        match count_record((line as int, text@), keyword@) {
            Ok(c) => r == Ok::<usize, GoldenFormatError>(c as usize),
            Err(e) => r matches Err(x) && refusal_of(x) == e,
        },
{
    let ws = split_words(text);
    let ghost w = string_views(ws@);
    if ws.len() != 2 {
        return Err(field_count_error(line, keyword, 2, ws.len()));
    }
    assert(w[0] == ws@[0]@ && w[1] == ws@[1]@);
    if !str_eq(ws[0].as_str(), keyword) {
        return Err(keyword_error(line, keyword, ws[0].as_str()));
    }
    let c = decimal_field_exec(ws[1].as_str(), usize::MAX as u64, line, keyword)?;
    Ok(c as usize)
}

/// The agent line `text` (line `line`) describes.
fn agent_record_exec(line: usize, text: &str, dims: usize) -> (r: Result<GoldenAgent, GoldenFormatError>)
    ensures
        match agent_record((line as int, text@), dims as nat) {
            Ok(a) => r matches Ok(x) && x@ == a,
            Err(e) => r matches Err(x) && refusal_of(x) == e,
        },
{
    let ws = split_words(text);
    let ghost w = string_views(ws@);
    if dims > usize::MAX - 8 || ws.len() != 8 + dims {
        return Err(field_count_error(line, "agent", 8 + dims as u128, ws.len()));
    }
    assert(w[0] == ws@[0]@ && w[1] == ws@[1]@ && w[2] == ws@[2]@ && w[3] == ws@[3]@ && w[4] == ws@[4]@
        && w[5] == ws@[5]@ && w[6] == ws@[6]@ && w[7] == ws@[7]@);
    if !str_eq(ws[0].as_str(), "agent") {
        return Err(keyword_error(line, "agent", ws[0].as_str()));
    }
    let id = decimal_field_exec(ws[1].as_str(), 0xffff_ffff, line, "agent id")?;
    let mp = decimal_field_exec(ws[2].as_str(), 0xffff, line, "model_profile")?;
    let tp = decimal_field_exec(ws[3].as_str(), 0xffff, line, "tool_profile")?;
    let mcp = decimal_field_exec(ws[4].as_str(), 0xffff, line, "mcp_profile")?;
    let mem = decimal_field_exec(ws[5].as_str(), 0xffff, line, "memory_profile")?;
    let cost = decimal_field_exec(ws[6].as_str(), 0xff, line, "cost_class")?;
    let lat = decimal_field_exec(ws[7].as_str(), 0xff, line, "latency_class")?;
    let vector_bits = hex_vector_exec(&ws, 8, line, "agent vector")?;
    Ok(
        GoldenAgent {
            id: id as u32,
            labels: AgentLabels {
                model_profile: mp as u16,
                tool_profile: tp as u16,
                mcp_profile: mcp as u16,
                memory_profile: mem as u16,
                cost_class: cost as u8,
                latency_class: lat as u8,
            },
            vector_bits,
        },
    )
}

/// The runtime state line `text` (line `line`) describes.
fn state_record_exec(line: usize, text: &str) -> (r: Result<GoldenState, GoldenFormatError>)
    ensures
        match state_record((line as int, text@)) {
            Ok(st) => r == Ok::<GoldenState, GoldenFormatError>(st),
            Err(e) => r matches Err(x) && refusal_of(x) == e,
        },
{
    let ws = split_words(text);
    let ghost w = string_views(ws@);
    if ws.len() != 5 {
        return Err(field_count_error(line, "state", 5, ws.len()));
    }
    assert(w[0] == ws@[0]@ && w[1] == ws@[1]@ && w[2] == ws@[2]@ && w[3] == ws@[3]@ && w[4] == ws@[4]@);
    if !str_eq(ws[0].as_str(), "state") {
        return Err(keyword_error(line, "state", ws[0].as_str()));
    }
    let q = hex_field_exec(ws[1].as_str(), 0xffff_ffff, line, "queue_depth_norm")?;
    let l = hex_field_exec(ws[2].as_str(), 0xffff_ffff, line, "latency_norm")?;
    let c = hex_field_exec(ws[3].as_str(), 0xffff_ffff, line, "cache_pressure_norm")?;
    let a = decimal_field_exec(ws[4].as_str(), 0xffff_ffff, line, "availability")?;
    Ok(
        GoldenState {
            queue_depth_bits: q as u32,
            latency_bits: l as u32,
            cache_pressure_bits: c as u32,
            availability: a as u32,
        },
    )
}

/// The request line `text` (line `line`) describes.
fn request_record_exec(line: usize, text: &str, dims: usize) -> (r: Result<GoldenRequest, GoldenFormatError>)
    ensures
        match request_record((line as int, text@), dims as nat) {
            Ok(q) => r matches Ok(x) && x@ == q,
            Err(e) => r matches Err(x) && refusal_of(x) == e,
        },
{
    let ws = split_words(text);
    let ghost w = string_views(ws@);
    if dims > usize::MAX - 5 || ws.len() != 5 + dims {
        return Err(field_count_error(line, "request", 5 + dims as u128, ws.len()));
    }
    assert(w[0] == ws@[0]@ && w[1] == ws@[1]@ && w[2] == ws@[2]@ && w[3] == ws@[3]@ && w[4] == ws@[4]@);
    if !str_eq(ws[0].as_str(), "request") {
        return Err(keyword_error(line, "request", ws[0].as_str()));
    }
    let task = decimal_field_exec(ws[1].as_str(), u64::MAX, line, "task_id")?;
    let k = decimal_field_exec(ws[2].as_str(), usize::MAX as u64, line, "request k")?;
    let fb = decimal_field_exec(ws[3].as_str(), 0xffff_ffff, line, "fallback_generalist_id")?;
    let radius = hex_field_exec(ws[4].as_str(), 0xffff_ffff, line, "radius_max_threshold")?;
    let vector_bits = hex_vector_exec(&ws, 5, line, "request vector")?;
    Ok(
        GoldenRequest {
            task_id: task,
            k: k as usize,
            fallback_generalist_id: fb as u32,
            radius_bits: radius as u32,
            vector_bits,
        },
    )
}

proof fn lemma_agent_records_err_stays(
    lines: Seq<(int, Seq<char>)>,
    start: nat,
    k: nat,
    count: nat,
    dims: nat,
    total: nat,
)
    requires
        k <= count,
        agent_records(lines, start, k, dims, total) is Err,
    ensures
        agent_records(lines, start, count, dims, total) == agent_records(lines, start, k, dims, total),
    decreases count - k,
{
    if k < count {
        lemma_agent_records_err_stays(lines, start, k, (count - 1) as nat, dims, total);
    }
}

proof fn lemma_state_records_err_stays(lines: Seq<(int, Seq<char>)>, start: nat, k: nat, count: nat, total: nat)
    requires
        k <= count,
        state_records(lines, start, k, total) is Err,
    ensures
        state_records(lines, start, count, total) == state_records(lines, start, k, total),
    decreases count - k,
{
    if k < count {
        lemma_state_records_err_stays(lines, start, k, (count - 1) as nat, total);
    }
}

proof fn lemma_request_records_err_stays(
    lines: Seq<(int, Seq<char>)>,
    start: nat,
    k: nat,
    count: nat,
    dims: nat,
    total: nat,
)
    requires
        k <= count,
        request_records(lines, start, k, dims, total) is Err,
    ensures
        request_records(lines, start, count, dims, total) == request_records(lines, start, k, dims, total),
    decreases count - k,
{
    if k < count {
        lemma_request_records_err_stays(lines, start, k, (count - 1) as nat, dims, total);
    }
}

/// The agents of `count` lines from position `start`.
fn agent_records_exec(lines: &Vec<(usize, String)>, start: usize, count: usize, dims: usize, total: usize) -> (r: Result<
    Vec<GoldenAgent>,
    GoldenFormatError,
>)
    requires
        start <= lines@.len(),
        total < usize::MAX,
    ensures
        match agent_records(numbered_views(lines@), start as nat, count as nat, dims as nat, total as nat) {
            Ok(v) => r matches Ok(x) && x@.map_values(|a: GoldenAgent| a@) == v,
            Err(e) => r matches Err(x) && refusal_of(x) == e,
        },
{
    let ghost nl = numbered_views(lines@);
    let mut out: Vec<GoldenAgent> = Vec::new();
    let mut i: usize = 0;
    assert(out@.map_values(|a: GoldenAgent| a@) =~= Seq::<GoldenAgentView>::empty());
    while i < count
        invariant
            start <= lines@.len(),
            total < usize::MAX,
            nl == numbered_views(lines@),
            i <= count,
            agent_records(nl, start as nat, i as nat, dims as nat, total as nat) == Ok::<
                Seq<GoldenAgentView>,
                (int, Seq<char>),
            >(out@.map_values(|a: GoldenAgent| a@)),
        decreases count - i,
    {
        if i >= lines.len() - start {
            proof {
                assert(agent_records(nl, start as nat, (i + 1) as nat, dims as nat, total as nat) is Err);
                lemma_agent_records_err_stays(nl, start as nat, (i + 1) as nat, count as nat, dims as nat, total as nat);
            }
            return Err(eof_error(total, "agent"));
        }
        let entry = &lines[start + i];
        assert(nl[start + i] == (entry.0 as int, entry.1@));
        match agent_record_exec(entry.0, entry.1.as_str(), dims) {
            Ok(a) => {
                let ghost before = out@;
                out.push(a);
                assert(out@.map_values(|a: GoldenAgent| a@) =~= before.map_values(|a: GoldenAgent| a@).push(
                    a@,
                ));
            },
            Err(e) => {
                proof {
                    lemma_agent_records_err_stays(nl, start as nat, (i + 1) as nat, count as nat, dims as nat, total as nat);
                }
                return Err(e);
            },
        }
        i = i + 1;
    }
    Ok(out)
}

/// The runtime states of `count` lines from position `start`.
fn state_records_exec(lines: &Vec<(usize, String)>, start: usize, count: usize, total: usize) -> (r: Result<
    Vec<GoldenState>,
    GoldenFormatError,
>)
    requires
        start <= lines@.len(),
        total < usize::MAX,
    ensures
        match state_records(numbered_views(lines@), start as nat, count as nat, total as nat) {
            Ok(v) => r matches Ok(x) && x@ == v,
            Err(e) => r matches Err(x) && refusal_of(x) == e,
        },
{
    let ghost nl = numbered_views(lines@);
    let mut out: Vec<GoldenState> = Vec::new();
    let mut i: usize = 0;
    while i < count
        invariant
            start <= lines@.len(),
            total < usize::MAX,
            nl == numbered_views(lines@),
            i <= count,
            state_records(nl, start as nat, i as nat, total as nat) == Ok::<
                Seq<GoldenState>,
                (int, Seq<char>),
            >(out@),
        decreases count - i,
    {
        if i >= lines.len() - start {
            proof {
                assert(state_records(nl, start as nat, (i + 1) as nat, total as nat) is Err);
                lemma_state_records_err_stays(nl, start as nat, (i + 1) as nat, count as nat, total as nat);
            }
            return Err(eof_error(total, "state"));
        }
        let entry = &lines[start + i];
        assert(nl[start + i] == (entry.0 as int, entry.1@));
        match state_record_exec(entry.0, entry.1.as_str()) {
            Ok(st) => {
                out.push(st);
            },
            Err(e) => {
                proof {
                    lemma_state_records_err_stays(nl, start as nat, (i + 1) as nat, count as nat, total as nat);
                }
                return Err(e);
            },
        }
        i = i + 1;
    }
    Ok(out)
}

/// The requests of `count` lines from position `start`.
fn request_records_exec(lines: &Vec<(usize, String)>, start: usize, count: usize, dims: usize, total: usize) -> (r: Result<
    Vec<GoldenRequest>,
    GoldenFormatError,
>)
    requires
        start <= lines@.len(),
        total < usize::MAX,
    ensures
        match request_records(numbered_views(lines@), start as nat, count as nat, dims as nat, total as nat) {
            Ok(v) => r matches Ok(x) && x@.map_values(|q: GoldenRequest| q@) == v,
            Err(e) => r matches Err(x) && refusal_of(x) == e,
        },
{
    let ghost nl = numbered_views(lines@);
    let mut out: Vec<GoldenRequest> = Vec::new();
    let mut i: usize = 0;
    assert(out@.map_values(|q: GoldenRequest| q@) =~= Seq::<GoldenRequestView>::empty());
    while i < count
        invariant
            start <= lines@.len(),
            total < usize::MAX,
            nl == numbered_views(lines@),
            i <= count,
            request_records(nl, start as nat, i as nat, dims as nat, total as nat) == Ok::<
                Seq<GoldenRequestView>,
                (int, Seq<char>),
            >(out@.map_values(|q: GoldenRequest| q@)),
        decreases count - i,
    {
        if i >= lines.len() - start {
            proof {
                assert(request_records(nl, start as nat, (i + 1) as nat, dims as nat, total as nat) is Err);
                lemma_request_records_err_stays(nl, start as nat, (i + 1) as nat, count as nat, dims as nat, total as nat);
            }
            return Err(eof_error(total, "request"));
        }
        let entry = &lines[start + i];
        assert(nl[start + i] == (entry.0 as int, entry.1@));
        match request_record_exec(entry.0, entry.1.as_str(), dims) {
            Ok(q) => {
                let ghost before = out@;
                out.push(q);
                assert(out@.map_values(|q: GoldenRequest| q@) =~= before.map_values(|q: GoldenRequest| q@).push(
                    q@,
                ));
            },
            Err(e) => {
                proof {
                    lemma_request_records_err_stays(nl, start as nat, (i + 1) as nat, count as nat, dims as nat, total as nat);
                }
                return Err(e);
            },
        }
        i = i + 1;
    }
    Ok(out)
}

/// Reads a golden fixture text: the format line, the configuration, the
/// agents, states and requests after their headers, and the end marker.
/// Blank lines are skipped.
fn decode_golden_text(text: &str) -> (r: Result<GoldenRecords, GoldenFormatError>)
    requires
        text@.len() < usize::MAX,
    ensures
        match golden_outcome(text@) {
            Ok(v) => r matches Ok(x) && x@ == v,
            Err(e) => r matches Err(x) && refusal_of(x) == e,
        },
{
    let (lines, total) = nonblank_lines(text);
    let ghost nl = numbered_views(lines@);
    let n = lines.len();
    if n < 1 {
        return Err(eof_error(total, "format magic"));
    }
    assert(nl[0] == (lines@[0].0 as int, lines@[0].1@));
    let magic = trim(lines[0].1.as_str());
    if !str_eq(magic.as_str(), GOLDEN_MAGIC) {
        let mut message = String::new();
        push_text(&mut message, "expected ");
        push_text(&mut message, GOLDEN_MAGIC);
        return Err(GoldenFormatError { line: lines[0].0, message });
    }
    if n < 2 {
        return Err(eof_error(total, "config"));
    }
    assert(nl[1] == (lines@[1].0 as int, lines@[1].1@));
    let config = config_record_exec(lines[1].0, lines[1].1.as_str())?;
    if n < 3 {
        return Err(eof_error(total, "agents header"));
    }
    assert(nl[2] == (lines@[2].0 as int, lines@[2].1@));
    let agent_count = count_record_exec(lines[2].0, lines[2].1.as_str(), "agents")?;
    let agents = agent_records_exec(&lines, 3, agent_count, config.dimensions, total)?;
    proof {
        if agent_count > 0 {
            assert(3 + agent_count - 1 < n);
        }
    }
    let p = 3 + agent_count;
    if p >= n {
        return Err(eof_error(total, "states header"));
    }
    assert(nl[p as int] == (lines@[p as int].0 as int, lines@[p as int].1@));
    let state_count = count_record_exec(lines[p].0, lines[p].1.as_str(), "states")?;
    let states = state_records_exec(&lines, p + 1, state_count, total)?;
    proof {
        if state_count > 0 {
            assert(p + 1 + state_count - 1 < n);
        }
    }
    let q = p + 1 + state_count;
    if q >= n {
        return Err(eof_error(total, "requests header"));
    }
    assert(nl[q as int] == (lines@[q as int].0 as int, lines@[q as int].1@));
    let request_count = count_record_exec(lines[q].0, lines[q].1.as_str(), "requests")?;
    let requests = request_records_exec(&lines, q + 1, request_count, config.dimensions, total)?;
    proof {
        if request_count > 0 {
            assert(q + 1 + request_count - 1 < n);
        }
    }
    let e = q + 1 + request_count;
    if e >= n {
        return Err(eof_error(total, "end marker"));
    }
    assert(nl[e as int] == (lines@[e as int].0 as int, lines@[e as int].1@));
    let end = trim(lines[e].1.as_str());
    if !str_eq(end.as_str(), "end") {
        let mut message = String::new();
        push_text(&mut message, "expected end marker");
        return Err(GoldenFormatError { line: lines[e].0, message });
    }
    if e + 1 < n {
        assert(nl[e + 1] == (lines@[e + 1].0 as int, lines@[e + 1].1@));
        let mut message = String::new();
        push_text(&mut message, "unexpected trailing content");
        return Err(GoldenFormatError { line: lines[e + 1].0, message });
    }
    let records = GoldenRecords { config, agents, states, requests };
    validate_golden_shape(&records)?;
    Ok(records)
}

/// Writes a fixture in the golden format, refusing one whose shape does not
/// match its configuration.
pub fn encode_golden_fixture(records: &GoldenRecords) -> (r: Result<String, GoldenFixtureError>)
    ensures
        match shape_error(records@) {
            Some(m) => r matches Err(GoldenFixtureError::Format { line, message }) && line == 0
                && message@ == m,
            None => r matches Ok(text) && text@ == golden_text(records@),
        },
{
    match encode_golden_text(records) {
        Ok(text) => Ok(text),
        Err(e) => Err(format_error(e)),
    }
}

/// Reads a fixture in the golden format, refusing the first missing or
/// malformed line (blank lines are skipped) and a fixture whose shape does
/// not match its configuration.
pub fn decode_golden_fixture(text: &str) -> (r: Result<GoldenRecords, GoldenFixtureError>)
    requires
        text@.len() < usize::MAX,
    ensures
        match golden_outcome(text@) {
            Ok(v) => r matches Ok(x) && x@ == v,
            Err(e) => r matches Err(GoldenFixtureError::Format { line, message }) && line == e.0
                && message@ == e.1,
        },
{
    match decode_golden_text(text) {
        Ok(records) => Ok(records),
        Err(e) => Err(format_error(e)),
    }
}

/// Lines written one after another, each followed by `'\n'`.
pub open spec fn joined(ls: Seq<Seq<char>>) -> Seq<char>
    decreases ls.len(),
{
    if ls.len() == 0 {
        Seq::empty()
    } else {
        joined(ls.drop_last()) + ls.last() + "\n"@
    }
}

/// Words written one after another, separated by single spaces.
pub open spec fn spaced(ws: Seq<Seq<char>>) -> Seq<char>
    decreases ws.len(),
{
    if ws.len() == 0 {
        Seq::empty()
    } else if ws.len() == 1 {
        ws[0]
    } else {
        spaced(ws.drop_last()) + " "@ + ws.last()
    }
}

/// A word: not empty, and without white space.
pub open spec fn is_word(w: Seq<char>) -> bool {
    w.len() > 0 && forall|i: int| 0 <= i < w.len() ==> !spec_is_whitespace(#[trigger] w[i])
}

/// No character of `s` is a line break.
pub open spec fn no_newline(s: Seq<char>) -> bool {
    forall|i: int| 0 <= i < s.len() ==> #[trigger] s[i] != '\n'
}

proof fn lemma_line_scan_append(t: Seq<char>, u: Seq<char>)
    requires
        no_newline(u),
    ensures
        line_scan(t + u) == (line_scan(t).0, line_scan(t).1 + u),
    decreases u.len(),
{
    if u.len() == 0 {
        assert(t + u =~= t);
        assert(line_scan(t).1 + u =~= line_scan(t).1);
    } else {
        let u0 = u.drop_last();
        assert(no_newline(u0)) by {
            assert forall|i: int| 0 <= i < u0.len() implies #[trigger] u0[i] != '\n' by {
                assert(u0[i] == u[i]);
            }
        }
        lemma_line_scan_append(t, u0);
        assert((t + u).drop_last() =~= t + u0);
        assert((t + u).last() == u[u.len() - 1]);
        assert((line_scan(t).1 + u0).push(u.last()) =~= line_scan(t).1 + u);
    }
}

pub(crate) proof fn lemma_line_scan_joined(ls: Seq<Seq<char>>)
    requires
        forall|i: int| 0 <= i < ls.len() ==> no_newline(#[trigger] ls[i]),
    ensures
        line_scan(joined(ls)) == (ls, Seq::<char>::empty()),
        text_lines(joined(ls)) == ls,
    decreases ls.len(),
{
    reveal_strlit("\n");
    if ls.len() == 0 {
        assert(ls =~= Seq::<Seq<char>>::empty());
    } else {
        let ls0 = ls.drop_last();
        assert forall|i: int| 0 <= i < ls0.len() implies no_newline(#[trigger] ls0[i]) by {
            assert(ls0[i] == ls[i]);
        }
        lemma_line_scan_joined(ls0);
        let l = ls.last();
        assert(no_newline(ls[ls.len() - 1]));
        lemma_line_scan_append(joined(ls0), l);
        let x = joined(ls0) + l;
        assert(Seq::<char>::empty() + l =~= l);
        assert(joined(ls) =~= x.push('\n'));
        assert(x.push('\n').drop_last() =~= x);
        assert(ls0.push(l) =~= ls);
    }
}

pub(crate) proof fn lemma_numbered_all(ls: Seq<Seq<char>>)
    requires
        forall|i: int| 0 <= i < ls.len() ==> !is_blank(#[trigger] ls[i]),
    ensures
        numbered_nonblank(ls).len() == ls.len(),
        forall|i: int| 0 <= i < ls.len() ==> #[trigger] numbered_nonblank(ls)[i] == (i + 1, ls[i]),
    decreases ls.len(),
{
    if ls.len() > 0 {
        let ls0 = ls.drop_last();
        assert forall|i: int| 0 <= i < ls0.len() implies !is_blank(#[trigger] ls0[i]) by {
            assert(ls0[i] == ls[i]);
        }
        lemma_numbered_all(ls0);
        assert(!is_blank(ls[ls.len() - 1]));
        assert forall|i: int| 0 <= i < ls.len() implies #[trigger] numbered_nonblank(ls)[i] == (i + 1, ls[i]) by {
            if i < ls0.len() {
                assert(numbered_nonblank(ls0)[i] == (i + 1, ls0[i]));
            }
        }
    }
}

proof fn lemma_word_scan_append(t: Seq<char>, u: Seq<char>)
    requires
        forall|i: int| 0 <= i < u.len() ==> !spec_is_whitespace(#[trigger] u[i]),
    ensures
        word_scan(t + u) == (word_scan(t).0, word_scan(t).1 + u),
    decreases u.len(),
{
    if u.len() == 0 {
        assert(t + u =~= t);
        assert(word_scan(t).1 + u =~= word_scan(t).1);
    } else {
        let u0 = u.drop_last();
        assert forall|i: int| 0 <= i < u0.len() implies !spec_is_whitespace(#[trigger] u0[i]) by {
            assert(u0[i] == u[i]);
        }
        lemma_word_scan_append(t, u0);
        assert((t + u).drop_last() =~= t + u0);
        assert((t + u).last() == u[u.len() - 1]);
        assert((word_scan(t).1 + u0).push(u.last()) =~= word_scan(t).1 + u);
    }
}

pub(crate) proof fn lemma_words_spaced(ws: Seq<Seq<char>>)
    requires
        ws.len() > 0,
        forall|i: int| 0 <= i < ws.len() ==> is_word(#[trigger] ws[i]),
    ensures
        word_scan(spaced(ws)) == (ws.drop_last(), ws.last()),
        words(spaced(ws)) == ws,
    decreases ws.len(),
{
    reveal_strlit(" ");
    if ws.len() == 1 {
        lemma_word_scan_append(Seq::empty(), ws[0]);
        assert(Seq::<char>::empty() + ws[0] =~= ws[0]);
        assert(ws.drop_last() =~= Seq::<Seq<char>>::empty());
        assert(Seq::<Seq<char>>::empty().push(ws[0]) =~= ws);
    } else {
        let ws0 = ws.drop_last();
        assert forall|i: int| 0 <= i < ws0.len() implies is_word(#[trigger] ws0[i]) by {
            assert(ws0[i] == ws[i]);
        }
        lemma_words_spaced(ws0);
        let x = spaced(ws0) + " "@;
        assert(x =~= spaced(ws0).push(' '));
        assert(x.drop_last() =~= spaced(ws0));
        assert(spec_is_whitespace(' '));
        assert(is_word(ws0.last()));
        assert(word_scan(x) == (ws0.drop_last().push(ws0.last()), Seq::<char>::empty()));
        assert(ws0.drop_last().push(ws0.last()) =~= ws0);
        assert(is_word(ws[ws.len() - 1]));
        lemma_word_scan_append(x, ws.last());
        assert(Seq::<char>::empty() + ws.last() =~= ws.last());
        assert(spaced(ws) == x + ws.last());
        assert(ws0.push(ws.last()) =~= ws);
    }
}

} // verus!
