//! Project settings: the dotenv file format and how the settings are chosen
//! from the process environment, the dotenv file and the defaults.
use vstd::prelude::*;
use vstd::string::*;
use crate::text::{is_blank, is_blank_str, is_whitespace_char, spec_is_whitespace, str_eq};

verus! {

/// `s` without its leading white space.
pub open spec fn trim_start_text(s: Seq<char>) -> Seq<char>
    decreases s.len(),
{
    if s.len() > 0 && spec_is_whitespace(s[0]) {
        trim_start_text(s.drop_first())
    } else {
        s
    }
}

/// `s` without its trailing white space.
pub open spec fn trim_end_text(s: Seq<char>) -> Seq<char>
    decreases s.len(),
{
    if s.len() > 0 && spec_is_whitespace(s.last()) {
        trim_end_text(s.drop_last())
    } else {
        s
    }
}

/// `s` without its leading and trailing white space.
pub open spec fn trim_text(s: Seq<char>) -> Seq<char> {
    trim_end_text(trim_start_text(s))
}

/// A value without one pair of matching surrounding quotes, single or double.
pub open spec fn unquote_text(v: Seq<char>) -> Seq<char> {
    if v.len() >= 2 && ((v[0] == '"' && v.last() == '"') || (v[0] == '\'' && v.last() == '\'')) {
        v.subrange(1, v.len() - 1)
    } else {
        v
    }
}

/// The position of the first `=` of `s`, if any.
pub open spec fn first_equals(s: Seq<char>) -> Option<int> {
    if exists|i: int| 0 <= i < s.len() && s[i] == '=' {
        Some(choose|i: int| 0 <= i < s.len() && s[i] == '=' && forall|j: int| 0 <= j < i ==> s[j] != '=')
    } else {
        None
    }
}

/// The key and value a dotenv line sets: none for a blank line, a comment,
/// a line without `=` or an empty key; otherwise the trimmed key and the
/// trimmed, unquoted value.
pub open spec fn dotenv_line_pair(line: Seq<char>) -> Option<(Seq<char>, Seq<char>)> {
    let t = trim_text(line);
    if t.len() == 0 || t[0] == '#' {
        None
    } else {
        match first_equals(t) {
            None => None,
            Some(p) => {
                let key = trim_text(t.subrange(0, p));
                if key.len() == 0 {
                    None
                } else {
                    Some((key, unquote_text(trim_text(t.subrange(p + 1, t.len() as int)))))
                }
            },
        }
    }
}

/// `pairs` followed by the pair `line` sets, if it sets one.
pub open spec fn with_line(pairs: Seq<(Seq<char>, Seq<char>)>, line: Seq<char>) -> Seq<
    (Seq<char>, Seq<char>),
> {
    match dotenv_line_pair(line) {
        Some(pair) => pairs.push(pair),
        None => pairs,
    }
}

/// Reading `s` line by line, lines separated by `'\n'`: the pairs the
/// finished lines set, and the line still being read.
pub open spec fn dotenv_scan(s: Seq<char>) -> (Seq<(Seq<char>, Seq<char>)>, Seq<char>)
    decreases s.len(),
{
    if s.len() == 0 {
        (Seq::empty(), Seq::empty())
    } else {
        let prev = dotenv_scan(s.drop_last());
        if s.last() == '\n' {
            (with_line(prev.0, prev.1), Seq::empty())
        } else {
            (prev.0, prev.1.push(s.last()))
        }
    }
}

/// The pairs a dotenv file sets, line by line in order (a line's trailing
/// `'\r'` is white space, which parsing trims).
pub open spec fn dotenv_pairs(contents: Seq<char>) -> Seq<(Seq<char>, Seq<char>)> {
    with_line(dotenv_scan(contents).0, dotenv_scan(contents).1)
}

/// The texts of a list of owned pairs.
pub open spec fn pair_views(pairs: Seq<(String, String)>) -> Seq<(Seq<char>, Seq<char>)> {
    pairs.map_values(|p: (String, String)| (p.0@, p.1@))
}

fn trim_bounds(s: &str) -> (r: (usize, usize))
    ensures
        r.0 <= r.1 <= s@.len(),
        s@.subrange(r.0 as int, r.1 as int) == trim_text(s@),
{
    let n = s.unicode_len();
    let mut start: usize = 0;
    assert(s@.subrange(0, n as int) =~= s@);
    while start < n && is_whitespace_char(s.get_char(start))
        invariant
            n == s@.len(),
            start <= n,
            trim_start_text(s@) == trim_start_text(s@.subrange(start as int, n as int)),
        decreases n - start,
    {
        proof {
            assert(s@.subrange(start as int, n as int).drop_first() =~= s@.subrange(
                start + 1,
                n as int,
            ));
        }
        start = start + 1;
    }
    assert(trim_start_text(s@) =~= s@.subrange(start as int, n as int));
    let mut end: usize = n;
    while end > start && is_whitespace_char(s.get_char(end - 1))
        invariant
            n == s@.len(),
            start <= end <= n,
            trim_start_text(s@) == s@.subrange(start as int, n as int),
            trim_text(s@) == trim_end_text(s@.subrange(start as int, end as int)),
        decreases end,
    {
        proof {
            assert(s@.subrange(start as int, end as int).drop_last() =~= s@.subrange(
                start as int,
                end - 1,
            ));
        }
        end = end - 1;
    }
    (start, end)
}

/// `s` without its leading and trailing white space.
pub fn trim(s: &str) -> (r: String)
    ensures
        r@ == trim_text(s@),
{
    let (start, end) = trim_bounds(s);
    String::from_str(s.substring_char(start, end))
}

/// `value` without one pair of matching surrounding quotes, single or double.
pub fn unquote(value: &str) -> (r: String)
    ensures
        r@ == unquote_text(value@),
{
    let n = value.unicode_len();
    if n >= 2 {
        let first = value.get_char(0);
        let last = value.get_char(n - 1);
        if (first == '"' && last == '"') || (first == '\'' && last == '\'') {
            return String::from_str(value.substring_char(1, n - 1));
        }
    }
    String::from_str(value)
}

/// The key and value a dotenv line sets, if it sets one.
pub fn parse_dotenv_line(line: &str) -> (r: Option<(String, String)>)
    ensures
        match dotenv_line_pair(line@) {
            None => r is None,
            Some(pair) => r matches Some(p) && p.0@ == pair.0 && p.1@ == pair.1,
        },
{
    let trimmed = trim(line);
    let t = trimmed.as_str();
    let n = t.unicode_len();
    if n == 0 || t.get_char(0) == '#' {
        return None;
    }
    let mut p: usize = 0;
    while p < n && t.get_char(p) != '='
        invariant
            n == t@.len(),
            p <= n,
            forall|j: int| 0 <= j < p ==> t@[j] != '=',
        decreases n - p,
    {
        p = p + 1;
    }
    if p == n {
        assert(first_equals(t@) is None);
        return None;
    }
    assert(first_equals(t@) == Some(p as int)) by {
        let c = choose|i: int| 0 <= i < t@.len() && t@[i] == '=' && forall|j: int| 0 <= j < i ==> t@[j] != '=';
        assert(0 <= p < t@.len() && t@[p as int] == '=' && forall|j: int| 0 <= j < p ==> t@[j] != '=');
        if c < p {
        } else if c > p {
            assert(t@[p as int] != '=');
        }
    }
    let key = trim(t.substring_char(0, p));
    if key.unicode_len() == 0 {
        return None;
    }
    let raw = trim(t.substring_char(p + 1, n));
    let value = unquote(raw.as_str());
    Some((key, value))
}

/// The pairs a dotenv file sets, line by line in order.
pub fn parse_dotenv(contents: &str) -> (r: Vec<(String, String)>)
    ensures
        pair_views(r@) == dotenv_pairs(contents@),
{
    let n = contents.unicode_len();
    let mut out: Vec<(String, String)> = Vec::new();
    let mut line_start: usize = 0;
    let mut i: usize = 0;
    while i < n
        invariant
            n == contents@.len(),
            line_start <= i <= n,
            dotenv_scan(contents@.take(i as int)) == (
                pair_views(out@),
                contents@.subrange(line_start as int, i as int),
            ),
        decreases n - i,
    {
        proof {
            assert(contents@.take(i + 1).drop_last() =~= contents@.take(i as int));
        }
        if contents.get_char(i) == '\n' {
            let line = contents.substring_char(line_start, i);
            let parsed = parse_dotenv_line(line);
            let ghost before = out@;
            match parsed {
                Some(pair) => {
                    out.push(pair);
                },
                None => {},
            }
            assert(pair_views(out@) =~= with_line(pair_views(before), line@));
            line_start = i + 1;
            assert(contents@.subrange(line_start as int, i + 1) =~= Seq::<char>::empty());
        } else {
            assert(contents@.subrange(line_start as int, i + 1) =~= contents@.subrange(
                line_start as int,
                i as int,
            ).push(contents@[i as int]));
        }
        i = i + 1;
    }
    assert(contents@.take(n as int) =~= contents@);
    let last = contents.substring_char(line_start, n);
    let ghost before = out@;
    match parse_dotenv_line(last) {
        Some(pair) => {
            out.push(pair);
        },
        None => {},
    }
    assert(pair_views(out@) =~= with_line(pair_views(before), last@));
    out
}

/// The value of a run of decimal digits.
pub open spec fn digits_value(d: Seq<char>) -> nat
    decreases d.len(),
{
    if d.len() == 0 {
        0
    } else {
        digits_value(d.drop_last()) * 10 + ((d.last() as nat) - ('0' as nat)) as nat
    }
}

/// Every character of `d` is a decimal digit.
pub open spec fn all_digits(d: Seq<char>) -> bool {
    forall|i: int| 0 <= i < d.len() ==> '0' <= #[trigger] d[i] <= '9'
}

/// The `usize` a text reads as: an optional `+`, then one or more decimal
/// digits whose value fits in `usize`.
pub open spec fn parsed_usize(s: Seq<char>) -> Option<usize> {
    let d = if s.len() > 0 && s[0] == '+' {
        s.drop_first()
    } else {
        s
    };
    if d.len() > 0 && all_digits(d) && digits_value(d) <= usize::MAX {
        Some(digits_value(d) as usize)
    } else {
        None
    }
}

pub(crate) proof fn lemma_digits_value_grows(d: Seq<char>, i: int)
    requires
        0 <= i <= d.len(),
        all_digits(d),
    ensures
        digits_value(d.take(i)) <= digits_value(d),
    decreases d.len() - i,
{
    if i < d.len() {
        lemma_digits_value_grows(d, i + 1);
        assert(d.take(i + 1).drop_last() =~= d.take(i));
        assert('0' <= d.take(i + 1).last() <= '9');
    } else {
        assert(d.take(i) =~= d);
    }
}

/// Reads `s` as a `usize`: an optional `+`, then decimal digits whose value fits.
pub fn parse_usize(s: &str) -> (r: Option<usize>)
    ensures
        r == parsed_usize(s@),
{
    let n = s.unicode_len();
    let start: usize = if n > 0 && s.get_char(0) == '+' {
        1
    } else {
        0
    };
    let ghost d = if s@.len() > 0 && s@[0] == '+' {
        s@.drop_first()
    } else {
        s@
    };
    assert(d =~= s@.subrange(start as int, n as int));
    if start == n {
        return None;
    }
    let mut value: usize = 0;
    let mut i: usize = start;
    while i < n
        invariant
            n == s@.len(),
            start <= i <= n,
            d == s@.subrange(start as int, n as int),
            d == (if s@.len() > 0 && s@[0] == '+' {
                s@.drop_first()
            } else {
                s@
            }),
            d.len() > 0,
            all_digits(d.take(i - start)),
            value == digits_value(d.take(i - start)),
        decreases n - i,
    {
        let c = s.get_char(i);
        proof {
            assert(d.take(i - start + 1).drop_last() =~= d.take(i - start));
            assert(d.take(i - start + 1).last() == c);
        }
        assert(d[i - start] == c);
        if c < '0' || c > '9' {
            assert(!all_digits(d));
            return None;
        }
        let digit = (c as u32 - '0' as u32) as usize;
        assert(digits_value(d.take(i - start + 1)) == value * 10 + digit);
        let scaled = match value.checked_mul(10) {
            Some(v) => v,
            None => {
                proof {
                    if all_digits(d) {
                        lemma_digits_value_grows(d, i - start + 1);
                    }
                }
                return None;
            },
        };
        let next = match scaled.checked_add(digit) {
            Some(v) => v,
            None => {
                proof {
                    if all_digits(d) {
                        lemma_digits_value_grows(d, i - start + 1);
                    }
                }
                return None;
            },
        };
        value = next;
        i = i + 1;
    }
    assert(d.take(n - start) =~= d);
    Some(value)
}

/// The value of the first entry of `env` named `key`.
pub open spec fn first_value(env: Seq<(Seq<char>, Seq<char>)>, key: Seq<char>) -> Option<Seq<char>>
    decreases env.len(),
{
    if env.len() == 0 {
        None
    } else if env[0].0 == key {
        Some(env[0].1)
    } else {
        first_value(env.drop_first(), key)
    }
}

/// The value the last pair named `key` sets.
pub open spec fn last_value(pairs: Seq<(Seq<char>, Seq<char>)>, key: Seq<char>) -> Option<Seq<char>>
    decreases pairs.len(),
{
    if pairs.len() == 0 {
        None
    } else if pairs.last().0 == key {
        Some(pairs.last().1)
    } else {
        last_value(pairs.drop_last(), key)
    }
}

/// A setting: the process environment's value when it has one, else the
/// value the dotenv file sets last.
pub open spec fn setting(env: Seq<(Seq<char>, Seq<char>)>, dotenv: Seq<char>, key: Seq<char>) -> Option<
    Seq<char>,
> {
    match first_value(env, key) {
        Some(v) => Some(v),
        None => last_value(dotenv_pairs(dotenv), key),
    }
}

/// A text setting, or its default.
pub open spec fn text_setting(value: Option<Seq<char>>, default: Seq<char>) -> Seq<char> {
    match value {
        Some(v) => v,
        None => default,
    }
}

/// A count setting that reads as a `usize`, or its default.
pub open spec fn count_setting(value: Option<Seq<char>>, default: usize) -> usize {
    match value {
        Some(v) => match parsed_usize(v) {
            Some(n) => n,
            None => default,
        },
        None => default,
    }
}

fn first_value_exec(env: &Vec<(String, String)>, key: &str) -> (r: Option<String>)
    ensures
        match first_value(pair_views(env@), key@) {
            Some(v) => r matches Some(s) && s@ == v,
            None => r is None,
        },
{
    let n = env.len();
    let mut i: usize = 0;
    assert(pair_views(env@).subrange(0, n as int) =~= pair_views(env@));
    while i < n
        invariant
            n == env@.len(),
            i <= n,
            first_value(pair_views(env@), key@) == first_value(
                pair_views(env@).subrange(i as int, n as int),
                key@,
            ),
        decreases n - i,
    {
        let ghost rest = pair_views(env@).subrange(i as int, n as int);
        proof {
            assert(rest.drop_first() =~= pair_views(env@).subrange(i + 1, n as int));
            assert(rest[0] == (env@[i as int].0@, env@[i as int].1@));
        }
        if str_eq(env[i].0.as_str(), key) {
            return Some(String::from_str(env[i].1.as_str()));
        }
        i = i + 1;
    }
    None
}

fn last_value_exec(pairs: &Vec<(String, String)>, key: &str) -> (r: Option<String>)
    ensures
        match last_value(pair_views(pairs@), key@) {
            Some(v) => r matches Some(s) && s@ == v,
            None => r is None,
        },
{
    let mut i: usize = pairs.len();
    assert(pair_views(pairs@).take(i as int) =~= pair_views(pairs@));
    while i > 0
        invariant
            i <= pairs@.len(),
            last_value(pair_views(pairs@), key@) == last_value(
                pair_views(pairs@).take(i as int),
                key@,
            ),
        decreases i,
    {
        let ghost prefix = pair_views(pairs@).take(i as int);
        proof {
            assert(prefix.drop_last() =~= pair_views(pairs@).take(i - 1));
            assert(prefix.last() == (pairs@[i - 1].0@, pairs@[i - 1].1@));
        }
        if str_eq(pairs[i - 1].0.as_str(), key) {
            return Some(String::from_str(pairs[i - 1].1.as_str()));
        }
        i = i - 1;
    }
    None
}

/// The settings the benchmarks and agents run with.
#[derive(Clone, Debug, PartialEq, Eq)]
pub struct ProjectConfig {
    pub openai_api_key_present: bool,
    pub evaluator_model: String,
    pub local_model: String,
    pub default_k: usize,
    pub default_agent_count: usize,
}

fn setting_exec(env: &Vec<(String, String)>, pairs: &Vec<(String, String)>, key: &str) -> (r: Option<String>)
    ensures
        match first_value(pair_views(env@), key@) {
            Some(v) => r matches Some(s) && s@ == v,
            None => match last_value(pair_views(pairs@), key@) {
                Some(v) => r matches Some(s) && s@ == v,
                None => r is None,
            },
        },
{
    match first_value_exec(env, key) {
        Some(v) => Some(v),
        None => last_value_exec(pairs, key),
    }
}

fn text_or(value: Option<String>, default: &str) -> (r: String)
    ensures
        r@ == match value {
            Some(v) => v@,
            None => default@,
        },
{
    match value {
        Some(v) => v,
        None => String::from_str(default),
    }
}

fn count_or(value: Option<String>, default: usize) -> (r: usize)
    ensures
        r == match value {
            Some(v) => match parsed_usize(v@) {
                Some(n) => n,
                None => default,
            },
            None => default,
        },
{
    match value {
        Some(v) => match parse_usize(v.as_str()) {
            Some(n) => n,
            None => default,
        },
        None => default,
    }
}

impl ProjectConfig {
    /// The settings chosen from `env`, the process environment's entries, and
    /// from `dotenv`, the text of the dotenv file (empty when there is none):
    /// each setting is the environment's value when it has one, else the
    /// value the file sets last, else its default.
    pub fn from_env_and_dotenv(env: &Vec<(String, String)>, dotenv: &str) -> (r: Self)
        ensures
            r.openai_api_key_present == (setting(pair_views(env@), dotenv@, "OPENAI_API_KEY"@) matches Some(
                v,
            ) && !is_blank(v)),
            r.evaluator_model@ == text_setting(
                setting(pair_views(env@), dotenv@, "QTOM_EVALUATOR_MODEL"@),
                "gpt-5.5-medium"@,
            ),
            r.local_model@ == text_setting(
                setting(pair_views(env@), dotenv@, "QTOM_LOCAL_MODEL"@),
                "Qwen3-2507"@,
            ),
            r.default_k == count_setting(setting(pair_views(env@), dotenv@, "QTOM_DEFAULT_K"@), 8),
            r.default_agent_count == count_setting(
                setting(pair_views(env@), dotenv@, "QTOM_DEFAULT_AGENT_COUNT"@),
                128,
            ),
    {
        let pairs = parse_dotenv(dotenv);
        let api_key = setting_exec(env, &pairs, "OPENAI_API_KEY");
        let openai_api_key_present = match api_key {
            Some(v) => !is_blank_str(v.as_str()),
            None => false,
        };
        let evaluator_model = text_or(
            setting_exec(env, &pairs, "QTOM_EVALUATOR_MODEL"),
            "gpt-5.5-medium",
        );
        let local_model = text_or(setting_exec(env, &pairs, "QTOM_LOCAL_MODEL"), "Qwen3-2507");
        let default_k = count_or(setting_exec(env, &pairs, "QTOM_DEFAULT_K"), 8);
        let default_agent_count = count_or(setting_exec(env, &pairs, "QTOM_DEFAULT_AGENT_COUNT"), 128);
        ProjectConfig {
            openai_api_key_present,
            evaluator_model,
            local_model,
            default_k,
            default_agent_count,
        }
    }
}

/// The process environment wins over the dotenv file: a key the environment
/// sets takes the environment's first value, whatever any dotenv file says;
/// a key it does not set takes the value the dotenv file assigns last.
pub proof fn law_environment_overrides_dotenv(
    env: Seq<(Seq<char>, Seq<char>)>,
    dotenv_a: Seq<char>,
    dotenv_b: Seq<char>,
    key: Seq<char>,
)
    ensures
        first_value(env, key) is Some ==> setting(env, dotenv_a, key) == first_value(env, key)
            && setting(env, dotenv_a, key) == setting(env, dotenv_b, key),
        first_value(env, key) is None ==> setting(env, dotenv_a, key) == last_value(
            dotenv_pairs(dotenv_a),
            key,
        ),
{
}

} // verus!

