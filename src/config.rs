use vstd::prelude::*;

use crate::error::ConfigError;
use crate::text::{chars_of, find_from, index_from, trim, trimmed};

verus! {

/// A configured value: a quoted text or a bare integer.
#[derive(Debug)]
pub enum ConfValType {
    Text(String),
    Num(isize),
}

/// What a configured value holds.
pub enum ConfView {
    Text(Seq<char>),
    Num(int),
}

pub open spec fn conf_view(v: ConfValType) -> ConfView {
    match v {
        ConfValType::Text(t) => ConfView::Text(t@),
        ConfValType::Num(n) => ConfView::Num(n as int),
    }
}

pub open spec fn is_digit(c: char) -> bool {
    '0' <= c && c <= '9'
}

pub open spec fn all_digits(s: Seq<char>) -> bool {
    forall|i: int| 0 <= i < s.len() ==> is_digit(#[trigger] s[i])
}

/// The number that a run of decimal digits spells.
pub open spec fn digits_value(s: Seq<char>) -> int
    decreases s.len(),
{
    if s.len() == 0 {
        0
    } else {
        digits_value(s.drop_last()) * 10 + (s.last() as int - 48)
    }
}

/// An integer with an optional sign and at least one digit, within the range of `isize`.
pub open spec fn parse_int(s: Seq<char>) -> Option<int> {
    let signed = s.len() > 0 && (s[0] == '-' || s[0] == '+');
    let d = if signed {
        s.drop_first()
    } else {
        s
    };
    let v = if signed && s[0] == '-' {
        -digits_value(d)
    } else {
        digits_value(d)
    };
    if d.len() > 0 && all_digits(d) && isize::MIN <= v <= isize::MAX {
        Some(v)
    } else {
        None
    }
}

/// What one line of the configuration says.
pub enum ConfLine {
    /// Nothing: blank, a comment, or no `key = value` shape.
    Skip,
    Entry(Seq<char>, ConfView),
    /// A key whose value is neither a quoted text nor an integer.
    Bad(Seq<char>),
}

/// Reads one line: `key = "text"` gives the text between the quotes (up to the
/// end when the second quote is missing); `key = 12 # note` gives the integer
/// before the `#`.
pub open spec fn conf_line(l: Seq<char>) -> ConfLine {
    let t = trim(l);
    let p = index_from(t, '=', 0);
    if t.len() == 0 || t[0] == '#' || p >= t.len() || p == 0 {
        ConfLine::Skip
    } else {
        let key = trim(t.subrange(0, p));
        let v = trim(t.subrange(p + 1, t.len() as int));
        if v.len() > 0 && v[0] == '"' {
            ConfLine::Entry(key, ConfView::Text(v.subrange(1, index_from(v, '"', 1))))
        } else {
            match parse_int(trim(v.subrange(0, index_from(v, '#', 0)))) {
                Some(n) => ConfLine::Entry(key, ConfView::Num(n)),
                None => ConfLine::Bad(key),
            }
        }
    }
}

/// The `\n`-separated lines of `s` from index `i` on, where `cur` holds the
/// part of the current line read so far.
pub open spec fn lines_from(s: Seq<char>, i: int, cur: Seq<char>) -> Seq<Seq<char>>
    decreases s.len() - i,
{
    if i < 0 || i >= s.len() {
        seq![cur]
    } else if s[i] == '\n' {
        seq![cur] + lines_from(s, i + 1, Seq::empty())
    } else {
        lines_from(s, i + 1, cur.push(s[i]))
    }
}

pub open spec fn conf_step(m: Result<Map<Seq<char>, ConfView>, Seq<char>>, l: Seq<char>) -> Result<
    Map<Seq<char>, ConfView>,
    Seq<char>,
> {
    match m {
        Err(k) => Err(k),
        Ok(m) => match conf_line(l) {
            ConfLine::Skip => Ok(m),
            ConfLine::Entry(k, v) => Ok(m.insert(k, v)),
            ConfLine::Bad(k) => Err(k),
        },
    }
}

pub open spec fn conf_apply(m: Result<Map<Seq<char>, ConfView>, Seq<char>>, ls: Seq<Seq<char>>) -> Result<
    Map<Seq<char>, ConfView>,
    Seq<char>,
>
    decreases ls.len(),
{
    if ls.len() == 0 {
        m
    } else {
        conf_apply(conf_step(m, ls[0]), ls.drop_first())
    }
}

/// The configuration that a text gives, line after line, a later key replacing
/// an earlier one; or the key of the first line whose value is malformed.
pub open spec fn config_of(s: Seq<char>) -> Result<Map<Seq<char>, ConfView>, Seq<char>> {
    conf_apply(Ok(Map::empty()), lines_from(s, 0, Seq::empty()))
}

proof fn lemma_apply_err(k: Seq<char>, ls: Seq<Seq<char>>)
    ensures
        conf_apply(Err(k), ls) == Err::<Map<Seq<char>, ConfView>, Seq<char>>(k),
    decreases ls.len(),
{
    if ls.len() > 0 {
        lemma_apply_err(k, ls.drop_first());
    }
}

pub open spec fn entries_map(s: Seq<(String, ConfValType)>) -> Map<Seq<char>, ConfView>
    decreases s.len(),
{
    if s.len() == 0 {
        Map::empty()
    } else {
        entries_map(s.drop_last()).insert(s.last().0@, conf_view(s.last().1))
    }
}

proof fn lemma_entries_absent(s: Seq<(String, ConfValType)>, k: Seq<char>)
    requires
        forall|j: int| 0 <= j < s.len() ==> s[j].0@ != k,
    ensures
        !entries_map(s).contains_key(k),
    decreases s.len(),
{
    if s.len() > 0 {
        lemma_entries_absent(s.drop_last(), k);
    }
}

proof fn lemma_entries_last(s: Seq<(String, ConfValType)>, k: Seq<char>, i: int)
    requires
        0 <= i < s.len(),
        s[i].0@ == k,
        forall|j: int| i < j < s.len() ==> s[j].0@ != k,
    ensures
        entries_map(s).contains_key(k),
        entries_map(s)[k] == conf_view(s[i].1),
    decreases s.len(),
{
    if i < s.len() - 1 {
        lemma_entries_last(s.drop_last(), k, i);
    }
}

/// The text configured under `key`, if its value is a text.
pub open spec fn text_at(m: Map<Seq<char>, ConfView>, key: Seq<char>) -> Option<Seq<char>> {
    if m.contains_key(key) {
        match m[key] {
            ConfView::Text(t) => Some(t),
            ConfView::Num(_) => None,
        }
    } else {
        None
    }
}

/// The integer configured under `key`, if its value is an integer.
pub open spec fn num_at(m: Map<Seq<char>, ConfView>, key: Seq<char>) -> Option<int> {
    if m.contains_key(key) {
        match m[key] {
            ConfView::Num(n) => Some(n),
            ConfView::Text(_) => None,
        }
    } else {
        None
    }
}

/// Keys and their values, as read from the configuration text.
pub struct Config {
    config: Vec<(String, ConfValType)>,
}

impl View for Config {
    type V = Map<Seq<char>, ConfView>;

    closed spec fn view(&self) -> Map<Seq<char>, ConfView> {
        entries_map(self.config@)
    }
}

/// One line as read.
enum ParsedLine {
    Skip,
    Entry(String, ConfValType),
    Bad(String),
}

spec fn parsed_view(p: ParsedLine) -> ConfLine {
    match p {
        ParsedLine::Skip => ConfLine::Skip,
        ParsedLine::Entry(k, v) => ConfLine::Entry(k@, conf_view(v)),
        ParsedLine::Bad(k) => ConfLine::Bad(k@),
    }
}

/// The integer that `s` spells, if it is one within the range of `isize`.
fn parse_isize(s: &[char]) -> (r: Option<isize>)
    ensures
        r is Some <==> parse_int(s@) is Some,
        r matches Some(n) ==> n as int == parse_int(s@)->0,
{
    let n = s.len();
    if n == 0 {
        return None;
    }
    let signed = s[0] == '-' || s[0] == '+';
    let negative = s[0] == '-';
    let start: usize = if signed {
        1
    } else {
        0
    };
    let ghost d = s@.subrange(start as int, n as int);
    assert(signed ==> d =~= s@.drop_first());
    assert(!signed ==> d =~= s@);
    if start >= n {
        assert(d.len() == 0);
        return None;
    }
    let limit: u128 = isize::MAX as u128 + 1;
    let mut acc: u128 = 0;
    let mut i: usize = start;
    while i < n
        invariant
            start <= i <= n == s@.len(),
            d == s@.subrange(start as int, n as int),
            d == (if s@.len() > 0 && (s@[0] == '-' || s@[0] == '+') {
                s@.drop_first()
            } else {
                s@
            }),
            negative == (s@[0] == '-'),
            limit == isize::MAX + 1,
            all_digits(s@.subrange(start as int, i as int)),
            acc <= limit + 1,
            acc == (if digits_value(s@.subrange(start as int, i as int)) > limit {
                limit + 1
            } else {
                digits_value(s@.subrange(start as int, i as int))
            }),
            digits_value(s@.subrange(start as int, i as int)) >= 0,
        decreases n - i,
    {
        let c = s[i];
        if !('0' <= c && c <= '9') {
            assert(d[i - start] == c);
            assert(!is_digit(d[i - start]));
            assert(!all_digits(d));
            return None;
        }
        let ghost prev = s@.subrange(start as int, i as int);
        let ghost next = s@.subrange(start as int, i + 1);
        assert(next.drop_last() =~= prev);
        let digit = (c as u32 - 48) as u128;
        assert(digits_value(next) == digits_value(prev) * 10 + digit);
        let grown = acc * 10 + digit;
        acc = if grown > limit {
            limit + 1
        } else {
            grown
        };
        proof {
            if digits_value(prev) > limit {
                assert(digits_value(next) > limit) by (nonlinear_arith)
                    requires
                        digits_value(next) == digits_value(prev) * 10 + digit,
                        digits_value(prev) > limit,
                        digit >= 0,
                ;
                assert(grown >= limit) by (nonlinear_arith)
                    requires
                        grown == (limit + 1) * 10 + digit,
                        limit > 0,
                ;
            }
            assert(all_digits(next)) by {
                assert forall|k: int| 0 <= k < next.len() implies is_digit(#[trigger] next[k]) by {
                    if k < prev.len() {
                        assert(next[k] == prev[k]);
                    }
                }
            }
        }
        i += 1;
    }
    assert(s@.subrange(start as int, n as int) == d);
    if negative {
        assert(signed);
        if acc <= limit {
            Some((-(acc as i128)) as isize)
        } else {
            None
        }
    } else if acc <= isize::MAX as u128 {
        Some(acc as isize)
    } else {
        None
    }
}

fn parse_line(l: &[char]) -> (r: ParsedLine)
    ensures
        parsed_view(r) == conf_line(l@),
{
    let t0 = trimmed(l, 0, l.len());
    assert(l@.subrange(0, l@.len() as int) =~= l@);
    let t = chars_of(t0.as_str());
    let p = find_from(t.as_slice(), '=', 0);
    if t.len() == 0 || t[0] == '#' || p >= t.len() || p == 0 {
        return ParsedLine::Skip;
    }
    let key = trimmed(t.as_slice(), 0, p);
    let v0 = trimmed(t.as_slice(), p + 1, t.len());
    let v = chars_of(v0.as_str());
    if v.len() > 0 && v[0] == '"' {
        let e = find_from(v.as_slice(), '"', 1);
        let text = crate::text::string_of(v.as_slice(), 1, e);
        ParsedLine::Entry(key, ConfValType::Text(text))
    } else {
        let h = find_from(v.as_slice(), '#', 0);
        let num = trimmed(v.as_slice(), 0, h);
        let nv = chars_of(num.as_str());
        match parse_isize(nv.as_slice()) {
            Some(n) => ParsedLine::Entry(key, ConfValType::Num(n)),
            None => ParsedLine::Bad(key),
        }
    }
}

/// Parses the configuration text.
pub fn parse_config(text: &str) -> (r: Result<Config, ConfigError>)
    ensures
        r is Ok <==> config_of(text@) is Ok,
        r matches Ok(c) ==> c@ == config_of(text@)->Ok_0,
        r matches Err(e) ==> e.key@ == config_of(text@)->Err_0,
{
    let s = chars_of(text);
    let mut config: Vec<(String, ConfValType)> = Vec::new();
    let mut cur: Vec<char> = Vec::new();
    let mut i: usize = 0;
    while i < s.len()
        invariant
            s@ == text@,
            i <= s@.len(),
            conf_apply(Ok(entries_map(config@)), lines_from(s@, i as int, cur@)) == config_of(
                text@,
            ),
        decreases s@.len() - i,
    {
        if s[i] == '\n' {
            let ghost rest = lines_from(s@, i + 1, Seq::empty());
            assert((seq![cur@] + rest).drop_first() =~= rest);
            assert((seq![cur@] + rest)[0] == cur@);
            let ghost before = config@;
            match parse_line(cur.as_slice()) {
                ParsedLine::Skip => {},
                ParsedLine::Entry(k, v) => {
                    config.push((k, v));
                    assert(config@.drop_last() =~= before);
                },
                ParsedLine::Bad(k) => {
                    proof {
                        assert(conf_line(cur@) is Bad);
                        assert(conf_step(Ok(entries_map(config@)), cur@) == Err::<
                            Map<Seq<char>, ConfView>,
                            Seq<char>,
                        >(k@));
                        assert(lines_from(s@, i as int, cur@) == seq![cur@] + rest);
                        lemma_apply_err(k@, rest);
                    }
                    return Err(ConfigError::new(k.as_str(), "the value is neither a quoted text nor an integer"));
                },
            }
            cur = Vec::new();
        } else {
            cur.push(s[i]);
        }
        i += 1;
    }
    let ghost before = config@;
    assert(lines_from(s@, i as int, cur@) == seq![cur@]);
    assert(seq![cur@].drop_first() =~= Seq::<Seq<char>>::empty());
    assert(seq![cur@][0] == cur@);
    let ghost last = conf_step(Ok(entries_map(before)), cur@);
    assert(conf_apply(last, Seq::empty()) == last);
    assert(config_of(text@) == last);
    match parse_line(cur.as_slice()) {
        ParsedLine::Skip => {},
        ParsedLine::Entry(k, v) => {
            config.push((k, v));
            assert(config@.drop_last() =~= before);
        },
        ParsedLine::Bad(k) => {
            return Err(ConfigError::new(k.as_str(), "the value is neither a quoted text nor an integer"));
        },
    }
    Ok(Config { config })
}

impl Config {
    fn lookup(&self, key: &str) -> (r: Option<ConfValType>)
        ensures
            r is Some <==> self@.contains_key(key@),
            r matches Some(v) ==> conf_view(v) == self@[key@],
    {
        let k = key.to_owned();
        let mut j = self.config.len();
        while j > 0
            invariant
                k@ == key@,
                j <= self.config@.len(),
                forall|i: int| j <= i < self.config@.len() ==> self.config@[i].0@ != k@,
            decreases j,
        {
            if self.config[j - 1].0 == k {
                proof {
                    lemma_entries_last(self.config@, k@, j - 1);
                }
                return Some(
                    match &self.config[j - 1].1 {
                        ConfValType::Text(t) => ConfValType::Text(t.clone()),
                        ConfValType::Num(n) => ConfValType::Num(*n),
                    },
                );
            }
            j -= 1;
        }
        proof {
            lemma_entries_absent(self.config@, k@);
        }
        None
    }

    /// The text configured under `key`.
    pub fn get_text(&self, key: &str) -> (r: Option<String>)
        ensures
            r is Some <==> text_at(self@, key@) is Some,
            r matches Some(t) ==> t@ == text_at(self@, key@)->0,
    {
        match self.lookup(key) {
            Some(ConfValType::Text(t)) => Some(t),
            _ => None,
        }
    }

    /// The integer configured under `key`.
    pub fn get_num(&self, key: &str) -> (r: Option<isize>)
        ensures
            r is Some <==> num_at(self@, key@) is Some,
            r matches Some(n) ==> n as int == num_at(self@, key@)->0,
    {
        match self.lookup(key) {
            Some(ConfValType::Num(n)) => Some(n),
            _ => None,
        }
    }
}

/// Whether a configuration holds every required setting, of the right kind and range.
pub open spec fn settings_ok(m: Map<Seq<char>, ConfView>) -> bool {
    &&& text_at(m, "static_resource_path"@) is Some
    &&& num_at(m, "thread_pool_size"@) is Some
    &&& num_at(m, "thread_pool_size"@)->0 >= 0
    &&& num_at(m, "timezone"@) is Some
    &&& i32::MIN <= num_at(m, "timezone"@)->0 <= i32::MAX
    &&& text_at(m, "ip"@) is Some
    &&& num_at(m, "port"@) is Some
    &&& 0 <= num_at(m, "port"@)->0 <= 65535
}

/// The first required setting that is missing or out of range.
pub open spec fn first_bad_setting(m: Map<Seq<char>, ConfView>) -> Seq<char> {
    if text_at(m, "static_resource_path"@) is None {
        "static_resource_path"@
    } else if !(num_at(m, "thread_pool_size"@) is Some && num_at(m, "thread_pool_size"@)->0 >= 0) {
        "thread_pool_size"@
    } else if !(num_at(m, "timezone"@) is Some && i32::MIN <= num_at(m, "timezone"@)->0
        <= i32::MAX) {
        "timezone"@
    } else if text_at(m, "ip"@) is None {
        "ip"@
    } else {
        "port"@
    }
}

pub open spec fn opt_text(o: Option<String>) -> Option<Seq<char>> {
    match o {
        Some(s) => Some(s@),
        None => None,
    }
}

/// The settings of the server.
pub struct MyConfig {
    /// The directory that files are served from.
    pub static_resource_path: String,
    /// The page that a bare `/` names.
    pub index_page_path: String,
    /// A page to send with status 404, below the static directory.
    pub page404_path: Option<String>,
    /// A page to send with status 500, below the static directory.
    pub page500_path: Option<String>,
    pub thread_pool_size: usize,
    /// Hours east of UTC, for the time in log lines.
    pub timezone: i32,
    /// The IPv4 address to listen on, as written.
    pub ip: String,
    pub port: u16,
}

impl MyConfig {
    /// The settings that a configuration gives; an error names the first
    /// setting that is missing or out of range.
    pub fn new(config: &Config) -> (r: Result<MyConfig, ConfigError>)
        ensures
            r is Ok <==> settings_ok(config@),
            r matches Err(e) ==> e.key@ == first_bad_setting(config@),
            r matches Ok(c) ==> {
                &&& c.static_resource_path@ == text_at(config@, "static_resource_path"@)->0
                &&& c.index_page_path@ == (if text_at(config@, "index_page_path"@) is Some {
                    text_at(config@, "index_page_path"@)->0
                } else {
                    "index.html"@
                })
                &&& opt_text(c.page404_path) == text_at(config@, "page404_path"@)
                &&& opt_text(c.page500_path) == text_at(config@, "page500_path"@)
                &&& c.thread_pool_size as int == num_at(config@, "thread_pool_size"@)->0
                &&& c.timezone as int == num_at(config@, "timezone"@)->0
                &&& c.ip@ == text_at(config@, "ip"@)->0
                &&& c.port as int == num_at(config@, "port"@)->0
            },
    {
        let static_resource_path = Self::get_static_resource_path(config)?;
        let thread_pool_size = Self::get_thread_pool_size(config)?;
        let timezone = Self::get_timezone(config)?;
        let ip = Self::get_ip(config)?;
        let port = Self::get_port(config)?;
        Ok(
            MyConfig {
                static_resource_path,
                index_page_path: Self::get_index_page_path(config),
                page404_path: Self::get_page404_path(config),
                page500_path: Self::get_page500_path(config),
                thread_pool_size,
                timezone,
                ip,
                port,
            },
        )
    }

    fn get_static_resource_path(config: &Config) -> (r: Result<String, ConfigError>)
        ensures
            r is Ok <==> text_at(config@, "static_resource_path"@) is Some,
            r matches Ok(t) ==> t@ == text_at(config@, "static_resource_path"@)->0,
            r matches Err(e) ==> e.key@ == "static_resource_path"@,
    {
        match config.get_text("static_resource_path") {
            Some(path) => Ok(path),
            None => Err(ConfigError::new("static_resource_path", "a quoted path is required")),
        }
    }

    fn get_index_page_path(config: &Config) -> (r: String)
        ensures
            r@ == (if text_at(config@, "index_page_path"@) is Some {
                text_at(config@, "index_page_path"@)->0
            } else {
                "index.html"@
            }),
    {
        match config.get_text("index_page_path") {
            Some(path) => path,
            None => "index.html".to_owned(),
        }
    }

    fn get_page404_path(config: &Config) -> (r: Option<String>)
        ensures
            opt_text(r) == text_at(config@, "page404_path"@),
    {
        config.get_text("page404_path")
    }

    fn get_page500_path(config: &Config) -> (r: Option<String>)
        ensures
            opt_text(r) == text_at(config@, "page500_path"@),
    {
        config.get_text("page500_path")
    }

    fn get_thread_pool_size(config: &Config) -> (r: Result<usize, ConfigError>)
        ensures
            r is Ok <==> num_at(config@, "thread_pool_size"@) is Some && num_at(
                config@,
                "thread_pool_size"@,
            )->0 >= 0,
            r matches Ok(n) ==> n as int == num_at(config@, "thread_pool_size"@)->0,
            r matches Err(e) ==> e.key@ == "thread_pool_size"@,
    {
        match config.get_num("thread_pool_size") {
            Some(n) => if n >= 0 {
                Ok(n as usize)
            } else {
                Err(ConfigError::new("thread_pool_size", "the size cannot be negative"))
            },
            None => Err(ConfigError::new("thread_pool_size", "an integer is required")),
        }
    }

    fn get_timezone(config: &Config) -> (r: Result<i32, ConfigError>)
        ensures
            r is Ok <==> num_at(config@, "timezone"@) is Some && i32::MIN <= num_at(
                config@,
                "timezone"@,
            )->0 <= i32::MAX,
            r matches Ok(n) ==> n as int == num_at(config@, "timezone"@)->0,
            r matches Err(e) ==> e.key@ == "timezone"@,
    {
        match config.get_num("timezone") {
            Some(n) => if i32::MIN as isize <= n && n <= i32::MAX as isize {
                Ok(n as i32)
            } else {
                Err(ConfigError::new("timezone", "the offset is out of range"))
            },
            None => Err(ConfigError::new("timezone", "an integer is required")),
        }
    }

    fn get_ip(config: &Config) -> (r: Result<String, ConfigError>)
        ensures
            r is Ok <==> text_at(config@, "ip"@) is Some,
            r matches Ok(t) ==> t@ == text_at(config@, "ip"@)->0,
            r matches Err(e) ==> e.key@ == "ip"@,
    {
        match config.get_text("ip") {
            Some(ip) => Ok(ip),
            None => Err(ConfigError::new("ip", "a quoted address is required")),
        }
    }

    fn get_port(config: &Config) -> (r: Result<u16, ConfigError>)
        ensures
            r is Ok <==> num_at(config@, "port"@) is Some && 0 <= num_at(config@, "port"@)->0
                <= 65535,
            r matches Ok(n) ==> n as int == num_at(config@, "port"@)->0,
            r matches Err(e) ==> e.key@ == "port"@,
    {
        match config.get_num("port") {
            Some(n) => if 0 <= n && n <= 65535 {
                Ok(n as u16)
            } else {
                Err(ConfigError::new("port", "the port is out of range"))
            },
            None => Err(ConfigError::new("port", "an integer is required")),
        }
    }
}

} // verus!
