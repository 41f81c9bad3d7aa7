//! The dashboard feed: the events sent to a live log dashboard, how they are built from log
//! records and span transitions, and the handshake that tells the layer which port to stream
//! to.

use vstd::prelude::*;

verus! {

/// Severity of a dashboard event, least severe first.
#[derive(Debug, Clone, Copy, PartialEq, Eq, PartialOrd, Hash)]
pub enum Level {
    TRACE,
    DEBUG,
    INFO,
    WARN,
    ERROR,
}

/// The upper-case name of a level.
pub open spec fn level_text(level: Level) -> Seq<char> {
    match level {
        Level::TRACE => "TRACE"@,
        Level::DEBUG => "DEBUG"@,
        Level::INFO => "INFO"@,
        Level::WARN => "WARN"@,
        Level::ERROR => "ERROR"@,
    }
}

impl Level {
    /// The upper-case name of the level, such as `"WARN"`.
    pub fn to_string(&self) -> (s: String)
        ensures
            s@ == level_text(*self),
    {
        match self {
            Level::TRACE => String::from_str("TRACE"),
            Level::DEBUG => String::from_str("DEBUG"),
            Level::INFO => String::from_str("INFO"),
            Level::WARN => String::from_str("WARN"),
            Level::ERROR => String::from_str("ERROR"),
        }
    }
}

/// Which characters a trim removes.
#[derive(Debug, Clone, Copy, PartialEq, Eq)]
pub enum TrimSet {
    /// The double quote `"`.
    Quotes,
    /// Unicode white space, as `char::is_whitespace` defines it.
    Whitespace,
}

/// Unicode white space: the characters with the `White_Space` property.
pub open spec fn is_white_space(c: char) -> bool {
    ||| '\u{9}' <= c <= '\u{d}'
    ||| c == ' '
    ||| c == '\u{85}'
    ||| c == '\u{a0}'
    ||| c == '\u{1680}'
    ||| '\u{2000}' <= c <= '\u{200a}'
    ||| c == '\u{2028}'
    ||| c == '\u{2029}'
    ||| c == '\u{202f}'
    ||| c == '\u{205f}'
    ||| c == '\u{3000}'
}

pub open spec fn in_trim_set(set: TrimSet, c: char) -> bool {
    match set {
        TrimSet::Quotes => c == '"',
        TrimSet::Whitespace => is_white_space(c),
    }
}

/// `s` with every character of `set` removed from both ends.
pub open spec fn trimmed(set: TrimSet, s: Seq<char>) -> Seq<char>
    decreases s.len(),
{
    if s.len() > 0 && in_trim_set(set, s[0]) {
        trimmed(set, s.drop_first())
    } else if s.len() > 0 && in_trim_set(set, s.last()) {
        trimmed(set, s.drop_last())
    } else {
        s
    }
}

fn char_in_trim_set(set: TrimSet, c: char) -> (b: bool)
    ensures
        b == in_trim_set(set, c),
{
    match set {
        TrimSet::Quotes => c == '"',
        TrimSet::Whitespace => {
            ('\u{9}' <= c && c <= '\u{d}') || c == ' ' || c == '\u{85}' || c == '\u{a0}' || c
                == '\u{1680}' || ('\u{2000}' <= c && c <= '\u{200a}') || c == '\u{2028}' || c
                == '\u{2029}' || c == '\u{202f}' || c == '\u{205f}' || c == '\u{3000}'
        },
    }
}

proof fn lemma_trimmed_all(set: TrimSet, s: Seq<char>)
    requires
        forall|i: int| 0 <= i < s.len() ==> in_trim_set(set, #[trigger] s[i]),
    ensures
        trimmed(set, s) == Seq::<char>::empty(),
    decreases s.len(),
{
    if s.len() > 0 {
        assert(in_trim_set(set, s[0]));
        let t = s.drop_first();
        assert forall|i: int| 0 <= i < t.len() implies in_trim_set(set, #[trigger] t[i]) by {
            assert(t[i] == s[i + 1]);
        }
        lemma_trimmed_all(set, t);
    } else {
        assert(s =~= Seq::<char>::empty());
    }
}

proof fn lemma_trimmed_range(set: TrimSet, s: Seq<char>, a: int, b: int)
    requires
        0 <= a < b <= s.len(),
        forall|i: int| 0 <= i < a ==> in_trim_set(set, #[trigger] s[i]),
        forall|i: int| b <= i < s.len() ==> in_trim_set(set, #[trigger] s[i]),
        !in_trim_set(set, s[a]),
        !in_trim_set(set, s[b - 1]),
    ensures
        trimmed(set, s) == s.subrange(a, b),
    decreases s.len(),
{
    if a > 0 {
        assert(in_trim_set(set, s[0]));
        let t = s.drop_first();
        assert forall|i: int| 0 <= i < a - 1 implies in_trim_set(set, #[trigger] t[i]) by {
            assert(t[i] == s[i + 1]);
        }
        assert forall|i: int| b - 1 <= i < t.len() implies in_trim_set(set, #[trigger] t[i]) by {
            assert(t[i] == s[i + 1]);
        }
        lemma_trimmed_range(set, t, a - 1, b - 1);
        assert(t.subrange(a - 1, b - 1) =~= s.subrange(a, b));
    } else if b < s.len() {
        assert(in_trim_set(set, s.last()));
        let t = s.drop_last();
        assert forall|i: int| b <= i < t.len() implies in_trim_set(set, #[trigger] t[i]) by {
            assert(t[i] == s[i]);
        }
        lemma_trimmed_range(set, t, a, b);
        assert(t.subrange(a, b) =~= s.subrange(a, b));
    } else {
        assert(s.subrange(0, s.len() as int) =~= s);
    }
}

/// `s` with every character of `set` removed from both ends.
pub fn trim(set: TrimSet, s: &str) -> (r: String)
    ensures
        r@ == trimmed(set, s@),
{
    let n = s.unicode_len();
    let mut a: usize = 0;
    while a < n && char_in_trim_set(set, s.get_char(a))
        invariant
            n == s@.len(),
            a <= n,
            forall|i: int| 0 <= i < a ==> in_trim_set(set, #[trigger] s@[i]),
        decreases n - a,
    {
        a = a + 1;
    }
    if a == n {
        proof {
            lemma_trimmed_all(set, s@);
        }
        return String::new();
    }
    let mut b: usize = n;
    while b > a && char_in_trim_set(set, s.get_char(b - 1))
        invariant
            n == s@.len(),
            a < n,
            a <= b <= n,
            !in_trim_set(set, s@[a as int]),
            forall|i: int| b <= i < n ==> in_trim_set(set, #[trigger] s@[i]),
        decreases b,
    {
        b = b - 1;
    }
    proof {
        lemma_trimmed_range(set, s@, a as int, b as int);
    }
    String::from_str(s.substring_char(a, b))
}

/// The numeric value of a decimal digit character.
pub open spec fn digit_value(c: char) -> nat {
    (c as u32 - '0' as u32) as nat
}

pub open spec fn is_digit(c: char) -> bool {
    '0' <= c <= '9'
}

/// The value of a string of decimal digits (leading zeros allowed).
pub open spec fn decimal_value(d: Seq<char>) -> nat
    decreases d.len(),
{
    if d.len() == 0 {
        0
    } else {
        decimal_value(d.drop_last()) * 10 + digit_value(d.last())
    }
}

/// What `str::parse::<u16>` accepts: an optional `+`, then one or more decimal digits whose
/// value is at most 65535. Anything else (empty text, a lone sign, any other character, a
/// larger value) is refused.
pub open spec fn parsed_u16(s: Seq<char>) -> Option<u16> {
    let digits = unsigned_digits(s);
    if digits.len() > 0 && all_digits(digits) && decimal_value(digits) <= u16::MAX {
        Some(decimal_value(digits) as u16)
    } else {
        None
    }
}

/// The text after an optional leading `+`.
pub open spec fn unsigned_digits(s: Seq<char>) -> Seq<char> {
    if s.len() > 0 && s[0] == '+' {
        s.drop_first()
    } else {
        s
    }
}

pub open spec fn all_digits(d: Seq<char>) -> bool {
    forall|i: int| 0 <= i < d.len() ==> is_digit(#[trigger] d[i])
}

proof fn lemma_decimal_value_grows(d: Seq<char>, k: int)
    requires
        0 <= k <= d.len(),
        forall|i: int| 0 <= i < d.len() ==> is_digit(#[trigger] d[i]),
    ensures
        decimal_value(d.take(k)) <= decimal_value(d),
    decreases d.len() - k,
{
    if k < d.len() {
        lemma_decimal_value_grows(d, k + 1);
        assert(d.take(k + 1).drop_last() =~= d.take(k));
    } else {
        assert(d.take(k) =~= d);
    }
}

/// Parses `s` as `str::parse::<u16>` does (see `parsed_u16`).
pub fn parse_u16(s: &str) -> (r: Option<u16>)
    ensures
        r == parsed_u16(s@),
{
    let n = s.unicode_len();
    let start: usize = if n > 0 && s.get_char(0) == '+' {
        1
    } else {
        0
    };
    let ghost digits = unsigned_digits(s@);
    if start == n {
        return None;
    }
    let mut value: u32 = 0;
    let mut i: usize = start;
    while i < n
        invariant
            n == s@.len(),
            start <= i <= n,
            start < n,
            digits == s@.subrange(start as int, n as int),
            digits == unsigned_digits(s@),
            value <= u16::MAX,
            forall|j: int| start <= j < i ==> is_digit(#[trigger] s@[j]),
            value == decimal_value(digits.take(i - start)),
        decreases n - i,
    {
        let c = s.get_char(i);
        if c < '0' || c > '9' {
            proof {
                assert(digits[i - start] == c);
                assert(!is_digit(digits[i - start]));
                assert(!all_digits(digits));

            }
            return None;
        }
        let d = (c as u32) - ('0' as u32);
        proof {
            assert(digits.take(i + 1 - start).drop_last() =~= digits.take(i - start));
            assert(digits.take(i + 1 - start).last() == c);
        }
        value = value * 10 + d;
        assert(value == decimal_value(digits.take(i + 1 - start)));
        if value > 65535 {
            proof {
                if all_digits(digits) {
                    lemma_decimal_value_grows(digits, i + 1 - start);
                }
            }
            return None;
        }
        i = i + 1;
    }
    proof {
        assert(digits.take(n - start) =~= digits);
        assert forall|j: int| 0 <= j < digits.len() implies is_digit(#[trigger] digits[j]) by {
            assert(digits[j] == s@[j + start]);
        }
    }
    Some(value as u16)
}

/// The decimal text of `n`, without leading zeros.
pub open spec fn decimal_text(n: nat) -> Seq<char>
    decreases n,
{
    if n < 10 {
        seq![digit_char(n)]
    } else {
        decimal_text(n / 10).push(digit_char(n % 10))
    }
}

pub open spec fn digit_char(d: nat) -> char {
    ('0' as u32 + d) as char
}

fn digit_str(d: u32) -> (s: &'static str)
    requires
        d < 10,
    ensures
        s@ == seq![digit_char(d as nat)],
{
    proof {
        reveal_strlit("0");
        reveal_strlit("1");
        reveal_strlit("2");
        reveal_strlit("3");
        reveal_strlit("4");
        reveal_strlit("5");
        reveal_strlit("6");
        reveal_strlit("7");
        reveal_strlit("8");
        reveal_strlit("9");
    }
    match d {
        0 => "0",
        1 => "1",
        2 => "2",
        3 => "3",
        4 => "4",
        5 => "5",
        6 => "6",
        7 => "7",
        8 => "8",
        _ => "9",
    }
}

/// The decimal text of `n`, as `n.to_string()` gives it.
pub fn decimal_string(n: u16) -> (s: String)
    ensures
        s@ == decimal_text(n as nat),
    decreases n,
{
    if n < 10 {
        String::from_str(digit_str(n as u32))
    } else {
        let mut s = decimal_string(n / 10);
        s.append(digit_str((n % 10) as u32));
        s
    }
}

proof fn lemma_digit_char(k: nat)
    requires
        k < 10,
    ensures
        is_digit(digit_char(k)),
        digit_value(digit_char(k)) == k,
{
    assert(('0' as u32 + k) < 0xD800);
    assert(digit_char(k) as u32 == '0' as u32 + k);
}

proof fn lemma_decimal_text(n: nat)
    ensures
        decimal_text(n).len() > 0,
        all_digits(decimal_text(n)),
        decimal_value(decimal_text(n)) == n,
    decreases n,
{
    lemma_digit_char((n % 10) as nat);
    if n < 10 {
        let d = decimal_text(n);
        assert(d.drop_last() =~= Seq::<char>::empty());
        assert(d.last() == digit_char(n));
        assert(decimal_value(Seq::<char>::empty()) == 0);
        assert(n % 10 == n);
        assert(decimal_value(d) == decimal_value(d.drop_last()) * 10 + digit_value(d.last()));
    } else {
        lemma_decimal_text(n / 10);
        let t = decimal_text(n / 10);
        let d = t.push(digit_char(n % 10));
        assert(d.drop_last() =~= t);
        assert(decimal_value(d) == decimal_value(t) * 10 + digit_value(d.last()));
        assert(n == (n / 10) * 10 + n % 10);
        assert forall|i: int| 0 <= i < d.len() implies is_digit(#[trigger] d[i]) by {
            if i < t.len() {
                assert(d[i] == t[i]);
            }
        }
    }
}

/// Why the dashboard's handshake line was not understood.
#[derive(Debug, Clone, Copy, PartialEq, Eq)]
pub enum HandshakeError {
    /// The line does not start with `PORT `.
    UnexpectedMessage,
    /// The text after `PORT `, trimmed, is not a port number.
    InvalidPort,
}

/// The prefix of the dashboard's handshake line.
pub open spec fn port_prefix() -> Seq<char> {
    seq!['P', 'O', 'R', 'T', ' ']
}

/// The port the dashboard names in its handshake line: the line must start with `PORT `, and
/// the rest, without surrounding white space, must parse as a `u16`.
pub open spec fn handshake_port(line: Seq<char>) -> Result<u16, HandshakeError> {
    if line.len() >= 5 && line.take(5) == port_prefix() {
        match parsed_u16(trimmed(TrimSet::Whitespace, line.skip(5))) {
            Some(p) => Ok(p),
            None => Err(HandshakeError::InvalidPort),
        }
    } else {
        Err(HandshakeError::UnexpectedMessage)
    }
}

/// Reads the port from the dashboard's handshake line (see `handshake_port`).
pub fn parse_port_line(line: &str) -> (r: Result<u16, HandshakeError>)
    ensures
        r == handshake_port(line@),
{
    let n = line.unicode_len();
    if n < 5 || line.get_char(0) != 'P' || line.get_char(1) != 'O' || line.get_char(2) != 'R'
        || line.get_char(3) != 'T' || line.get_char(4) != ' ' {
        proof {
            if line@.len() >= 5 && line@.take(5) == port_prefix() {
                assert(line@.take(5)[0] == 'P');
                assert(line@.take(5)[1] == 'O');
                assert(line@.take(5)[2] == 'R');
                assert(line@.take(5)[3] == 'T');
                assert(line@.take(5)[4] == ' ');
            }
        }
        return Err(HandshakeError::UnexpectedMessage);
    }
    proof {
        assert(line@.take(5) =~= port_prefix());
    }
    let rest = line.substring_char(5, n);
    let trimmed_rest = trim(TrimSet::Whitespace, rest);
    proof {
        assert(rest@ =~= line@.skip(5));
    }
    match parse_u16(trimmed_rest.as_str()) {
        Some(p) => Ok(p),
        None => Err(HandshakeError::InvalidPort),
    }
}

/// The handshake gives back the port the dashboard announces: a line made of `PORT `, the
/// decimal text of a port and any trailing white space (such as the line break) reads as that
/// port.
pub proof fn law_handshake_reads_announced_port(port: u16, tail: Seq<char>)
    requires
        forall|i: int| 0 <= i < tail.len() ==> is_white_space(#[trigger] tail[i]),
    ensures
        handshake_port(port_prefix() + decimal_text(port as nat) + tail) == Ok::<u16, HandshakeError>(port),
{
    let d = decimal_text(port as nat);
    lemma_decimal_text(port as nat);
    let line = port_prefix() + d + tail;
    assert(line.take(5) =~= port_prefix());
    let rest = line.skip(5);
    assert(rest =~= d + tail);
    assert(is_digit(d[0]));
    assert(is_digit(d[d.len() - 1]));
    assert(rest[0] == d[0]);
    assert(rest[d.len() - 1] == d[d.len() - 1]);
    assert forall|i: int| d.len() <= i < rest.len() implies in_trim_set(TrimSet::Whitespace, #[trigger] rest[i]) by {
        assert(rest[i] == tail[i - d.len()]);
    }
    lemma_trimmed_range(TrimSet::Whitespace, rest, 0, d.len() as int);
    assert(rest.subrange(0, d.len() as int) =~= d);
    assert(unsigned_digits(d) == d);
}

/// The host part of an address: everything before the first `:` (all of it if there is none).
pub open spec fn host_of(addr: Seq<char>) -> Seq<char>
    decreases addr.len(),
{
    if addr.len() == 0 || addr[0] == ':' {
        Seq::empty()
    } else {
        seq![addr[0]] + host_of(addr.drop_first())
    }
}

proof fn lemma_host_of(addr: Seq<char>, i: int)
    requires
        0 <= i <= addr.len(),
        forall|j: int| 0 <= j < i ==> addr[j] != ':',
        i == addr.len() || addr[i] == ':',
    ensures
        host_of(addr) == addr.take(i),
    decreases i,
{
    if i == 0 {
        assert(addr.take(0) =~= Seq::<char>::empty());
    } else {
        let t = addr.drop_first();
        assert forall|j: int| 0 <= j < i - 1 implies t[j] != ':' by {
            assert(t[j] == addr[j + 1]);
        }
        lemma_host_of(t, i - 1);
        assert(seq![addr[0]] + t.take(i - 1) =~= addr.take(i));
    }
}

/// The address of the dashboard's stream: the host of `remote_addr`, a colon, and `port`.
pub open spec fn redirect_text(remote_addr: Seq<char>, port: u16) -> Seq<char> {
    host_of(remote_addr) + seq![':'] + decimal_text(port as nat)
}

/// The address of the dashboard's stream (see `redirect_text`).
pub fn redirect_address(remote_addr: &str, port: u16) -> (r: String)
    ensures
        r@ == redirect_text(remote_addr@, port),
{
    let n = remote_addr.unicode_len();
    let mut i: usize = 0;
    while i < n && remote_addr.get_char(i) != ':'
        invariant
            n == remote_addr@.len(),
            i <= n,
            forall|j: int| 0 <= j < i ==> remote_addr@[j] != ':',
        decreases n - i,
    {
        i = i + 1;
    }
    proof {
        lemma_host_of(remote_addr@, i as int);
        reveal_strlit(":");
    }
    let mut r = String::from_str(remote_addr.substring_char(0, i));
    r.append(":");
    let port_text = decimal_string(port);
    r.append(port_text.as_str());
    proof {
        assert(remote_addr@.subrange(0, i as int) =~= remote_addr@.take(i as int));
    }
    r
}

/// Options of the dashboard layer.
pub struct DashboardTcpLayerParams {
    /// Whether entering and leaving spans are reported too.
    pub span_events: bool,
}

impl Default for DashboardTcpLayerParams {
    /// Span events off.
    fn default() -> (p: Self)
        ensures
            !p.span_events,
    {
        DashboardTcpLayerParams { span_events: false }
    }
}

/// The span an event happened in.
pub struct SpanMeta {
    pub id: u64,
    pub name: String,
}

/// Named values attached to an event, as text; no name occurs twice.
pub open spec fn field_texts(fields: Seq<(String, String)>) -> Seq<(Seq<char>, Seq<char>)> {
    fields.map_values(|f: (String, String)| (f.0@, f.1@))
}

pub open spec fn names_unique(fields: Seq<(Seq<char>, Seq<char>)>) -> bool {
    forall|i: int, j: int| 0 <= i < j < fields.len() ==> fields[i].0 != fields[j].0
}

/// `fields` with `name` set to `value`: the existing entry of that name is replaced, otherwise
/// the entry is added at the end.
pub open spec fn with_field(
    fields: Seq<(Seq<char>, Seq<char>)>,
    name: Seq<char>,
    value: Seq<char>,
) -> Seq<(Seq<char>, Seq<char>)> {
    if exists|i: int| 0 <= i < fields.len() && fields[i].0 == name {
        fields.update(choose|i: int| 0 <= i < fields.len() && fields[i].0 == name, (name, value))
    } else {
        fields.push((name, value))
    }
}

/// One event sent to the dashboard.
pub struct DashboardEvent {
    /// `log`, `span_enter` or `span_exit`.
    pub event_type: String,
    /// Milliseconds since the Unix epoch.
    pub timestamp: u64,
    pub level: Level,
    pub target: String,
    pub message: String,
    pub fields: Vec<(String, String)>,
    pub span_meta: Option<SpanMeta>,
    pub parent_span_id: Option<u64>,
    pub file: Option<String>,
    pub line: Option<u32>,
}

/// Collects the message and the other fields of a log record.
pub struct DashboardFieldVisitor {
    pub message: String,
    pub fields: Vec<(String, String)>,
}

pub open spec fn message_field_name() -> Seq<char> {
    seq!['m', 'e', 's', 's', 'a', 'g', 'e']
}

impl DashboardFieldVisitor {
    /// No message and no fields.
    pub fn new() -> (v: Self)
        ensures
            v.message@ == Seq::<char>::empty(),
            v.fields@ == Seq::<(String, String)>::empty(),
    {
        DashboardFieldVisitor { message: String::new(), fields: Vec::new() }
    }

    /// Records the field `name`, whose value printed with `{:?}` is `value`. The field named
    /// `message` becomes the message, without the double quotes around it; any other field is
    /// set in `fields`.
    pub fn record(&mut self, name: &str, value: &str)
        requires
            names_unique(field_texts(old(self).fields@)),
        ensures
            names_unique(field_texts(final(self).fields@)),
            name@ == message_field_name() ==> final(self).message@ == trimmed(
                TrimSet::Quotes,
                value@,
            ) && final(self).fields@ == old(self).fields@,
            name@ != message_field_name() ==> final(self).message == old(self).message
                && field_texts(final(self).fields@) == with_field(
                field_texts(old(self).fields@),
                name@,
                value@,
            ),
    {
        proof {
            reveal_strlit("message");
            assert("message"@ =~= message_field_name());
        }
        let name_string = String::from_str(name);
        let message_name = String::from_str("message");
        if name_string == message_name {
            self.message = trim(TrimSet::Quotes, value);
        } else {
            set_field(&mut self.fields, name_string, String::from_str(value));
        }
    }
}

fn set_field(fields: &mut Vec<(String, String)>, name: String, value: String)
    requires
        names_unique(field_texts(old(fields)@)),
    ensures
        names_unique(field_texts(final(fields)@)),
        field_texts(final(fields)@) == with_field(field_texts(old(fields)@), name@, value@),
{
    let ghost old_texts = field_texts(fields@);
    let mut i: usize = 0;
    while i < fields.len()
        invariant
            fields@ == old(fields)@,
            old_texts == field_texts(fields@),
            names_unique(old_texts),
            i <= fields@.len(),
            forall|j: int| 0 <= j < i ==> fields@[j].0@ != name@,
        decreases fields@.len() - i,
    {
        if fields[i].0 == name {
            proof {
                let t = old_texts;
                assert(t[i as int].0 == name@);
                let c = choose|c: int| 0 <= c < t.len() && t[c].0 == name@;
                if c != i {
                    if c < i {
                        assert(t[c].0 != t[i as int].0);
                    } else {
                        assert(t[i as int].0 != t[c].0);
                    }
                }
            }
            fields.set(i, (name, value));
            proof {
                assert(field_texts(fields@) =~= old_texts.update(i as int, (name@, value@)));
                let u = field_texts(fields@);
                assert forall|a: int, b: int| 0 <= a < b < u.len() implies u[a].0 != u[b].0 by {
                    assert(old_texts[a].0 != old_texts[b].0);
                    if a == i {
                        assert(u[a].0 == old_texts[a].0);
                    }
                    if b == i {
                        assert(u[b].0 == old_texts[b].0);
                    }
                }
            }
            return;
        }
        i = i + 1;
    }
    proof {
        assert forall|j: int| 0 <= j < old_texts.len() implies old_texts[j].0 != name@ by {
            assert(old_texts[j].0 == fields@[j].0@);
        }
    }
    fields.push((name, value));
    proof {
        assert(field_texts(fields@) =~= old_texts.push((name@, value@)));
        let u = field_texts(fields@);
        assert forall|a: int, b: int| 0 <= a < b < u.len() implies u[a].0 != u[b].0 by {
            if b == old_texts.len() {
                assert(old_texts[a].0 != name@);
            } else {
                assert(old_texts[a].0 != old_texts[b].0);
            }
        }
    }
}

/// Whether a span is being entered or left.
#[derive(Debug, Clone, Copy, PartialEq, Eq)]
pub enum SpanTransition {
    Enter,
    Exit,
}

impl DashboardEvent {
    /// The event for a log record: its message and fields come from `visitor`.
    pub fn log(
        timestamp: u64,
        level: Level,
        target: String,
        visitor: DashboardFieldVisitor,
        span_meta: Option<SpanMeta>,
        parent_span_id: Option<u64>,
        file: Option<String>,
        line: Option<u32>,
    ) -> (e: Self)
        ensures
            e.event_type@ == "log"@,
            e.timestamp == timestamp,
            e.level == level,
            e.target == target,
            e.message == visitor.message,
            e.fields == visitor.fields,
            e.span_meta == span_meta,
            e.parent_span_id == parent_span_id,
            e.file == file,
            e.line == line,
    {
        DashboardEvent {
            event_type: String::from_str("log"),
            timestamp,
            level,
            target,
            message: visitor.message,
            fields: visitor.fields,
            span_meta,
            parent_span_id,
            file,
            line,
        }
    }

    /// The event for entering or leaving the span `span_id` called `span_name`, or `None` when
    /// span events are off. Span events have level `TRACE`, no fields and no parent.
    pub fn span(
        transition: SpanTransition,
        params: &DashboardTcpLayerParams,
        timestamp: u64,
        target: String,
        span_id: u64,
        span_name: String,
        file: Option<String>,
        line: Option<u32>,
    ) -> (e: Option<Self>)
        ensures
            !params.span_events <==> e is None,
            e matches Some(e) ==> {
                &&& e.event_type@ == (match transition {
                    SpanTransition::Enter => "span_enter"@,
                    SpanTransition::Exit => "span_exit"@,
                })
                &&& e.message@ == (match transition {
                    SpanTransition::Enter => "Entering span: "@,
                    SpanTransition::Exit => "Exiting span: "@,
                }) + span_name@
                &&& e.timestamp == timestamp
                &&& e.level == Level::TRACE
                &&& e.target == target
                &&& e.fields@.len() == 0
                &&& e.span_meta matches Some(m) && m.id == span_id && m.name == span_name
                &&& e.parent_span_id is None
                &&& e.file == file
                &&& e.line == line
            },
    {
        if !params.span_events {
            return None;
        }
        let (event_type, mut message) = match transition {
            SpanTransition::Enter => (
                String::from_str("span_enter"),
                String::from_str("Entering span: "),
            ),
            SpanTransition::Exit => (
                String::from_str("span_exit"),
                String::from_str("Exiting span: "),
            ),
        };
        message.append(span_name.as_str());
        Some(
            DashboardEvent {
                event_type,
                timestamp,
                level: Level::TRACE,
                target,
                message,
                fields: Vec::new(),
                span_meta: Some(SpanMeta { id: span_id, name: span_name }),
                parent_span_id: None,
                file,
                line,
            },
        )
    }
}

} // verus!
