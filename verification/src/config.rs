//! Runtime configuration: defaults and the parsing of configured values.

use vstd::prelude::*;
use vstd::string::*;
use crate::error::{PayStreamError, Result};
use crate::text::push_char;

verus! {

/// Whether `c` has the Unicode `White_Space` property.
pub open spec fn is_white_space(c: char) -> bool {
    ||| '\u{9}' <= c <= '\u{d}'
    ||| c == ' '
    ||| c == '\u{85}'
    ||| c == '\u{a0}'
    ||| c == '\u{1680}'
    ||| '\u{2000}' <= c <= '\u{200a}'
    ||| c == '\u{2028}'
    ||| c == '\u{2029}'
    ||| c == '\u{202f}'
    ||| c == '\u{205f}'
    ||| c == '\u{3000}'
}

/// Splits `s` at every `,`: the pieces of the first `k` characters.
pub open spec fn comma_pieces(s: Seq<char>, k: nat) -> Seq<Seq<char>>
    decreases k,
{
    if k == 0 {
        seq![Seq::empty()]
    } else {
        let p = comma_pieces(s, (k - 1) as nat);
        if s[k - 1] == ',' {
            p.push(Seq::empty())
        } else {
            p.update(p.len() - 1, p.last().push(s[k - 1]))
        }
    }
}

/// Splitting always yields at least one piece.
pub proof fn lemma_pieces_nonempty(s: Seq<char>, k: nat)
    ensures
        comma_pieces(s, k).len() >= 1,
    decreases k,
{
    if k > 0 {
        lemma_pieces_nonempty(s, (k - 1) as nat);
    }
}

/// The pieces of `s` between commas, as strings.
pub fn split_commas(s: &str) -> (r: Vec<String>)
    ensures
        r@.map_values(|p: String| p@) == comma_pieces(s@, s@.len()),
{
    let mut pieces: Vec<String> = Vec::new();
    let mut current = String::new();
    for c in it: s.chars()
        invariant
            it.seq() == s@,
            pieces@.map_values(|p: String| p@).push(current@) == comma_pieces(s@, it.index() as nat),
    {
        proof { lemma_pieces_nonempty(s@, it.index() as nat); }
        if c == ',' {
            let done = current;
            pieces.push(done);
            current = String::new();
        } else {
            push_char(&mut current, c);
        }
        assert(pieces@.map_values(|p: String| p@).push(current@) =~= comma_pieces(s@, (it.index() + 1) as nat));
    }
    pieces.push(current);
    pieces
}

/// `s` without its leading white space.
pub open spec fn trim_start(s: Seq<char>) -> Seq<char>
    decreases s.len(),
{
    if s.len() > 0 && is_white_space(s[0]) {
        trim_start(s.drop_first())
    } else {
        s
    }
}

/// `s` without its trailing white space.
pub open spec fn trim_end(s: Seq<char>) -> Seq<char>
    decreases s.len(),
{
    if s.len() > 0 && is_white_space(s.last()) {
        trim_end(s.drop_last())
    } else {
        s
    }
}

/// `s` without its leading and trailing white space.
pub open spec fn trimmed(s: Seq<char>) -> Seq<char> {
    trim_end(trim_start(s))
}

/// Whether `c` is an ASCII decimal digit.
pub open spec fn is_decimal_digit(c: char) -> bool {
    '0' <= c <= '9'
}

/// The value of a run of decimal digits.
pub open spec fn digits_value(s: Seq<char>) -> int
    decreases s.len(),
{
    if s.len() == 0 {
        0
    } else {
        digits_value(s.drop_last()) * 10 + (s.last() as int - '0' as int)
    }
}

/// Whether `s` is a non-empty run of decimal digits.
pub open spec fn is_digit_run(s: Seq<char>) -> bool {
    s.len() > 0 && forall|i: int| 0 <= i < s.len() ==> is_decimal_digit(#[trigger] s[i])
}

/// The integer written in `s`: an optional `+` (or, when `signed`, `-`) followed by one or more
/// decimal digits and nothing else; `None` for any other text.
pub open spec fn decimal_value(s: Seq<char>, signed: bool) -> Option<int> {
    if s.len() > 0 && (s[0] == '+' || (signed && s[0] == '-')) {
        if is_digit_run(s.drop_first()) {
            if s[0] == '-' {
                Some(-digits_value(s.drop_first()))
            } else {
                Some(digits_value(s.drop_first()))
            }
        } else {
            None
        }
    } else if is_digit_run(s) {
        Some(digits_value(s))
    } else {
        None
    }
}

/// The text of the error that parsing `text` as an `i32` reports.
pub uninterp spec fn i32_parse_error_text(text: Seq<char>) -> Seq<char>;

/// The text of the error that parsing `text` as a `u16` reports.
pub uninterp spec fn u16_parse_error_text(text: Seq<char>) -> Seq<char>;

/// `str::trim`: `text` without leading and trailing characters of the Unicode `White_Space`
/// property.
#[verifier::external_body]
fn trim(text: &str) -> (r: String)
    ensures
        r@ == trimmed(text@),
{
    text.trim().to_string()
}

/// `str::parse::<i32>`: succeeds exactly when `text` is an optional sign followed by decimal
/// digits denoting a value in range, with that value; otherwise the error's display text.
#[verifier::external_body]
fn parse_i32(text: &str) -> (r: core::result::Result<i32, String>)
    ensures
        match r {
            Ok(v) => decimal_value(text@, true) == Some(v as int),
            Err(msg) => msg@ == i32_parse_error_text(text@) && !(decimal_value(text@, true) matches Some(v)
                && i32::MIN <= v <= i32::MAX),
        },
{
    match text.parse::<i32>() {
        Ok(v) => Ok(v),
        Err(e) => Err(e.to_string()),
    }
}

/// `str::parse::<u16>`: succeeds exactly when `text` is an optional `+` followed by decimal digits
/// denoting a value in range, with that value; otherwise the error's display text.
#[verifier::external_body]
fn parse_u16(text: &str) -> (r: core::result::Result<u16, String>)
    ensures
        match r {
            Ok(v) => decimal_value(text@, false) == Some(v as int),
            Err(msg) => msg@ == u16_parse_error_text(text@) && !(decimal_value(text@, false) matches Some(v)
                && 0 <= v <= u16::MAX),
        },
{
    match text.parse::<u16>() {
        Ok(v) => Ok(v),
        Err(e) => Err(e.to_string()),
    }
}

/// The broker list written in `s`: its comma-separated pieces, each trimmed.
pub open spec fn broker_list(s: Seq<char>) -> Seq<Seq<char>> {
    comma_pieces(s, s.len()).map_values(|p: Seq<char>| trimmed(p))
}

/// The broker list of a comma-separated setting, each entry trimmed of white space.
pub fn parse_brokers(setting: &str) -> (r: Vec<String>)
    ensures
        r@.map_values(|b: String| b@) == broker_list(setting@),
{
    let pieces = split_commas(setting);
    let ghost views = pieces@.map_values(|p: String| p@);
    let mut brokers: Vec<String> = Vec::new();
    let mut i: usize = 0;
    while i < pieces.len()
        invariant
            i <= pieces.len(),
            views == pieces@.map_values(|p: String| p@),
            views == comma_pieces(setting@, setting@.len()),
            brokers@.map_values(|b: String| b@) == views.take(i as int).map_values(
                |p: Seq<char>| trimmed(p),
            ),
        decreases pieces.len() - i,
    {
        let t = trim(pieces[i].as_str());
        assert(views[i as int] == pieces@[i as int]@);
        let ghost before = brokers@;
        brokers.push(t);
        assert(brokers@ == before.push(t));
        let ghost lhs = brokers@.map_values(|b: String| b@);
        let ghost rhs = views.take(i + 1).map_values(|p: Seq<char>| trimmed(p));
        let ghost prev = views.take(i as int).map_values(|p: Seq<char>| trimmed(p));
        assert(before.map_values(|b: String| b@) == prev);
        assert(prev.len() == i);
        assert(before.len() == i);
        assert forall|j: int| 0 <= j < i + 1 implies lhs[j] == rhs[j] by {
            if j < i {
                assert(lhs[j] == before[j]@);
                assert(before.map_values(|b: String| b@)[j] == before[j]@);
                assert(prev[j] == rhs[j]);
            }
        }
        assert(lhs =~= rhs);
        i = i + 1;
    }
    assert(views.take(pieces.len() as int) =~= views);
    brokers
}

/// The message of a setting that does not parse: the setting's name, `": "` and the parser's
/// error text.
pub open spec fn setting_error(key: Seq<char>, detail: Seq<char>) -> Seq<char> {
    key + ": "@ + detail
}

fn setting_error_message(key: &str, detail: &str) -> (m: String)
    ensures
        m@ == setting_error(key@, detail@),
{
    let mut m = String::from_str(key);
    m.append(": ");
    m.append(detail);
    m
}

/// An `i32` setting: `default` when it is not set; its value when it parses; otherwise a
/// configuration error naming the setting.
pub fn parse_i32_setting(key: &str, raw: Option<String>, default: i32) -> (r: Result<i32>)
    ensures
        match raw {
            None => r matches Ok(v) && v == default,
            Some(text) => match decimal_value(text@, true) {
                Some(v) if i32::MIN <= v <= i32::MAX => r matches Ok(w) && w == v,
                _ => r matches Err(PayStreamError::Config(m)) && m@ == setting_error(
                    key@,
                    i32_parse_error_text(text@),
                ),
            },
        },
{
    match raw {
        None => Ok(default),
        Some(text) => match parse_i32(text.as_str()) {
            Ok(v) => Ok(v),
            Err(detail) => Err(PayStreamError::Config(setting_error_message(key, detail.as_str()))),
        },
    }
}

/// A `u16` setting: `default` when it is not set; its value when it parses; otherwise a
/// configuration error naming the setting.
pub fn parse_u16_setting(key: &str, raw: Option<String>, default: u16) -> (r: Result<u16>)
    ensures
        match raw {
            None => r matches Ok(v) && v == default,
            Some(text) => match decimal_value(text@, false) {
                Some(v) if 0 <= v <= u16::MAX => r matches Ok(w) && w == v,
                _ => r matches Err(PayStreamError::Config(m)) && m@ == setting_error(
                    key@,
                    u16_parse_error_text(text@),
                ),
            },
        },
{
    match raw {
        None => Ok(default),
        Some(text) => match parse_u16(text.as_str()) {
            Ok(v) => Ok(v),
            Err(detail) => Err(PayStreamError::Config(setting_error_message(key, detail.as_str()))),
        },
    }
}

/// Setting that lists the message brokers, comma-separated.
pub const KAFKA_BROKERS_KEY: &'static str = "PAYSTREAM_KAFKA";

/// Setting that names the input topic.
pub const INPUT_TOPIC_KEY: &'static str = "PAYSTREAM_INPUT_TOPIC";

/// Setting that names the output topic.
pub const OUTPUT_TOPIC_KEY: &'static str = "PAYSTREAM_OUTPUT_TOPIC";

/// Setting that selects the partition.
pub const PARTITION_KEY: &'static str = "PAYSTREAM_PARTITION";

/// Setting that selects the HTTP port.
pub const HTTP_PORT_KEY: &'static str = "PAYSTREAM_HTTP_PORT";

/// Runtime configuration for the node.
#[derive(Debug, Clone)]
pub struct AppConfig {
    pub kafka_brokers: Vec<String>,
    pub input_topic: String,
    pub output_topic: String,
    pub partition: i32,
    pub http_port: u16,
}

/// Whether an optional setting is unset or parses within `[lo, hi]`.
pub open spec fn setting_ok(raw: Option<String>, signed: bool, lo: int, hi: int) -> bool {
    match raw {
        None => true,
        Some(t) => decimal_value(t@, signed) matches Some(v) && lo <= v <= hi,
    }
}

/// The value of a setting that is unset (`default`) or parses.
pub open spec fn setting_value(raw: Option<String>, signed: bool, default: int) -> int {
    match raw {
        None => default,
        Some(t) => decimal_value(t@, signed)->Some_0,
    }
}

/// A text setting, or its default.
pub open spec fn text_or(raw: Option<String>, default: Seq<char>) -> Seq<char> {
    match raw {
        Some(t) => t@,
        None => default,
    }
}

impl AppConfig {
    /// The settings of a node configured with nothing.
    pub open spec fn is_default(&self) -> bool {
        &&& self.kafka_brokers@.map_values(|b: String| b@) == seq!["localhost:9092"@]
        &&& self.input_topic@ == "payments.events"@
        &&& self.output_topic@ == "payments.enriched"@
        &&& self.partition == 0
        &&& self.http_port == 8082
    }

    /// Builds the configuration from the settings given (`None` for a setting that is not set):
    /// the broker list split at commas and trimmed, the topics as given, the partition and port
    /// parsed; unset settings take their defaults. A partition or port that does not parse is a
    /// configuration error naming it, the partition checked first.
    pub fn from_settings(
        kafka_brokers: Option<String>,
        input_topic: Option<String>,
        output_topic: Option<String>,
        partition: Option<String>,
        http_port: Option<String>,
    ) -> (r: Result<AppConfig>)
        ensures
            !setting_ok(partition, true, i32::MIN as int, i32::MAX as int) ==> (r matches Err(
                PayStreamError::Config(m),
            ) && m@ == setting_error(PARTITION_KEY@, i32_parse_error_text(partition->Some_0@))),
            setting_ok(partition, true, i32::MIN as int, i32::MAX as int) && !setting_ok(
                http_port,
                false,
                0,
                u16::MAX as int,
            ) ==> (r matches Err(PayStreamError::Config(m)) && m@ == setting_error(
                HTTP_PORT_KEY@,
                u16_parse_error_text(http_port->Some_0@),
            )),
            setting_ok(partition, true, i32::MIN as int, i32::MAX as int) && setting_ok(
                http_port,
                false,
                0,
                u16::MAX as int,
            ) ==> (r matches Ok(c) && c.kafka_brokers@.map_values(|b: String| b@) == (match kafka_brokers {
                Some(b) => broker_list(b@),
                None => seq!["localhost:9092"@],
            }) && c.input_topic@ == text_or(input_topic, "payments.events"@) && c.output_topic@
                == text_or(output_topic, "payments.enriched"@) && c.partition == setting_value(
                partition,
                true,
                0,
            ) && c.http_port == setting_value(http_port, false, 8082)),
    {
        let defaults = AppConfig::default();
        let brokers = match kafka_brokers {
            Some(setting) => parse_brokers(setting.as_str()),
            None => defaults.kafka_brokers,
        };
        let input = match input_topic {
            Some(t) => t,
            None => defaults.input_topic,
        };
        let output = match output_topic {
            Some(t) => t,
            None => defaults.output_topic,
        };
        let partition_value = match parse_i32_setting(PARTITION_KEY, partition, defaults.partition) {
            Ok(v) => v,
            Err(e) => {
                return Err(e);
            },
        };
        let port_value = match parse_u16_setting(HTTP_PORT_KEY, http_port, defaults.http_port) {
            Ok(v) => v,
            Err(e) => {
                return Err(e);
            },
        };
        Ok(
            AppConfig {
                kafka_brokers: brokers,
                input_topic: input,
                output_topic: output,
                partition: partition_value,
                http_port: port_value,
            },
        )
    }
}

impl Default for AppConfig {
    /// One local broker, the standard topics, partition 0 and HTTP port 8082.
    fn default() -> (c: Self)
        ensures
            c.is_default(),
    {
        let mut brokers: Vec<String> = Vec::new();
        brokers.push(String::from_str("localhost:9092"));
        let c = AppConfig {
            kafka_brokers: brokers,
            input_topic: String::from_str("payments.events"),
            output_topic: String::from_str("payments.enriched"),
            partition: 0,
            http_port: 8082,
        };
        assert(c.kafka_brokers@.map_values(|b: String| b@) =~= seq!["localhost:9092"@]);
        c
    }
}


/// The pieces rejoined with a `,` between consecutive ones.
pub open spec fn joined_with_commas(pieces: Seq<Seq<char>>) -> Seq<char>
    decreases pieces.len(),
{
    if pieces.len() <= 1 {
        if pieces.len() == 1 {
            pieces[0]
        } else {
            Seq::empty()
        }
    } else {
        joined_with_commas(pieces.drop_last()) + seq![','] + pieces.last()
    }
}

/// Number of commas in a text.
pub open spec fn comma_count(s: Seq<char>) -> nat
    decreases s.len(),
{
    if s.len() == 0 {
        0
    } else {
        comma_count(s.drop_last()) + if s.last() == ',' {
            1nat
        } else {
            0nat
        }
    }
}

/// Splitting happens at commas and nowhere else: no piece contains a comma, there is one piece
/// more than there are commas, and rejoining the pieces with commas gives back the text. So a
/// text without a comma is a single piece, the text itself.
pub proof fn lemma_split_only_at_commas(s: Seq<char>, k: nat)
    requires
        k <= s.len(),
    ensures
        joined_with_commas(comma_pieces(s, k)) == s.take(k as int),
        comma_pieces(s, k).len() == comma_count(s.take(k as int)) + 1,
        forall|i: int, j: int|
            0 <= i < comma_pieces(s, k).len() && 0 <= j < comma_pieces(s, k)[i].len() ==> #[trigger] comma_pieces(s, k)[i][j]
                != ',',
    decreases k,
{
    if k == 0 {
        assert(s.take(0) =~= Seq::<char>::empty());
    } else {
        lemma_split_only_at_commas(s, (k - 1) as nat);
        lemma_pieces_nonempty(s, (k - 1) as nat);
        let p = comma_pieces(s, (k - 1) as nat);
        assert(s.take(k as int).drop_last() =~= s.take(k - 1));
        assert(s.take(k as int).last() == s[k - 1]);
        if ',' == s[k - 1] {
            let q = p.push(Seq::<char>::empty());
            assert(q.drop_last() =~= p);
            assert(joined_with_commas(q) =~= s.take(k as int));
        } else {
            let q = p.update(p.len() - 1, p.last().push(s[k - 1]));
            if p.len() == 1 {
                assert(joined_with_commas(q) =~= s.take(k as int));
            } else {
                assert(q.drop_last() =~= p.drop_last());
                assert(joined_with_commas(q) =~= s.take(k as int));
            }
            assert forall|i: int, j: int| 0 <= i < q.len() && 0 <= j < q[i].len() implies #[trigger] q[i][j] != ',' by {
                if i < p.len() - 1 {
                    assert(q[i] == p[i]);
                } else if j < p.last().len() {
                    assert(q[i][j] == p[p.len() - 1][j]);
                }
            }
        }
    }
}


/// The decimal text of a number reads back as that number: it is a run of digits whose value is
/// the number, signed or not.
pub proof fn lemma_decimal_text_reads_back(n: nat)
    ensures
        is_digit_run(crate::text::nat_text(n)),
        digits_value(crate::text::nat_text(n)) == n,
        decimal_value(crate::text::nat_text(n), true) == Some(n as int),
        decimal_value(crate::text::nat_text(n), false) == Some(n as int),
    decreases n,
{
    let t = crate::text::nat_text(n);
    let d = (n % 10) as int;
    assert(crate::text::digit_char(d) as int == d + 48);
    if n < 10 {
        assert(t.drop_last() =~= Seq::<char>::empty());
        assert(t.last() == crate::text::digit_char(d));
        assert('0' as int == 48);
        assert(digits_value(t) == digits_value(t.drop_last()) * 10 + (t.last() as int - '0' as int));
        assert(digits_value(t) == n);
    } else {
        lemma_decimal_text_reads_back(n / 10);
        let p = crate::text::nat_text(n / 10);
        assert(t == p.push(crate::text::digit_char((n % 10) as int)));
        assert(t.drop_last() =~= p);
        assert(t.last() == crate::text::digit_char(d));
        assert('0' as int == 48);
        assert(digits_value(t) == digits_value(p) * 10 + (t.last() as int - '0' as int));
        assert((n / 10) * 10 + d == n);
        assert(digits_value(t) == n);
    }
    assert(t[0] != '+' && t[0] != '-') by {
        if n >= 10 {
            lemma_decimal_text_first_is_digit(n);
        }
    }
}

/// The decimal text of a number starts with a digit.
proof fn lemma_decimal_text_first_is_digit(n: nat)
    ensures
        crate::text::nat_text(n).len() >= 1,
        is_decimal_digit(crate::text::nat_text(n)[0]),
    decreases n,
{
    if n >= 10 {
        lemma_decimal_text_first_is_digit(n / 10);
    }
}

/// Trimming removes only white space, and only at the ends: the result is a contiguous part of
/// the text, everything cut off before and after it is white space, and the result neither
/// starts nor ends with white space.
pub proof fn lemma_trim_cuts_only_white_space_at_the_ends(s: Seq<char>)
    ensures
        exists|i: int, j: int|
            0 <= i <= j <= s.len() && trimmed(s) == s.subrange(i, j) && (forall|k: int|
                0 <= k < i ==> is_white_space(#[trigger] s[k])) && (forall|k: int|
                j <= k < s.len() ==> is_white_space(#[trigger] s[k])),
        trimmed(s).len() > 0 ==> !is_white_space(trimmed(s)[0]) && !is_white_space(
            trimmed(s).last(),
        ),
{
    lemma_trim_start(s);
    let i = s.len() - trim_start(s).len();
    let u = trim_start(s);
    lemma_trim_end(u);
    let j = i + trim_end(u).len();
    assert(trimmed(s) =~= s.subrange(i, j));
    assert forall|k: int| j <= k < s.len() implies is_white_space(#[trigger] s[k]) by {
        assert(s[k] == u[k - i]);
    }
    if trimmed(s).len() > 0 {
        assert(trimmed(s)[0] == u[0]);
    }
}

proof fn lemma_trim_start(s: Seq<char>)
    ensures
        trim_start(s).len() <= s.len(),
        trim_start(s) == s.subrange(s.len() - trim_start(s).len(), s.len() as int),
        forall|k: int| 0 <= k < s.len() - trim_start(s).len() ==> is_white_space(#[trigger] s[k]),
        trim_start(s).len() > 0 ==> !is_white_space(trim_start(s)[0]),
    decreases s.len(),
{
    if s.len() > 0 && is_white_space(s[0]) {
        lemma_trim_start(s.drop_first());
        assert forall|k: int| 0 <= k < s.len() - trim_start(s).len() implies is_white_space(#[trigger] s[k]) by {
            if k > 0 {
                assert(s[k] == s.drop_first()[k - 1]);
            }
        }
        assert(trim_start(s) =~= s.subrange(s.len() - trim_start(s).len(), s.len() as int));
    } else {
        assert(s.subrange(0, s.len() as int) =~= s);
    }
}

proof fn lemma_trim_end(s: Seq<char>)
    ensures
        trim_end(s).len() <= s.len(),
        trim_end(s) == s.subrange(0, trim_end(s).len() as int),
        forall|k: int| trim_end(s).len() <= k < s.len() ==> is_white_space(#[trigger] s[k]),
        trim_end(s).len() > 0 ==> !is_white_space(trim_end(s).last()),
        trim_end(s).len() > 0 ==> trim_end(s)[0] == s[0],
    decreases s.len(),
{
    if s.len() > 0 && is_white_space(s.last()) {
        lemma_trim_end(s.drop_last());
        assert forall|k: int| trim_end(s).len() <= k < s.len() implies is_white_space(#[trigger] s[k]) by {
            if k < s.len() - 1 {
                assert(s[k] == s.drop_last()[k]);
            }
        }
        assert(trim_end(s) =~= s.subrange(0, trim_end(s).len() as int));
    } else {
        assert(s.subrange(0, s.len() as int) =~= s);
    }
}

} // verus!
