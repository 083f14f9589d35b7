//! The size-based rotation trigger and the size-expression parser that
//! configures it.
//!
//! A size limit arrives from the configuration loader either as an already
//! typed integer or as text such as `"10"`, `"10 mb"` or `"1GiB"`. The text
//! form is a decimal number followed by an optional unit; the unit is matched
//! case-insensitively and every unit is a binary multiple (`kb` and `kib`
//! both mean 1024 bytes). The trigger itself is a pure decision: roll the
//! log once its observed length strictly exceeds the configured limit.

use vstd::prelude::*;
use vstd::string::{StrSliceExecFns, StringExecFns};

verus! {

/// Why a size expression was rejected. An unrecognized unit carries the
/// offending unit text, trimmed as the parser saw it.
#[derive(Debug, PartialEq, Eq)]
pub enum SizeError {
    /// The numeric part is empty or is not a decimal number.
    Malformed,
    /// A signed input was negative.
    Negative,
    /// The unit suffix is not one of the recognized units.
    InvalidUnit(String),
    /// The byte count does not fit in an unsigned 64-bit integer.
    Overflow,
}

/// The mathematical value of a [`SizeError`]: the unit text as a character
/// sequence. The parser's contracts speak of this view.
pub enum SizeErrorView {
    Malformed,
    Negative,
    InvalidUnit(Seq<char>),
    Overflow,
}

impl View for SizeError {
    type V = SizeErrorView;

    open spec fn view(&self) -> SizeErrorView {
        match self {
            SizeError::Malformed => SizeErrorView::Malformed,
            SizeError::Negative => SizeErrorView::Negative,
            SizeError::InvalidUnit(u) => SizeErrorView::InvalidUnit(u@),
            SizeError::Overflow => SizeErrorView::Overflow,
        }
    }
}

/// A parse result with the error taken to its view: what the parser's
/// contracts compare against the specified result.
pub open spec fn result_view(r: Result<u64, SizeError>) -> Result<u64, SizeErrorView> {
    match r {
        Ok(n) => Ok(n),
        Err(e) => Err(e@),
    }
}

impl SizeError {
    /// The human-readable message this error carries to the configuration
    /// loader; an unrecognized unit is named in backquotes.
    pub fn message(&self) -> (r: String)
        ensures
            *self is Malformed ==> r@ == "invalid value"@,
            *self is Negative ==> r@ == "must be non-negative"@,
            *self matches SizeError::InvalidUnit(u) ==> r@ == "invalid unit `"@ + u@ + "`"@,
            *self is Overflow ==> r@ == "value overflowed"@,
    {
        match self {
            SizeError::Malformed => "invalid value".to_owned(),
            SizeError::Negative => "must be non-negative".to_owned(),
            SizeError::InvalidUnit(u) => {
                let m = "invalid unit `".to_owned();
                m.concat(u.as_str()).concat("`")
            },
            SizeError::Overflow => "value overflowed".to_owned(),
        }
    }
}

/// The admissible shapes of a configured size limit: an unsigned integer,
/// a signed integer, or a textual size expression.
#[derive(Debug)]
pub enum SizeValue {
    Unsigned(u64),
    Signed(i64),
    Text(String),
}

pub const BYTES_PER_KB: u64 = 1024;

pub const BYTES_PER_MB: u64 = 1024 * 1024;

pub const BYTES_PER_GB: u64 = 1024 * 1024 * 1024;

pub const BYTES_PER_TB: u64 = 1024 * 1024 * 1024 * 1024;

/// A decimal digit.
pub open spec fn is_digit(c: char) -> bool {
    48 <= c as u32 && c as u32 <= 57
}

/// The numeric value of a decimal digit.
pub open spec fn digit_of(c: char) -> int {
    c as u32 - 48
}

/// Whitespace, the characters stripped from the ends of a unit: the
/// characters with the Unicode `White_Space` property.
pub open spec fn is_space(c: char) -> bool {
    c == ' ' || c == '\t' || c == '\n' || c == '\r' || c == '\u{b}' || c == '\u{c}' || c
        == '\u{85}' || c == '\u{a0}' || c == '\u{1680}' || (8192 <= c as u32 && c as u32 <= 8202)
        || c == '\u{2028}' || c == '\u{2029}' || c == '\u{202f}' || c == '\u{205f}' || c
        == '\u{3000}'
}

/// Case-insensitive match of one character against an ASCII letter given
/// in both cases.
pub open spec fn ci_eq(c: char, lower: char, upper: char) -> bool {
    c == lower || c == upper
}

/// The number of leading decimal digits: where the numeric part of a size
/// expression ends and its unit begins.
pub open spec fn digit_prefix_len(s: Seq<char>) -> int
    decreases s.len(),
{
    if s.len() == 0 {
        0
    } else if !is_digit(s[0]) {
        0
    } else {
        1 + digit_prefix_len(s.subrange(1, s.len() as int))
    }
}

/// The value of a string of decimal digits, most significant first.
pub open spec fn digits_val(s: Seq<char>) -> int
    decreases s.len(),
{
    if s.len() == 0 {
        0
    } else {
        10 * digits_val(s.drop_last()) + digit_of(s.last())
    }
}

/// What parsing the all-digit numeric part of a size expression yields:
/// an empty part is malformed, a value beyond `u64` overflows.
pub open spec fn digits_result(s: Seq<char>) -> Result<u64, SizeErrorView> {
    if s.len() == 0 {
        Err(SizeErrorView::Malformed)
    } else if digits_val(s) > u64::MAX {
        Err(SizeErrorView::Overflow)
    } else {
        Ok(digits_val(s) as u64)
    }
}

/// The string with leading and trailing whitespace removed.
pub open spec fn trim_spec(s: Seq<char>) -> Seq<char>
    decreases s.len(),
{
    if s.len() > 0 && is_space(s[0]) {
        trim_spec(s.subrange(1, s.len() as int))
    } else if s.len() > 0 && is_space(s[s.len() - 1]) {
        trim_spec(s.subrange(0, s.len() - 1))
    } else {
        s
    }
}

/// The byte multiplier of a unit suffix, matched case-insensitively.
/// Every recognized unit is a binary multiple: `kb` and `kib` are synonyms,
/// both 1024.
pub open spec fn unit_multiplier(u: Seq<char>) -> Option<u64> {
    if u.len() == 1 && ci_eq(u[0], 'b', 'B') {
        Some(1u64)
    } else if u.len() == 2 && ci_eq(u[0], 'k', 'K') && ci_eq(u[1], 'b', 'B') {
        Some(BYTES_PER_KB)
    } else if u.len() == 2 && ci_eq(u[0], 'm', 'M') && ci_eq(u[1], 'b', 'B') {
        Some(BYTES_PER_MB)
    } else if u.len() == 2 && ci_eq(u[0], 'g', 'G') && ci_eq(u[1], 'b', 'B') {
        Some(BYTES_PER_GB)
    } else if u.len() == 2 && ci_eq(u[0], 't', 'T') && ci_eq(u[1], 'b', 'B') {
        Some(BYTES_PER_TB)
    } else if u.len() == 3 && ci_eq(u[0], 'k', 'K') && ci_eq(u[1], 'i', 'I') && ci_eq(
        u[2],
        'b',
        'B',
    ) {
        Some(BYTES_PER_KB)
    } else if u.len() == 3 && ci_eq(u[0], 'm', 'M') && ci_eq(u[1], 'i', 'I') && ci_eq(
        u[2],
        'b',
        'B',
    ) {
        Some(BYTES_PER_MB)
    } else if u.len() == 3 && ci_eq(u[0], 'g', 'G') && ci_eq(u[1], 'i', 'I') && ci_eq(
        u[2],
        'b',
        'B',
    ) {
        Some(BYTES_PER_GB)
    } else if u.len() == 3 && ci_eq(u[0], 't', 'T') && ci_eq(u[1], 'i', 'I') && ci_eq(
        u[2],
        'b',
        'B',
    ) {
        Some(BYTES_PER_TB)
    } else {
        None
    }
}

/// What parsing a textual size expression yields. The text splits at the
/// first non-digit character into a numeric part and a unit part; the unit
/// part is trimmed and looked up, and the product must fit in `u64`. With
/// no unit the number counts raw bytes.
pub open spec fn parse_size_spec(s: Seq<char>) -> Result<u64, SizeErrorView> {
    let k = digit_prefix_len(s);
    let num = digits_result(s.subrange(0, k));
    if k == s.len() {
        num
    } else {
        match num {
            Err(e) => Err(e),
            Ok(n) => {
                let unit = trim_spec(s.subrange(k, s.len() as int));
                match unit_multiplier(unit) {
                    None => Err(SizeErrorView::InvalidUnit(unit)),
                    Some(m) => if n * m > u64::MAX {
                        Err(SizeErrorView::Overflow)
                    } else {
                        Ok((n * m) as u64)
                    },
                }
            },
        }
    }
}

/// What parsing a size limit of any admissible shape yields: an unsigned
/// integer counts raw bytes, a negative signed integer is rejected, and
/// text goes through the textual grammar.
pub open spec fn parse_size_value_spec(v: SizeValue) -> Result<u64, SizeErrorView> {
    match v {
        SizeValue::Unsigned(n) => Ok(n),
        SizeValue::Signed(n) => if n < 0 {
            Err(SizeErrorView::Negative)
        } else {
            Ok(n as u64)
        },
        SizeValue::Text(s) => parse_size_spec(s@),
    }
}

proof fn lemma_digit_prefix_len(s: Seq<char>, i: int)
    requires
        0 <= i <= s.len(),
        forall|j: int| 0 <= j < i ==> is_digit(s[j]),
        i < s.len() ==> !is_digit(s[i]),
    ensures
        digit_prefix_len(s) == i,
    decreases s.len(),
{
    if s.len() == 0 || i == 0 {
    } else {
        let t = s.subrange(1, s.len() as int);
        assert forall|j: int| 0 <= j < i - 1 implies is_digit(t[j]) by {
            assert(t[j] == s[j + 1]);
        }
        if i - 1 < t.len() {
            assert(t[i - 1] == s[i]);
        }
        lemma_digit_prefix_len(t, i - 1);
    }
}

proof fn lemma_digits_val_extend(s: Seq<char>, k: int)
    requires
        0 <= k <= s.len(),
        forall|j: int| k <= j < s.len() ==> is_digit(s[j]),
        digits_val(s.subrange(0, k)) >= 0,
    ensures
        digits_val(s) >= digits_val(s.subrange(0, k)),
    decreases s.len() - k,
{
    if k == s.len() {
        assert(s.subrange(0, k) =~= s);
    } else {
        let p = s.subrange(0, k);
        let q = s.subrange(0, k + 1);
        assert(q.drop_last() =~= p);
        assert(q.last() == s[k]);
        assert(digits_val(q) == 10 * digits_val(p) + digit_of(s[k]));
        lemma_digits_val_extend(s, k + 1);
    }
}

fn is_digit_char(c: char) -> (r: bool)
    ensures
        r == is_digit(c),
{
    let u = c as u32;
    48 <= u && u <= 57
}

fn is_space_char(c: char) -> (r: bool)
    ensures
        r == is_space(c),
{
    let u = c as u32;
    c == ' ' || c == '\t' || c == '\n' || c == '\r' || c == '\u{b}' || c == '\u{c}' || c
        == '\u{85}' || c == '\u{a0}' || c == '\u{1680}' || (8192 <= u && u <= 8202) || c
        == '\u{2028}' || c == '\u{2029}' || c == '\u{202f}' || c == '\u{205f}' || c == '\u{3000}'
}

/// Strips leading and trailing whitespace from a unit suffix.
fn trim_str<'a>(s: &'a str) -> (r: &'a str)
    ensures
        r@ == trim_spec(s@),
    decreases s@.len(),
{
    let n = s.unicode_len();
    if n > 0 && is_space_char(s.get_char(0)) {
        trim_str(s.substring_char(1, n))
    } else if n > 0 && is_space_char(s.get_char(n - 1)) {
        trim_str(s.substring_char(0, n - 1))
    } else {
        s
    }
}

/// Parses an all-digit numeric part into a byte count.
fn parse_digits(ds: &str) -> (r: Result<u64, SizeError>)
    requires
        forall|j: int| 0 <= j < ds@.len() ==> is_digit(ds@[j]),
    ensures
        result_view(r) == digits_result(ds@),
{
    let n = ds.unicode_len();
    if n == 0 {
        return Err(SizeError::Malformed);
    }
    let mut acc: u64 = 0;
    let mut i: usize = 0;
    while i < n
        invariant
            0 <= i <= n,
            n == ds@.len(),
            forall|j: int| 0 <= j < ds@.len() ==> is_digit(ds@[j]),
            acc == digits_val(ds@.subrange(0, i as int)),
        decreases n - i,
    {
        let c = ds.get_char(i);
        let d = (c as u32 - 48) as u64;
        proof {
            assert(ds@.subrange(0, i + 1).drop_last() =~= ds@.subrange(0, i as int));
            assert(ds@.subrange(0, i + 1).last() == ds@[i as int]);
        }
        let acc10 = match acc.checked_mul(10) {
            Some(x) => x,
            None => {
                proof {
                    lemma_digits_val_extend(ds@, i + 1);
                }
                return Err(SizeError::Overflow);
            },
        };
        acc = match acc10.checked_add(d) {
            Some(x) => x,
            None => {
                proof {
                    lemma_digits_val_extend(ds@, i + 1);
                }
                return Err(SizeError::Overflow);
            },
        };
        i = i + 1;
    }
    proof {
        assert(ds@.subrange(0, n as int) =~= ds@);
    }
    Ok(acc)
}

/// Looks a trimmed unit suffix up in the unit table, case-insensitively.
fn unit_mult(u: &str) -> (r: Option<u64>)
    ensures
        r == unit_multiplier(u@),
{
    let n = u.unicode_len();
    if n == 1 {
        let c0 = u.get_char(0);
        if c0 == 'b' || c0 == 'B' {
            Some(1u64)
        } else {
            None
        }
    } else if n == 2 {
        let c0 = u.get_char(0);
        let c1 = u.get_char(1);
        if !(c1 == 'b' || c1 == 'B') {
            None
        } else if c0 == 'k' || c0 == 'K' {
            Some(BYTES_PER_KB)
        } else if c0 == 'm' || c0 == 'M' {
            Some(BYTES_PER_MB)
        } else if c0 == 'g' || c0 == 'G' {
            Some(BYTES_PER_GB)
        } else if c0 == 't' || c0 == 'T' {
            Some(BYTES_PER_TB)
        } else {
            None
        }
    } else if n == 3 {
        let c0 = u.get_char(0);
        let c1 = u.get_char(1);
        let c2 = u.get_char(2);
        if !((c1 == 'i' || c1 == 'I') && (c2 == 'b' || c2 == 'B')) {
            None
        } else if c0 == 'k' || c0 == 'K' {
            Some(BYTES_PER_KB)
        } else if c0 == 'm' || c0 == 'M' {
            Some(BYTES_PER_MB)
        } else if c0 == 'g' || c0 == 'G' {
            Some(BYTES_PER_GB)
        } else if c0 == 't' || c0 == 'T' {
            Some(BYTES_PER_TB)
        } else {
            None
        }
    } else {
        None
    }
}

/// Parses a textual size expression such as `"10"`, `"10 mb"` or `"1GiB"`
/// into a byte count.
pub fn parse_size_str(s: &str) -> (r: Result<u64, SizeError>)
    ensures
        result_view(r) == parse_size_spec(s@),
{
    let n = s.unicode_len();
    let mut i: usize = 0;
    while i < n
        invariant
            0 <= i <= n,
            n == s@.len(),
            forall|j: int| 0 <= j < i ==> is_digit(s@[j]),
        ensures
            0 <= i <= n,
            forall|j: int| 0 <= j < i ==> is_digit(s@[j]),
            i < n ==> !is_digit(s@[i as int]),
        decreases n - i,
    {
        if !is_digit_char(s.get_char(i)) {
            break ;
        }
        i = i + 1;
    }
    proof {
        lemma_digit_prefix_len(s@, i as int);
    }
    let digits = s.substring_char(0, i);
    let num = parse_digits(digits);
    if i == n {
        num
    } else {
        match num {
            Err(e) => Err(e),
            Ok(v) => {
                let unit = trim_str(s.substring_char(i, n));
                match unit_mult(unit) {
                    None => Err(SizeError::InvalidUnit(unit.to_owned())),
                    Some(m) => match v.checked_mul(m) {
                        Some(total) => Ok(total),
                        None => Err(SizeError::Overflow),
                    },
                }
            },
        }
    }
}

/// Parses a size limit of any admissible shape into a byte count.
pub fn parse_size(v: &SizeValue) -> (r: Result<u64, SizeError>)
    ensures
        result_view(r) == parse_size_value_spec(*v),
{
    match v {
        SizeValue::Unsigned(n) => Ok(*n),
        SizeValue::Signed(n) => if *n < 0 {
            Err(SizeError::Negative)
        } else {
            Ok(*n as u64)
        },
        SizeValue::Text(s) => parse_size_str(s.as_str()),
    }
}

/// The error a rotation trigger may report. The size trigger itself never
/// fails; other trigger variants may.
#[derive(Clone, Copy, Debug, PartialEq, Eq, Structural)]
pub struct TriggerError;

/// A rotation trigger: the decision an appender consults on every write,
/// asking whether the active log file, observed at the given length in
/// bytes, should be rotated now.
pub trait Trigger {
    /// The decision this trigger variant encodes for a given observed
    /// length.
    spec fn should_roll(&self, len: u64) -> bool;

    fn trigger(&self, len: u64) -> (r: Result<bool, TriggerError>)
        ensures
            r matches Ok(b) ==> b == self.should_roll(len),
    ;
}

/// A trigger which rolls the log once it has passed a certain size.
#[derive(Debug)]
pub struct SizeTrigger {
    limit: u64,
}

impl SizeTrigger {
    /// The configured size limit in bytes.
    pub closed spec fn spec_limit(&self) -> u64 {
        self.limit
    }

    /// Returns a new trigger which rolls the log once it has passed the
    /// specified size in bytes.
    pub fn new(limit: u64) -> (r: SizeTrigger)
        ensures
            r.spec_limit() == limit,
    {
        SizeTrigger { limit }
    }
}

impl Trigger for SizeTrigger {
    open spec fn should_roll(&self, len: u64) -> bool {
        len > self.spec_limit()
    }

    /// Rolls exactly when the observed length strictly exceeds the limit:
    /// a file exactly at the limit does not yet trigger rotation. Never
    /// fails.
    fn trigger(&self, len: u64) -> (r: Result<bool, TriggerError>)
        ensures
            r == Ok::<bool, TriggerError>(len > self.spec_limit()),
    {
        Ok(len > self.limit)
    }
}

/// The configuration record of the size trigger: its single required
/// `limit` field, in any of the admissible shapes.
#[derive(Debug)]
pub struct SizeTriggerConfig {
    pub limit: SizeValue,
}

/// A deserializer for the `SizeTrigger`: binds a configuration record to a
/// constructed trigger through the size-expression parser, propagating any
/// parser error.
#[derive(Clone, Copy, Debug)]
pub struct SizeTriggerDeserializer;

impl SizeTriggerDeserializer {
    pub fn deserialize(&self, config: SizeTriggerConfig) -> (r: Result<SizeTrigger, SizeError>)
        ensures
            match parse_size_value_spec(config.limit) {
                Ok(n) => r matches Ok(t) && t.spec_limit() == n,
                Err(e) => r matches Err(err) && err@ == e,
            },
    {
        match parse_size(&config.limit) {
            Ok(n) => Ok(SizeTrigger::new(n)),
            Err(e) => Err(e),
        }
    }
}

} // verus!
