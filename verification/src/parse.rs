//! Parse Carbon metrics.
//!
//! A metric arrives as one line of text, `<path> <value> <timestamp>`: three
//! fields with whitespace between them. The value is a floating-point
//! number. This crate computes with integers only, so the caller converts
//! the value field and hands over two things: the IEEE 754 binary64 bit
//! pattern of the number, and the number written out as a decimal numeral.
//! Everything else about the line is decided here.

use vstd::prelude::*;
use vstd::string::*;

use crate::text::{chars_of, i32_of, integer_of, is_whitespace, parse_i32, whitespace};

verus! {

/// The length of the run of characters at the head of `s` that are not
/// whitespace.
pub open spec fn token_len(s: Seq<char>) -> nat
    decreases s.len(),
{
    if s.len() > 0 && !is_whitespace(s[0]) {
        1 + token_len(s.drop_first())
    } else {
        0
    }
}

/// A run is no longer than what it is the head of, and is not empty where
/// the first character is not whitespace.
pub proof fn lemma_token_len_bounds(s: Seq<char>)
    ensures
        token_len(s) <= s.len(),
        s.len() > 0 && !is_whitespace(s[0]) ==> token_len(s) >= 1,
    decreases s.len(),
{
    if s.len() > 0 && !is_whitespace(s[0]) {
        lemma_token_len_bounds(s.drop_first());
    }
}

/// The fields of `s`: its maximal runs of characters that are not
/// whitespace, from left to right.
pub open spec fn tokens(s: Seq<char>) -> Seq<Seq<char>>
    decreases s.len(),
{
    if s.len() == 0 {
        Seq::empty()
    } else if is_whitespace(s[0]) {
        tokens(s.drop_first())
    } else {
        let n = token_len(s);
        proof {
            lemma_token_len_bounds(s);
        }
        seq![s.take(n as int)] + tokens(s.skip(n as int))
    }
}

/// Whether `s` can stand as one field: it is not empty and holds no
/// whitespace.
pub open spec fn is_token(s: Seq<char>) -> bool {
    &&& s.len() > 0
    &&& forall|i: int| 0 <= i < s.len() ==> !is_whitespace(#[trigger] s[i])
}

/// Whether `s` holds whitespace only. The empty sequence does.
pub open spec fn is_blank(s: Seq<char>) -> bool {
    forall|i: int| 0 <= i < s.len() ==> is_whitespace(#[trigger] s[i])
}

/// Whether `bits`, read as an IEEE 754 binary64 pattern, is a finite
/// number: its exponent field is not all ones.
pub open spec fn is_finite(bits: u64) -> bool {
    (bits >> 52) & 0x7ff != 0x7ff
}

/// Why a line is not a metric.
#[derive(Clone, Copy, Debug, PartialEq, Eq, Structural)]
pub enum ParseError {
    /// The line has fewer than three fields.
    MalformedLine,
    /// The second field is not a finite number, or the numeral that came
    /// with the number is not one field.
    InvalidValue,
    /// The third field is not an integer that fits 32 bits.
    InvalidTimestamp,
}

impl ParseError {
    /// What is said of an error of this kind.
    pub open spec fn describe(self) -> Seq<char> {
        match self {
            ParseError::MalformedLine => "expected a path, a value and a timestamp"@,
            ParseError::InvalidValue => "value is not a finite number"@,
            ParseError::InvalidTimestamp => "timestamp is not a 32-bit integer"@,
        }
    }
}

/// A line that could not be read as a metric.
#[derive(Clone, Debug, PartialEq, Eq)]
pub struct MetricParseError {
    pub kind: ParseError,
    pub description: String,
}

impl MetricParseError {
    /// The description is the one that goes with the kind.
    pub open spec fn wf(&self) -> bool {
        self.description@ == self.kind.describe()
    }

    /// An error of the given kind, with the description that goes with it.
    pub fn new(kind: ParseError) -> (e: MetricParseError)
        ensures
            e.kind == kind,
            e.wf(),
    {
        let description = match kind {
            ParseError::MalformedLine => "expected a path, a value and a timestamp",
            ParseError::InvalidValue => "value is not a finite number",
            ParseError::InvalidTimestamp => "timestamp is not a 32-bit integer",
        };
        MetricParseError { kind, description: description.to_owned() }
    }

    /// The error as one line of text.
    pub fn to_string(&self) -> (r: String)
        ensures
            r@ == "Error parsing string: "@ + self.description@,
    {
        let mut r = "Error parsing string: ".to_owned();
        r.append(self.description.as_str());
        r
    }
}

/// One observation of a metric.
#[derive(Clone, Debug, PartialEq, Eq)]
pub struct Metric {
    /// The dotted name of the series.
    pub path: String,
    /// The observed value, as an IEEE 754 binary64 bit pattern.
    pub value: u64,
    /// The observed value written out as a decimal numeral, for where the
    /// store is fed text. The caller renders it from the number, since
    /// that takes floating point; it is not the field as the sender wrote
    /// it. This crate sees to it that it is one field, and no more.
    pub numeral: String,
    /// Seconds since the epoch.
    pub timestamp: i32,
}

/// What a [`Metric`] holds, as plain values.
pub struct MetricView {
    pub path: Seq<char>,
    pub value: u64,
    pub numeral: Seq<char>,
    pub timestamp: i32,
}

impl View for Metric {
    type V = MetricView;

    open spec fn view(&self) -> MetricView {
        MetricView {
            path: self.path@,
            value: self.value,
            numeral: self.numeral@,
            timestamp: self.timestamp,
        }
    }
}

impl MetricView {
    /// The path and the numeral are one field each, and the value is
    /// finite.
    pub open spec fn wf(self) -> bool {
        &&& is_token(self.path)
        &&& is_token(self.numeral)
        &&& is_finite(self.value)
    }
}

/// What converting a value field gave, as plain values: the bit pattern
/// of the number and its numeral, or `None` where the field is no number.
pub open spec fn value_view(value: Option<(u64, String)>) -> Option<(u64, Seq<char>)> {
    match value {
        Some((bits, numeral)) => Some((bits, numeral@)),
        None => None,
    }
}

/// Whether what converting a value field gave can stand as the value of a
/// metric: it is a number, the number is finite, and its numeral is one
/// field.
pub open spec fn usable(value: Option<(u64, Seq<char>)>) -> bool {
    value matches Some((bits, numeral)) && is_finite(bits) && is_token(numeral)
}

/// What a path, a timestamp field and a converted value field are read as.
/// The value is looked at first, then the timestamp.
pub open spec fn assembled(
    path: Seq<char>,
    stamp: Seq<char>,
    value: Option<(u64, Seq<char>)>,
) -> Result<MetricView, ParseError> {
    match value {
        Some((bits, numeral)) => if !(is_finite(bits) && is_token(numeral)) {
            Err(ParseError::InvalidValue)
        } else if i32_of(stamp) is None {
            Err(ParseError::InvalidTimestamp)
        } else {
            Ok(MetricView { path, value: bits, numeral, timestamp: i32_of(stamp)->0 })
        },
        None => Err(ParseError::InvalidValue),
    }
}

/// What a line is read as, given what converting its second field gave.
/// The first three fields count; further ones are ignored.
pub open spec fn parsed(line: Seq<char>, value: Option<(u64, Seq<char>)>) -> Result<
    MetricView,
    ParseError,
> {
    let fields = tokens(line);
    if fields.len() < 3 {
        Err(ParseError::MalformedLine)
    } else {
        assembled(fields[0], fields[2], value)
    }
}

/// The first three fields of a line, still as text.
#[derive(Clone, Debug, PartialEq, Eq)]
pub struct Fields {
    pub path: String,
    pub value: String,
    pub timestamp: String,
}

/// The index of the first character at or after `from` that is not
/// whitespace, or the length of `chars` where there is none.
fn skip_blank(chars: &Vec<char>, from: usize) -> (at: usize)
    requires
        from <= chars.len(),
    ensures
        from <= at <= chars.len(),
        tokens(chars@.skip(at as int)) == tokens(chars@.skip(from as int)),
        at < chars.len() ==> !is_whitespace(chars[at as int]),
{
    let mut at = from;
    while at < chars.len() && whitespace(chars[at])
        invariant
            from <= at <= chars.len(),
            tokens(chars@.skip(at as int)) == tokens(chars@.skip(from as int)),
        decreases chars.len() - at,
    {
        assert(chars@.skip(at as int).drop_first() == chars@.skip(at + 1));
        at += 1;
    }
    at
}

/// The index just past the field that starts at `from`.
fn skip_field(chars: &Vec<char>, from: usize) -> (end: usize)
    requires
        from <= chars.len(),
    ensures
        from <= end <= chars.len(),
        end - from == token_len(chars@.skip(from as int)),
{
    let mut end = from;
    while end < chars.len() && !whitespace(chars[end])
        invariant
            from <= end <= chars.len(),
            token_len(chars@.skip(from as int)) == (end - from) + token_len(
                chars@.skip(end as int),
            ),
        decreases chars.len() - end,
    {
        assert(chars@.skip(end as int).drop_first() == chars@.skip(end + 1));
        end += 1;
    }
    end
}

/// Finds the next field at or after `from`: where it starts and where it
/// ends, or `None` where only whitespace is left.
fn next_field(chars: &Vec<char>, from: usize) -> (r: Option<(usize, usize)>)
    requires
        from <= chars.len(),
    ensures
        r is None <==> tokens(chars@.skip(from as int)).len() == 0,
        r matches Some((start, end)) ==> {
            &&& from <= start < end <= chars.len()
            &&& tokens(chars@.skip(from as int)) == seq![
                chars@.subrange(start as int, end as int),
            ] + tokens(chars@.skip(end as int))
        },
{
    let start = skip_blank(chars, from);
    if start == chars.len() {
        return None;
    }
    let end = skip_field(chars, start);
    proof {
        let rest = chars@.skip(start as int);
        lemma_token_len_bounds(rest);
        assert(rest.take(end - start) == chars@.subrange(start as int, end as int));
        assert(rest.skip(end - start) == chars@.skip(end as int));
    }
    Some((start, end))
}

/// Cuts the first three fields out of `line`. `None` where it has fewer.
pub fn split_fields(line: &str) -> (r: Option<Fields>)
    ensures
        r is Some <==> tokens(line@).len() >= 3,
        r matches Some(fields) ==> {
            &&& fields.path@ == tokens(line@)[0]
            &&& fields.value@ == tokens(line@)[1]
            &&& fields.timestamp@ == tokens(line@)[2]
        },
{
    let chars = chars_of(line);
    assert(chars@.skip(0) == line@);
    let (a0, b0) = match next_field(&chars, 0) {
        Some(bounds) => bounds,
        None => {
            return None;
        },
    };
    let (a1, b1) = match next_field(&chars, b0) {
        Some(bounds) => bounds,
        None => {
            return None;
        },
    };
    let (a2, b2) = match next_field(&chars, b1) {
        Some(bounds) => bounds,
        None => {
            return None;
        },
    };
    Some(
        Fields {
            path: line.substring_char(a0, b0).to_owned(),
            value: line.substring_char(a1, b1).to_owned(),
            timestamp: line.substring_char(a2, b2).to_owned(),
        },
    )
}

/// The second field of `line`: the text that the caller converts to a
/// number before it asks for the metric. `None` where the line has fewer
/// than two fields.
pub fn value_field(line: &str) -> (r: Option<String>)
    ensures
        r is Some <==> tokens(line@).len() >= 2,
        r matches Some(field) ==> field@ == tokens(line@)[1],
{
    let chars = chars_of(line);
    assert(chars@.skip(0) == line@);
    let b0 = match next_field(&chars, 0) {
        Some((_, end)) => end,
        None => {
            return None;
        },
    };
    match next_field(&chars, b0) {
        Some((a1, b1)) => Some(line.substring_char(a1, b1).to_owned()),
        None => None,
    }
}

/// Tells whether a binary64 bit pattern is a finite number.
pub fn finite(bits: u64) -> (r: bool)
    ensures
        r == is_finite(bits),
{
    (bits >> 52) & 0x7ff != 0x7ff
}

/// Tells whether `s` is one field: not empty, and free of whitespace.
pub fn token(s: &str) -> (r: bool)
    ensures
        r == is_token(s@),
{
    let chars = chars_of(s);
    if chars.len() == 0 {
        return false;
    }
    let mut i: usize = 0;
    while i < chars.len()
        invariant
            i <= chars.len(),
            chars@ == s@,
            forall|j: int| 0 <= j < i ==> !is_whitespace(#[trigger] s@[j]),
        decreases chars.len() - i,
    {
        if whitespace(chars[i]) {
            assert(is_whitespace(s@[i as int]));
            return false;
        }
        i += 1;
    }
    true
}

/// Whether `value` is what `convert` may give for the second field of
/// `line`: `None` for a line that has no second field.
pub open spec fn converted<F: Fn(&str) -> Option<(u64, String)>>(
    convert: F,
    line: Seq<char>,
    value: Option<(u64, String)>,
) -> bool {
    if tokens(line).len() >= 2 {
        exists|field: &str| field@ == tokens(line)[1] && call_ensures(convert, (field,), value)
    } else {
        value is None
    }
}

/// Converts the value field of `line` with `convert`, which gets the
/// second field of the line and nothing else. A line that has no second
/// field is not shown to `convert`.
pub fn convert_value<F: Fn(&str) -> Option<(u64, String)>>(line: &str, convert: F) -> (value:
    Option<(u64, String)>)
    requires
        forall|field: &str| call_requires(convert, (field,)),
    ensures
        converted(convert, line@, value),
{
    match value_field(line) {
        Some(field) => convert(field.as_str()),
        None => None,
    }
}

impl Metric {
    /// Reads a metric from a line, with `convert` to convert the value
    /// field: it gets the second field of the line and gives the bit
    /// pattern of the number together with its decimal numeral, or `None`
    /// where the field is no number.
    pub fn parse<F: Fn(&str) -> Option<(u64, String)>>(line: &str, convert: F) -> (r: Result<
        Metric,
        MetricParseError,
    >)
        requires
            forall|field: &str| call_requires(convert, (field,)),
        ensures
            exists|value: Option<(u64, String)>|
                converted(convert, line@, value) && match #[trigger] parsed(
                    line@,
                    value_view(value),
                ) {
                    Ok(view) => r matches Ok(metric) && metric@ == view && view.wf(),
                    Err(kind) => r matches Err(e) && e.kind == kind && e.wf(),
                },
    {
        let value = convert_value(line, convert);
        Metric::from_str(line, value)
    }

    /// Reads a metric from the fields of a line and from what converting
    /// the value field gave. The value field itself is not looked at.
    pub fn from_fields(fields: Fields, value: Option<(u64, String)>) -> (r: Result<
        Metric,
        MetricParseError,
    >)
        ensures
            match assembled(fields.path@, fields.timestamp@, value_view(value)) {
                Ok(view) => r matches Ok(metric) && metric@ == view,
                Err(kind) => r matches Err(e) && e.kind == kind && e.wf(),
            },
    {
        let (bits, numeral) = match value {
            Some(pair) => pair,
            None => {
                return Err(MetricParseError::new(ParseError::InvalidValue));
            },
        };
        if !finite(bits) || !token(numeral.as_str()) {
            return Err(MetricParseError::new(ParseError::InvalidValue));
        }
        match parse_i32(fields.timestamp.as_str()) {
            Some(timestamp) => Ok(Metric { path: fields.path, value: bits, numeral, timestamp }),
            None => Err(MetricParseError::new(ParseError::InvalidTimestamp)),
        }
    }

    /// Reads a metric from a line. `value` is what converting the second
    /// field of the line gave: the bit pattern of the number together with
    /// its decimal numeral, or `None` where that field is no number or is
    /// missing.
    pub fn from_str(s: &str, value: Option<(u64, String)>) -> (r: Result<Metric, MetricParseError>)
        ensures
            match parsed(s@, value_view(value)) {
                Ok(view) => r matches Ok(metric) && metric@ == view && view.wf(),
                Err(kind) => r matches Err(e) && e.kind == kind && e.wf(),
            },
    {
        proof {
            lemma_tokens_are_tokens(s@);
        }
        match split_fields(s) {
            Some(fields) => Metric::from_fields(fields, value),
            None => Err(MetricParseError::new(ParseError::MalformedLine)),
        }
    }
}

/// The run at the head of `s` holds no whitespace.
pub proof fn lemma_token_len_run(s: Seq<char>)
    ensures
        forall|i: int| 0 <= i < token_len(s) ==> !is_whitespace(#[trigger] s[i]),
    decreases s.len(),
{
    if s.len() > 0 && !is_whitespace(s[0]) {
        lemma_token_len_run(s.drop_first());
        lemma_token_len_bounds(s);
        assert forall|i: int| 0 <= i < token_len(s) implies !is_whitespace(#[trigger] s[i]) by {
            if i > 0 {
                assert(s[i] == s.drop_first()[i - 1]);
            }
        }
    }
}

/// Every field of a line is a field: not empty, and free of whitespace.
pub proof fn lemma_tokens_are_tokens(s: Seq<char>)
    ensures
        forall|k: int| 0 <= k < tokens(s).len() ==> is_token(#[trigger] tokens(s)[k]),
    decreases s.len(),
{
    if s.len() == 0 {
    } else if is_whitespace(s[0]) {
        lemma_tokens_are_tokens(s.drop_first());
        assert(tokens(s) == tokens(s.drop_first()));
    } else {
        let n = token_len(s);
        lemma_token_len_bounds(s);
        lemma_token_len_run(s);
        lemma_tokens_are_tokens(s.skip(n as int));
        let rest = tokens(s.skip(n as int));
        assert forall|k: int| 0 <= k < tokens(s).len() implies is_token(#[trigger] tokens(s)[k]) by {
            if k > 0 {
                assert(tokens(s)[k] == rest[k - 1]);
            }
        }
    }
}

/// Whitespace in front of a line adds no field.
pub proof fn lemma_tokens_after_blank(blank: Seq<char>, rest: Seq<char>)
    requires
        is_blank(blank),
    ensures
        tokens(blank + rest) == tokens(rest),
    decreases blank.len(),
{
    if blank.len() == 0 {
        assert(blank + rest == rest);
    } else {
        assert((blank + rest).drop_first() == blank.drop_first() + rest);
        lemma_tokens_after_blank(blank.drop_first(), rest);
    }
}

/// A run of characters that are not whitespace ends where the text ends or
/// whitespace begins.
pub proof fn lemma_token_len_of_word(word: Seq<char>, rest: Seq<char>)
    requires
        forall|i: int| 0 <= i < word.len() ==> !is_whitespace(#[trigger] word[i]),
        rest.len() == 0 || is_whitespace(rest[0]),
    ensures
        token_len(word + rest) == word.len(),
    decreases word.len(),
{
    if word.len() == 0 {
        assert(word + rest == rest);
    } else {
        assert((word + rest).drop_first() == word.drop_first() + rest);
        lemma_token_len_of_word(word.drop_first(), rest);
    }
}

/// A field in front of a line, with the end of the text or whitespace
/// behind it, is the first field of the line.
pub proof fn lemma_tokens_after_word(word: Seq<char>, rest: Seq<char>)
    requires
        is_token(word),
        rest.len() == 0 || is_whitespace(rest[0]),
    ensures
        tokens(word + rest) == seq![word] + tokens(rest),
{
    let whole = word + rest;
    lemma_token_len_of_word(word, rest);
    assert(whole.take(word.len() as int) == word);
    assert(whole.skip(word.len() as int) == rest);
}

/// A line that holds whitespace only has no field.
pub proof fn lemma_tokens_of_blank(blank: Seq<char>)
    requires
        is_blank(blank),
    ensures
        tokens(blank) == Seq::<Seq<char>>::empty(),
{
    lemma_tokens_after_blank(blank, Seq::empty());
}

/// The text of a well-formed line: three fields with whitespace between
/// them, and any whitespace before and after.
pub open spec fn line_of(
    lead: Seq<char>,
    path: Seq<char>,
    gap: Seq<char>,
    literal: Seq<char>,
    space: Seq<char>,
    stamp: Seq<char>,
    trail: Seq<char>,
) -> Seq<char> {
    lead + (path + (gap + (literal + (space + (stamp + trail)))))
}

/// A well-formed line is cut into exactly the three fields that it was
/// written with, whatever whitespace stands around them.
pub proof fn lemma_fields_of_line(
    lead: Seq<char>,
    path: Seq<char>,
    gap: Seq<char>,
    literal: Seq<char>,
    space: Seq<char>,
    stamp: Seq<char>,
    trail: Seq<char>,
)
    requires
        is_token(path),
        is_token(literal),
        is_token(stamp),
        is_blank(lead),
        is_blank(gap) && gap.len() > 0,
        is_blank(space) && space.len() > 0,
        is_blank(trail),
    ensures
        tokens(line_of(lead, path, gap, literal, space, stamp, trail)) == seq![path, literal, stamp],
{
    let r5 = stamp + trail;
    let r4 = space + r5;
    let r3 = literal + r4;
    let r2 = gap + r3;
    let r1 = path + r2;
    lemma_tokens_of_blank(trail);
    lemma_tokens_after_word(stamp, trail);
    lemma_tokens_after_blank(space, r5);
    lemma_tokens_after_word(literal, r4);
    lemma_tokens_after_blank(gap, r3);
    lemma_tokens_after_word(path, r2);
    lemma_tokens_after_blank(lead, r1);
}

/// Reading a well-formed line is reading its path, its timestamp field and
/// what its value field was converted to. Where it gives a metric, the path
/// is the first field as written, the value and the numeral are those that
/// the second field was converted to, and the timestamp is the integer that
/// the third field denotes. It fails only where the converted value cannot
/// stand as a value or the timestamp is no 32-bit integer.
pub proof fn lemma_parse_round_trip(
    lead: Seq<char>,
    path: Seq<char>,
    gap: Seq<char>,
    literal: Seq<char>,
    space: Seq<char>,
    stamp: Seq<char>,
    trail: Seq<char>,
    value: Option<(u64, Seq<char>)>,
)
    requires
        is_token(path),
        is_token(literal),
        is_token(stamp),
        is_blank(lead),
        is_blank(gap) && gap.len() > 0,
        is_blank(space) && space.len() > 0,
        is_blank(trail),
    ensures
        parsed(line_of(lead, path, gap, literal, space, stamp, trail), value) == assembled(
            path,
            stamp,
            value,
        ),
        assembled(path, stamp, value) matches Ok(metric) ==> {
            &&& metric.path == path
            &&& value == Some((metric.value, metric.numeral))
            &&& integer_of(stamp) == Some(metric.timestamp as int)
            &&& metric.wf()
        },
        assembled(path, stamp, value) is Err ==> {
            ||| !usable(value)
            ||| integer_of(stamp) is None
            ||| !(i32::MIN <= integer_of(stamp)->0 <= i32::MAX)
        },
{
    lemma_fields_of_line(lead, path, gap, literal, space, stamp, trail);
}

} // verus!
