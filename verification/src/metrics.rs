//! Readings from the metrics exporter.
//!
//! The exporter answers with lines of the form `name value`. A line that
//! begins with `#` is a comment; a line that does not consist of exactly two
//! tokens is ignored. Where a name occurs more than once, the last line
//! counts.

use vstd::prelude::*;
use vstd::slice::{slice_subrange, slice_to_vec};
use crate::reading::{truncate, truncated, Reading, Temperature};

verus! {

/// Why no reading could be had from the metrics exporter.
#[derive(Clone, Copy, Debug, PartialEq, Eq, Structural)]
pub enum GatewayError {
    /// The exporter could not be reached.
    Unreachable,
    /// The exporter answered without a temperature or without a CO2 value.
    MissingMetric,
    /// A value that was needed is not a number.
    ParseError,
}

/// The byte that ends a line.
pub const NEWLINE: u8 = 0x0a;

/// The byte that begins a comment line.
pub const COMMENT_MARK: u8 = 0x23;

/// One `name value` line of the exporter's answer.
#[derive(Clone, Debug, PartialEq, Eq)]
pub struct Metric {
    pub name: Vec<u8>,
    pub value: Vec<u8>,
}

impl View for Metric {
    type V = (Seq<u8>, Seq<u8>);

    open spec fn view(&self) -> (Seq<u8>, Seq<u8>) {
        (self.name@, self.value@)
    }
}

/// The texts of the two values that make up a reading, as the exporter
/// printed them.
#[derive(Clone, Debug, PartialEq, Eq)]
pub struct RawReading {
    pub temperature: Vec<u8>,
    pub co2: Vec<u8>,
}

/// Whether a byte separates tokens within a line: space, tab, carriage
/// return, vertical tab or form feed.
pub open spec fn is_blank(b: u8) -> bool {
    b == 0x20 || b == 0x09 || b == 0x0d || b == 0x0b || b == 0x0c
}

/// The first position at or after `from` that holds no blank, or the length
/// of the line.
pub open spec fn skip_blanks(line: Seq<u8>, from: int) -> int
    decreases line.len() - from,
{
    if 0 <= from < line.len() && is_blank(line[from]) {
        skip_blanks(line, from + 1)
    } else {
        from
    }
}

/// The first position at or after `from` that holds a blank, or the length
/// of the line.
pub open spec fn skip_token(line: Seq<u8>, from: int) -> int
    decreases line.len() - from,
{
    if 0 <= from < line.len() && !is_blank(line[from]) {
        skip_token(line, from + 1)
    } else {
        from
    }
}

/// The name and the value on a line, where the line is no comment and holds
/// exactly two tokens.
pub open spec fn metric_of_line(line: Seq<u8>) -> Option<(Seq<u8>, Seq<u8>)> {
    let name_start = skip_blanks(line, 0);
    let name_end = skip_token(line, name_start);
    let value_start = skip_blanks(line, name_end);
    let value_end = skip_token(line, value_start);
    let rest = skip_blanks(line, value_end);
    if line.len() > 0 && line[0] == COMMENT_MARK {
        None
    } else if name_start < name_end && value_start < value_end && rest == line.len() {
        Some((line.subrange(name_start, name_end), line.subrange(value_start, value_end)))
    } else {
        None
    }
}

/// The position of the newline that ends the line beginning at `from`, or
/// the length of the body where the last line has none.
pub open spec fn line_end(body: Seq<u8>, from: int) -> int
    decreases body.len() - from,
{
    if 0 <= from < body.len() && body[from] != NEWLINE {
        line_end(body, from + 1)
    } else {
        from
    }
}

/// The metrics on the lines of `body` that begin at or after `from`, in the
/// order of the lines.
pub open spec fn metrics_from(body: Seq<u8>, from: int) -> Seq<(Seq<u8>, Seq<u8>)>
    decreases body.len() + 1 - from,
{
    if 0 <= from < body.len() {
        let end = line_end(body, from);
        if from <= end <= body.len() {
            let later = metrics_from(body, end + 1);
            match metric_of_line(body.subrange(from, end)) {
                Some(metric) => seq![metric] + later,
                None => later,
            }
        } else {
            Seq::empty()
        }
    } else {
        Seq::empty()
    }
}

/// The metrics that an answer of the exporter holds.
pub open spec fn metrics_of(body: Seq<u8>) -> Seq<(Seq<u8>, Seq<u8>)> {
    metrics_from(body, 0)
}

/// The value of the last metric called `name`.
pub open spec fn value_of(metrics: Seq<(Seq<u8>, Seq<u8>)>, name: Seq<u8>) -> Option<Seq<u8>>
    decreases metrics.len(),
{
    if metrics.len() == 0 {
        None
    } else if metrics.last().0 == name {
        Some(metrics.last().1)
    } else {
        value_of(metrics.drop_last(), name)
    }
}

/// What a list of parsed lines holds.
pub open spec fn entries(metrics: Seq<Metric>) -> Seq<(Seq<u8>, Seq<u8>)> {
    Seq::new(metrics.len(), |i: int| metrics[i]@)
}

/// The name under which the exporter reports the temperature:
/// `temperature`.
pub open spec fn temperature_name() -> Seq<u8> {
    seq![0x74u8, 0x65u8, 0x6du8, 0x70u8, 0x65u8, 0x72u8, 0x61u8, 0x74u8, 0x75u8, 0x72u8, 0x65u8]
}

/// The name under which the exporter reports the CO2 concentration: `co2`.
pub open spec fn co2_name() -> Seq<u8> {
    seq![0x63u8, 0x6fu8, 0x32u8]
}

/// Whether every position of `line` from `from` up to `to` holds a blank.
pub open spec fn blanks_between(line: Seq<u8>, from: int, to: int) -> bool {
    forall|i: int| from <= i < to ==> is_blank(#[trigger] line[i])
}

/// Whether the positions of `line` from `from` up to `to` hold a token: at
/// least one byte, and no blank.
pub open spec fn token_between(line: Seq<u8>, from: int, to: int) -> bool {
    from < to && forall|i: int| from <= i < to ==> !is_blank(#[trigger] line[i])
}

/// Whether `line` is made of blanks, a token, at least one blank, a second
/// token and blanks, with the tokens at the given positions.
pub open spec fn splits_at(
    line: Seq<u8>,
    name_start: int,
    name_end: int,
    value_start: int,
    value_end: int,
) -> bool {
    &&& 0 <= name_start
    &&& value_end <= line.len()
    &&& blanks_between(line, 0, name_start)
    &&& token_between(line, name_start, name_end)
    &&& name_end < value_start
    &&& blanks_between(line, name_end, value_start)
    &&& token_between(line, value_start, value_end)
    &&& blanks_between(line, value_end, line.len() as int)
}

/// Whether a line is a comment.
pub open spec fn is_comment(line: Seq<u8>) -> bool {
    line.len() > 0 && line[0] == COMMENT_MARK
}

proof fn lemma_skip_blanks(line: Seq<u8>, from: int)
    requires
        0 <= from <= line.len(),
    ensures
        from <= skip_blanks(line, from) <= line.len(),
        blanks_between(line, from, skip_blanks(line, from)),
        skip_blanks(line, from) < line.len() ==> !is_blank(line[skip_blanks(line, from)]),
    decreases line.len() - from,
{
    if from < line.len() && is_blank(line[from]) {
        lemma_skip_blanks(line, from + 1);
    }
}

proof fn lemma_skip_token(line: Seq<u8>, from: int)
    requires
        0 <= from <= line.len(),
    ensures
        from <= skip_token(line, from) <= line.len(),
        forall|i: int| from <= i < skip_token(line, from) ==> !is_blank(#[trigger] line[i]),
        skip_token(line, from) < line.len() ==> is_blank(line[skip_token(line, from)]),
    decreases line.len() - from,
{
    if from < line.len() && !is_blank(line[from]) {
        lemma_skip_token(line, from + 1);
    }
}

proof fn lemma_blanks_are_skipped(line: Seq<u8>, from: int, to: int)
    requires
        0 <= from <= to <= line.len(),
        blanks_between(line, from, to),
        to < line.len() ==> !is_blank(line[to]),
    ensures
        skip_blanks(line, from) == to,
    decreases to - from,
{
    if from < to {
        assert(is_blank(line[from]));
        lemma_blanks_are_skipped(line, from + 1, to);
    }
}

proof fn lemma_token_is_skipped(line: Seq<u8>, from: int, to: int)
    requires
        0 <= from <= to <= line.len(),
        forall|i: int| from <= i < to ==> !is_blank(#[trigger] line[i]),
        to < line.len() ==> is_blank(line[to]),
    ensures
        skip_token(line, from) == to,
    decreases to - from,
{
    if from < to {
        assert(!is_blank(line[from]));
        lemma_token_is_skipped(line, from + 1, to);
    }
}

/// A line gives a metric only if it is no comment and splits into a name
/// and a value, which are then the metric.
pub proof fn lemma_metric_line_splits(line: Seq<u8>)
    requires
        metric_of_line(line) is Some,
    ensures
        !is_comment(line),
        exists|a: int, b: int, c: int, d: int|
            #[trigger] splits_at(line, a, b, c, d) && metric_of_line(line) == Some(
                (line.subrange(a, b), line.subrange(c, d)),
            ),
{
    let a = skip_blanks(line, 0);
    lemma_skip_blanks(line, 0);
    let b = skip_token(line, a);
    lemma_skip_token(line, a);
    let c = skip_blanks(line, b);
    lemma_skip_blanks(line, b);
    let d = skip_token(line, c);
    lemma_skip_token(line, c);
    lemma_skip_blanks(line, d);
    assert(splits_at(line, a, b, c, d));
}

/// Every line that is no comment and splits into a name and a value gives
/// that name and that value.
pub proof fn lemma_split_line_is_metric(line: Seq<u8>, a: int, b: int, c: int, d: int)
    requires
        !is_comment(line),
        splits_at(line, a, b, c, d),
    ensures
        metric_of_line(line) == Some((line.subrange(a, b), line.subrange(c, d))),
{
    assert(!is_blank(line[a]));
    assert(is_blank(line[b]));
    assert(!is_blank(line[c]));
    lemma_blanks_are_skipped(line, 0, a);
    lemma_token_is_skipped(line, a, b);
    lemma_blanks_are_skipped(line, b, c);
    if d < line.len() {
        assert(is_blank(line[d]));
    }
    lemma_token_is_skipped(line, c, d);
    lemma_blanks_are_skipped(line, d, line.len() as int);
}

/// The value found under a name is that of the last metric with this name.
pub proof fn lemma_value_is_last(metrics: Seq<(Seq<u8>, Seq<u8>)>, name: Seq<u8>)
    ensures
        match value_of(metrics, name) {
            Some(value) => exists|i: int|
                0 <= i < metrics.len() && #[trigger] metrics[i] == (name, value) && forall|j: int|
                    i < j < metrics.len() ==> (#[trigger] metrics[j]).0 != name,
            None => forall|j: int| 0 <= j < metrics.len() ==> (#[trigger] metrics[j]).0 != name,
        },
    decreases metrics.len(),
{
    if metrics.len() > 0 {
        let last = metrics.len() - 1;
        if metrics.last().0 == name {
            assert(metrics[last] == (name, metrics.last().1));
        } else {
            let front = metrics.drop_last();
            lemma_value_is_last(front, name);
            match value_of(front, name) {
                Some(value) => {
                    let i = choose|i: int|
                        0 <= i < front.len() && #[trigger] front[i] == (name, value) && forall|
                            j: int,
                        |
                            i < j < front.len() ==> (#[trigger] front[j]).0 != name;
                    assert(metrics[i] == front[i]);
                    assert forall|j: int| i < j < metrics.len() implies (#[trigger] metrics[j]).0
                        != name by {
                        if j < last {
                            assert(metrics[j] == front[j]);
                        }
                    }
                },
                None => {
                    assert forall|j: int| 0 <= j < metrics.len() implies (#[trigger] metrics[j]).0
                        != name by {
                        if j < last {
                            assert(metrics[j] == front[j]);
                        }
                    }
                },
            }
        }
    }
}

fn blank(b: u8) -> (r: bool)
    ensures
        r == is_blank(b),
{
    b == 0x20 || b == 0x09 || b == 0x0d || b == 0x0b || b == 0x0c
}

fn past_blanks(line: &[u8], from: usize) -> (to: usize)
    requires
        from <= line.len(),
    ensures
        to == skip_blanks(line@, from as int),
        from <= to <= line.len(),
{
    let mut i: usize = from;
    while i < line.len() && blank(line[i])
        invariant
            from <= i <= line.len(),
            skip_blanks(line@, from as int) == skip_blanks(line@, i as int),
        decreases line.len() - i,
    {
        i = i + 1;
    }
    i
}

fn past_token(line: &[u8], from: usize) -> (to: usize)
    requires
        from <= line.len(),
    ensures
        to == skip_token(line@, from as int),
        from <= to <= line.len(),
{
    let mut i: usize = from;
    while i < line.len() && !blank(line[i])
        invariant
            from <= i <= line.len(),
            skip_token(line@, from as int) == skip_token(line@, i as int),
        decreases line.len() - i,
    {
        i = i + 1;
    }
    i
}

fn past_line(body: &[u8], from: usize) -> (to: usize)
    requires
        from <= body.len(),
    ensures
        to == line_end(body@, from as int),
        from <= to <= body.len(),
{
    let mut i: usize = from;
    while i < body.len() && body[i] != NEWLINE
        invariant
            from <= i <= body.len(),
            line_end(body@, from as int) == line_end(body@, i as int),
        decreases body.len() - i,
    {
        i = i + 1;
    }
    i
}

/// Reads one line of the exporter's answer.
pub fn parse_line(line: &[u8]) -> (metric: Option<Metric>)
    ensures
        match metric {
            Some(m) => metric_of_line(line@) == Some(m@),
            None => metric_of_line(line@) is None,
        },
{
    if line.len() > 0 && line[0] == COMMENT_MARK {
        return None;
    }
    let name_start: usize = past_blanks(line, 0);
    let name_end: usize = past_token(line, name_start);
    let value_start: usize = past_blanks(line, name_end);
    let value_end: usize = past_token(line, value_start);
    let rest: usize = past_blanks(line, value_end);
    if name_start < name_end && value_start < value_end && rest == line.len() {
        Some(
            Metric {
                name: slice_to_vec(slice_subrange(line, name_start, name_end)),
                value: slice_to_vec(slice_subrange(line, value_start, value_end)),
            },
        )
    } else {
        None
    }
}

/// Reads the exporter's answer: every line that is no comment and consists
/// of a name and a value, in the order of the lines.
pub fn get_metrics(body: &[u8]) -> (metrics: Vec<Metric>)
    ensures
        entries(metrics@) == metrics_of(body@),
{
    let mut metrics: Vec<Metric> = Vec::new();
    let mut from: usize = 0;
    assert(entries(metrics@) =~= Seq::empty());
    while from < body.len()
        invariant
            from <= body.len(),
            metrics_of(body@) == entries(metrics@) + metrics_from(body@, from as int),
        decreases body.len() - from,
    {
        let end: usize = past_line(body, from);
        let ghost before = entries(metrics@);
        match parse_line(slice_subrange(body, from, end)) {
            Some(metric) => {
                metrics.push(metric);
                assert(entries(metrics@) =~= before + seq![metric@]);
            },
            None => {},
        }
        assert(metrics_of(body@) =~= entries(metrics@) + metrics_from(body@, end + 1));
        assert(metrics_from(body@, body.len() + 1) =~= metrics_from(body@, body.len() as int));
        from = if end < body.len() { end + 1 } else { end };
    }
    assert(metrics_from(body@, from as int) =~= Seq::empty());
    assert(metrics_of(body@) =~= entries(metrics@));
    metrics
}

fn same_bytes(a: &[u8], b: &[u8]) -> (r: bool)
    ensures
        r == (a@ == b@),
{
    if a.len() != b.len() {
        return false;
    }
    let mut i: usize = 0;
    while i < a.len()
        invariant
            a.len() == b.len(),
            i <= a.len(),
            forall|k: int| 0 <= k < i ==> a@[k] == b@[k],
        decreases a.len() - i,
    {
        if a[i] != b[i] {
            return false;
        }
        i = i + 1;
    }
    assert(a@ =~= b@);
    true
}

/// Looks a metric up by its name. Of several lines with that name the last
/// one counts.
pub fn find_value<'a>(metrics: &'a Vec<Metric>, name: &[u8]) -> (value: Option<&'a Vec<u8>>)
    ensures
        match value {
            Some(v) => value_of(entries(metrics@), name@) == Some(v@),
            None => value_of(entries(metrics@), name@) is None,
        },
{
    let mut i: usize = metrics.len();
    assert(entries(metrics@).take(i as int) =~= entries(metrics@));
    while i > 0
        invariant
            i <= metrics.len(),
            value_of(entries(metrics@), name@) == value_of(
                entries(metrics@).take(i as int),
                name@,
            ),
        decreases i,
    {
        let ghost prefix = entries(metrics@).take(i as int);
        assert(prefix.last() == metrics@[i - 1]@);
        assert(prefix.drop_last() =~= entries(metrics@).take(i - 1));
        if same_bytes(metrics[i - 1].name.as_slice(), name) {
            return Some(&metrics[i - 1].value);
        }
        i = i - 1;
    }
    None
}

fn temperature_key() -> (key: Vec<u8>)
    ensures
        key@ == temperature_name(),
{
    let key: Vec<u8> = vec![
        0x74u8,
        0x65u8,
        0x6du8,
        0x70u8,
        0x65u8,
        0x72u8,
        0x61u8,
        0x74u8,
        0x75u8,
        0x72u8,
        0x65u8,
    ];
    assert(key@ =~= temperature_name());
    key
}

fn co2_key() -> (key: Vec<u8>)
    ensures
        key@ == co2_name(),
{
    let key: Vec<u8> = vec![0x63u8, 0x6fu8, 0x32u8];
    assert(key@ =~= co2_name());
    key
}

/// The texts of the temperature and of the CO2 concentration among
/// `metrics`, or `MissingMetric` where either is not there.
pub open spec fn raw_reading_of(metrics: Seq<(Seq<u8>, Seq<u8>)>) -> Result<
    (Seq<u8>, Seq<u8>),
    GatewayError,
> {
    match (value_of(metrics, temperature_name()), value_of(metrics, co2_name())) {
        (Some(temperature), Some(co2)) => Ok((temperature, co2)),
        _ => Err(GatewayError::MissingMetric),
    }
}

/// The reading that two parsed values make up. Each is the bit pattern of
/// the number that the text stood for, or `None` where the text is no
/// number. The CO2 concentration loses its fraction.
pub open spec fn reading_of(temperature: Option<u32>, co2: Option<u32>) -> Result<
    Reading,
    GatewayError,
> {
    match (temperature, co2) {
        (Some(t), Some(c)) => Ok(
            Reading { temperature: Temperature { bits: t }, co2: truncated(c) as i32 },
        ),
        _ => Err(GatewayError::ParseError),
    }
}

impl RawReading {
    /// The two texts as a pair, temperature first.
    pub open spec fn texts(self) -> (Seq<u8>, Seq<u8>) {
        (self.temperature@, self.co2@)
    }
}

/// Picks the temperature and the CO2 concentration out of the metrics.
/// Fails with `MissingMetric` exactly when one of them is not there.
pub fn select_readings(metrics: &Vec<Metric>) -> (raw: Result<RawReading, GatewayError>)
    ensures
        match raw {
            Ok(r) => raw_reading_of(entries(metrics@)) == Ok::<(Seq<u8>, Seq<u8>), GatewayError>(
                r.texts(),
            ),
            Err(e) => raw_reading_of(entries(metrics@)) == Err::<(Seq<u8>, Seq<u8>), GatewayError>(
                e,
            ),
        },
{
    let temperature_key: Vec<u8> = temperature_key();
    let co2_key: Vec<u8> = co2_key();
    let temperature = find_value(metrics, temperature_key.as_slice());
    let co2 = find_value(metrics, co2_key.as_slice());
    match (temperature, co2) {
        (Some(t), Some(c)) => Ok(
            RawReading { temperature: slice_to_vec(t.as_slice()), co2: slice_to_vec(c.as_slice()) },
        ),
        _ => Err(GatewayError::MissingMetric),
    }
}

/// The texts of the two values of a reading in the exporter's response: the
/// body that came back, or `None` where the request failed.
pub open spec fn raw_reading_in(response: Option<Seq<u8>>) -> Result<
    (Seq<u8>, Seq<u8>),
    GatewayError,
> {
    match response {
        None => Err(GatewayError::Unreachable),
        Some(body) => raw_reading_of(metrics_of(body)),
    }
}

/// Reads the exporter's response and picks the two values of a reading out
/// of it, as texts. Fails with `Unreachable` where there is no response, and
/// with `MissingMetric` where the response lacks one of the two.
pub fn read_exporter(response: Option<&[u8]>) -> (raw: Result<RawReading, GatewayError>)
    ensures
        match raw {
            Ok(r) => raw_reading_in(
                match response {
                    Some(body) => Some(body@),
                    None => None,
                },
            ) == Ok::<(Seq<u8>, Seq<u8>), GatewayError>(r.texts()),
            Err(e) => raw_reading_in(
                match response {
                    Some(body) => Some(body@),
                    None => None,
                },
            ) == Err::<(Seq<u8>, Seq<u8>), GatewayError>(e),
        },
{
    match response {
        None => Err(GatewayError::Unreachable),
        Some(body) => {
            let metrics: Vec<Metric> = get_metrics(body);
            select_readings(&metrics)
        },
    }
}

/// Makes a reading of the two parsed values. Fails with `ParseError`
/// exactly when one of the texts was no number.
pub fn get_temp_and_co2(temperature: Option<u32>, co2: Option<u32>) -> (reading: Result<
    Reading,
    GatewayError,
>)
    ensures
        reading == reading_of(temperature, co2),
{
    match (temperature, co2) {
        (Some(t), Some(c)) => Ok(Reading { temperature: Temperature::from_bits(t), co2: truncate(c) }),
        _ => Err(GatewayError::ParseError),
    }
}

} // verus!
