//! The normalized event and how it is built from a raw database record: the
//! record's designated date-range property gives the start and optional end,
//! the record's title and last-modification instant fill the rest.

use crate::dates::{
    date_text, fmt_date, fmt_timestamp_local, fmt_timestamp_utc, local_text, utc_text, Date,
    Timestamp,
};
use vstd::prelude::*;

verus! {

/// A start or end of an event: either a bare calendar date (an all-day
/// boundary) or an absolute instant.
#[derive(Clone, Copy, PartialEq, Eq, Structural, Debug)]
pub enum DateValue {
    Date(Date),
    DateTime(Timestamp),
}

impl DateValue {
    pub open spec fn valid(self) -> bool {
        match self {
            DateValue::Date(d) => d.valid(),
            DateValue::DateTime(t) => t.valid(),
        }
    }

    /// Decide `valid`.
    pub fn is_valid(&self) -> (r: bool)
        ensures
            r == self.valid(),
    {
        match self {
            DateValue::Date(d) => d.is_valid(),
            DateValue::DateTime(t) => t.is_valid(),
        }
    }
}

/// The payload of a date-range property: a start and an optional end.
#[derive(Clone, Copy, PartialEq, Eq, Structural, Debug)]
pub struct DateRange {
    pub start: DateValue,
    pub end: Option<DateValue>,
}

impl DateRange {
    pub open spec fn valid(self) -> bool {
        &&& self.start.valid()
        &&& match self.end {
            Some(e) => e.valid(),
            None => true,
        }
    }

    /// Decide `valid`.
    pub fn is_valid(&self) -> (r: bool)
        ensures
            r == self.valid(),
    {
        self.start.is_valid() && match &self.end {
            Some(e) => e.is_valid(),
            None => true,
        }
    }
}

/// One typed property of a raw record, as far as the pipeline reads it: a
/// date-range property carries its optional payload; every property of any
/// other type is opaque.
#[derive(Clone, Copy, PartialEq, Eq, Structural, Debug)]
pub enum PropertyValue {
    Date { value: Option<DateRange> },
    Other,
}

impl PropertyValue {
    pub open spec fn valid(self) -> bool {
        match self {
            PropertyValue::Date { value: Some(r) } => r.valid(),
            _ => true,
        }
    }

    /// Decide `valid`.
    pub fn is_valid(&self) -> (r: bool)
        ensures
            r == self.valid(),
    {
        match self {
            PropertyValue::Date { value: Some(r) } => r.is_valid(),
            _ => true,
        }
    }
}

/// A raw database record: identifier, optional display title, the instant of
/// its last modification, and its named, typed properties.
pub struct RawRecord {
    pub id: String,
    pub title: Option<String>,
    pub changed: Timestamp,
    pub properties: Vec<(String, PropertyValue)>,
}

/// The mathematical value of a raw record.
pub struct RawRecordView {
    pub id: Seq<char>,
    pub title: Option<Seq<char>>,
    pub changed: Timestamp,
    pub properties: Seq<(Seq<char>, PropertyValue)>,
}

impl View for RawRecord {
    type V = RawRecordView;

    open spec fn view(&self) -> RawRecordView {
        RawRecordView {
            id: self.id@,
            title: match self.title {
                Some(t) => Some(t@),
                None => None,
            },
            changed: self.changed,
            properties: self.properties@.map_values(|p: (String, PropertyValue)| (p.0@, p.1)),
        }
    }
}

impl RawRecordView {
    pub open spec fn valid(self) -> bool {
        &&& self.changed.valid()
        &&& forall|i: int|
            0 <= i < self.properties.len() ==> (#[trigger] self.properties[i]).1.valid()
    }
}

impl RawRecord {
    /// Decide whether every instant the record carries fits the calendar
    /// text forms.
    pub fn is_valid(&self) -> (r: bool)
        ensures
            r == self@.valid(),
    {
        if !self.changed.is_valid() {
            return false;
        }
        let n = self.properties.len();
        let mut i: usize = 0;
        while i < n
            invariant
                0 <= i <= n,
                n == self.properties@.len(),
                self.changed.valid(),
                forall|j: int| 0 <= j < i ==> (#[trigger] self.properties@[j]).1.valid(),
            decreases n - i,
        {
            if !self.properties[i].1.is_valid() {
                proof {
                    assert(self@.properties[i as int].1 == self.properties@[i as int].1);
                }
                return false;
            }
            i += 1;
        }
        proof {
            assert forall|k: int| 0 <= k < self@.properties.len() implies (#[trigger] self@
                .properties[k]).1.valid() by {
                assert(self@.properties[k].1 == self.properties@[k].1);
            }
        }
        true
    }
}

/// Why a record could not be normalized into an event.
#[derive(Clone, Copy, PartialEq, Eq, Structural, Debug)]
pub enum NormalizeError {
    /// The record has no usable date-range property under the designated
    /// name: the property is absent, of another type, or unset.
    MissingEventTime,
}

/// A normalized event: everything the serializer needs, and nothing of the
/// raw record's shape.
#[derive(Clone, PartialEq, Eq, Debug)]
pub struct Event {
    pub id: String,
    pub title: String,
    pub changed: Timestamp,
    pub start: DateValue,
    pub end: Option<DateValue>,
}

/// The mathematical value of an event.
pub struct EventView {
    pub id: Seq<char>,
    pub title: Seq<char>,
    pub changed: Timestamp,
    pub start: DateValue,
    pub end: Option<DateValue>,
}

impl View for Event {
    type V = EventView;

    open spec fn view(&self) -> EventView {
        EventView {
            id: self.id@,
            title: self.title@,
            changed: self.changed,
            start: self.start,
            end: self.end,
        }
    }
}

impl EventView {
    pub open spec fn valid(self) -> bool {
        &&& self.changed.valid()
        &&& self.start.valid()
        &&& match self.end {
            Some(e) => e.valid(),
            None => true,
        }
    }
}

impl Event {
    pub open spec fn valid(self) -> bool {
        self@.valid()
    }

    /// Decide `valid`.
    pub fn is_valid(&self) -> (r: bool)
        ensures
            r == self.valid(),
    {
        self.changed.is_valid() && self.start.is_valid() && match &self.end {
            Some(e) => e.is_valid(),
            None => true,
        }
    }
}

/// The fixed, case-sensitive name of the date-range property that holds an
/// event's time.
pub open spec fn event_time_name() -> Seq<char> {
    "Event time"@
}

/// The placeholder title of a record with no title of its own.
pub open spec fn default_title() -> Seq<char> {
    "No Title"@
}

/// What extracting the event time from a property list yields: the first
/// property under the designated name decides — its payload when it is a
/// date-range property with one, and a failure otherwise or when no property
/// bears the name.
pub open spec fn extract_event_time_spec(props: Seq<(Seq<char>, PropertyValue)>) -> Result<
    DateRange,
    NormalizeError,
>
    decreases props.len(),
{
    if props.len() == 0 {
        Err(NormalizeError::MissingEventTime)
    } else if props[0].0 == event_time_name() {
        match props[0].1 {
            PropertyValue::Date { value: Some(r) } => Ok(r),
            _ => Err(NormalizeError::MissingEventTime),
        }
    } else {
        extract_event_time_spec(props.drop_first())
    }
}

/// What normalizing a record yields: its identifier verbatim, its title or
/// the placeholder, its last-modification instant verbatim, and the start and
/// end of its date-range property; a failure exactly when extraction fails.
pub open spec fn normalize_record(rec: RawRecordView) -> Result<EventView, NormalizeError> {
    match extract_event_time_spec(rec.properties) {
        Ok(range) => Ok(
            EventView {
                id: rec.id,
                title: match rec.title {
                    Some(t) => t,
                    None => default_title(),
                },
                changed: rec.changed,
                start: range.start,
                end: range.end,
            },
        ),
        Err(e) => Err(e),
    }
}

/// Extraction skips any prefix of properties that do not bear the name.
proof fn lemma_extract_skip(props: Seq<(Seq<char>, PropertyValue)>, i: int)
    requires
        0 <= i <= props.len(),
        forall|j: int| 0 <= j < i ==> (#[trigger] props[j]).0 != event_time_name(),
    ensures
        extract_event_time_spec(props) == extract_event_time_spec(props.skip(i)),
    decreases i,
{
    if i == 0 {
        assert(props.skip(0) =~= props);
    } else {
        lemma_extract_skip(props, i - 1);
        let rest = props.skip(i - 1);
        assert(rest[0] == props[i - 1]);
        assert(props[i - 1].0 != event_time_name());
        assert(rest.drop_first() =~= props.skip(i));
        assert(extract_event_time_spec(rest) == extract_event_time_spec(rest.drop_first()));
    }
}

/// Extract the start and optional end from a record's properties, under the
/// fixed property name that designates the event's time.
pub fn extract_event_time(props: &Vec<(String, PropertyValue)>) -> (r: Result<
    DateRange,
    NormalizeError,
>)
    ensures
        r == extract_event_time_spec(
            props@.map_values(|p: (String, PropertyValue)| (p.0@, p.1)),
        ),
{
    let ghost view = props@.map_values(|p: (String, PropertyValue)| (p.0@, p.1));
    let name = "Event time".to_owned();
    let n = props.len();
    let mut i: usize = 0;
    while i < n
        invariant
            0 <= i <= n,
            n == props.len(),
            name@ == event_time_name(),
            view == props@.map_values(|p: (String, PropertyValue)| (p.0@, p.1)),
            forall|j: int| 0 <= j < i ==> (#[trigger] view[j]).0 != event_time_name(),
        decreases n - i,
    {
        if props[i].0.eq(&name) {
            proof {
                lemma_extract_skip(view, i as int);
                assert(view.skip(i as int)[0] == view[i as int]);
            }
            match props[i].1 {
                PropertyValue::Date { value: Some(r) } => {
                    return Ok(r);
                },
                _ => {
                    return Err(NormalizeError::MissingEventTime);
                },
            }
        }
        i += 1;
    }
    proof {
        lemma_extract_skip(view, n as int);
        assert(view.skip(n as int) =~= Seq::<(Seq<char>, PropertyValue)>::empty());
    }
    Err(NormalizeError::MissingEventTime)
}

impl Event {
    /// Normalize one raw record into an event. Fails exactly when the record
    /// has no usable date-range property under the designated name; nothing
    /// of a failing record is kept.
    pub fn from_record(rec: &RawRecord) -> (r: Result<Event, NormalizeError>)
        ensures
            r matches Ok(ev) ==> normalize_record(rec@) == Ok::<EventView, NormalizeError>(ev@),
            r matches Err(e) ==> normalize_record(rec@) == Err::<EventView, NormalizeError>(e),
            r matches Ok(ev) ==> (rec@.valid() ==> ev.valid()),
    {
        let range = match extract_event_time(&rec.properties) {
            Ok(range) => range,
            Err(e) => {
                return Err(e);
            },
        };
        proof {
            lemma_extract_valid(rec@.properties, range, rec@.valid());
        }
        let title = match &rec.title {
            Some(t) => t.clone(),
            None => "No Title".to_owned(),
        };
        Ok(
            Event {
                id: rec.id.clone(),
                title,
                changed: rec.changed,
                start: range.start,
                end: range.end,
            },
        )
    }
}

/// A range extracted from a list of valid properties is itself valid.
proof fn lemma_extract_valid(
    props: Seq<(Seq<char>, PropertyValue)>,
    range: DateRange,
    all_valid: bool,
)
    requires
        extract_event_time_spec(props) == Ok::<DateRange, NormalizeError>(range),
        all_valid ==> forall|i: int|
            0 <= i < props.len() ==> (#[trigger] props[i]).1.valid(),
    ensures
        all_valid ==> range.valid(),
    decreases props.len(),
{
    if props.len() > 0 && !(props[0].0 == event_time_name()) {
        lemma_extract_valid(props.drop_first(), range, all_valid);
    }
}

/// Normalizing a record whose properties nowhere bear the designated name
/// fails; no placeholder event stands in.
pub proof fn lemma_normalize_missing_event_time(rec: RawRecordView)
    requires
        forall|i: int|
            0 <= i < rec.properties.len() ==> (#[trigger] rec.properties[i]).0
                != event_time_name(),
    ensures
        normalize_record(rec) == Err::<EventView, NormalizeError>(NormalizeError::MissingEventTime),
{
    lemma_extract_skip(rec.properties, rec.properties.len() as int);
    assert(rec.properties.skip(rec.properties.len() as int) =~= Seq::<(
        Seq<char>,
        PropertyValue,
    )>::empty());
}

/// Relies on std's String::push: appends the one character at the end.
#[verifier::external_body]
fn push_char(s: &mut String, c: char)
    ensures
        final(s)@ == old(s)@ + seq![c],
{
    s.push(c)
}

/// `s` with every occurrence of `from` replaced by `to`.
pub open spec fn replace_char_text(s: Seq<char>, from: char, to: char) -> Seq<char> {
    s.map_values(|c: char| if c == from { to } else { c })
}

/// `s` with every occurrence of `bad` removed.
pub open spec fn strip_char_text(s: Seq<char>, bad: char) -> Seq<char>
    decreases s.len(),
{
    if s.len() == 0 {
        Seq::empty()
    } else if s.last() == bad {
        strip_char_text(s.drop_last(), bad)
    } else {
        strip_char_text(s.drop_last(), bad).push(s.last())
    }
}

fn replace_char(s: &str, from: char, to: char) -> (r: String)
    ensures
        r@ == replace_char_text(s@, from, to),
{
    let n = s.unicode_len();
    let mut out = String::new();
    let mut i: usize = 0;
    while i < n
        invariant
            0 <= i <= n,
            n == s@.len(),
            out@ == replace_char_text(s@.take(i as int), from, to),
        decreases n - i,
    {
        let c = s.get_char(i);
        if c == from {
            push_char(&mut out, to);
        } else {
            push_char(&mut out, c);
        }
        proof {
            assert(s@.take(i + 1).drop_last() =~= s@.take(i as int));
            assert(out@ =~= replace_char_text(s@.take(i + 1), from, to));
        }
        i += 1;
    }
    proof {
        assert(s@.take(n as int) =~= s@);
    }
    out
}

fn strip_char(s: &str, bad: char) -> (r: String)
    ensures
        r@ == strip_char_text(s@, bad),
{
    let n = s.unicode_len();
    let mut out = String::new();
    let mut i: usize = 0;
    while i < n
        invariant
            0 <= i <= n,
            n == s@.len(),
            out@ == strip_char_text(s@.take(i as int), bad),
        decreases n - i,
    {
        let c = s.get_char(i);
        if c != bad {
            push_char(&mut out, c);
        }
        proof {
            assert(s@.take(i + 1).drop_last() =~= s@.take(i as int));
            assert(s@.take(i + 1).last() == s@[i as int]);
        }
        i += 1;
    }
    proof {
        assert(s@.take(n as int) =~= s@);
    }
    out
}

/// The derived record-viewer link: the fixed base, the title with spaces
/// turned into hyphens, a hyphen, and the identifier with hyphens removed.
/// A convenience link only; never an identity.
pub open spec fn description_text(title: Seq<char>, id: Seq<char>) -> Seq<char> {
    "https://www.notion.so/"@ + replace_char_text(title, ' ', '-') + "-"@ + strip_char_text(
        id,
        '-',
    )
}

impl Event {
    /// The derived record-viewer link for this event.
    pub fn description(&self) -> (r: String)
        ensures
            r@ == description_text(self.title@, self.id@),
    {
        let mut out = "https://www.notion.so/".to_owned();
        out.append(replace_char(self.title.as_str(), ' ', '-').as_str());
        out.append("-");
        out.append(strip_char(self.id.as_str(), '-').as_str());
        out
    }
}

/// The text of a start or end value: the eight-digit form for a bare date,
/// the `Z`-suffixed UTC form for an instant.
pub open spec fn date_value_text(v: DateValue) -> Seq<char> {
    match v {
        DateValue::Date(d) => date_text(d),
        DateValue::DateTime(t) => utc_text(t),
    }
}

/// Format a start or end value: `YYYYMMDD` for a bare date, the
/// `YYYYMMDDTHHMMSSZ` UTC form for an instant.
pub fn fmt_datetime(dt: &DateValue) -> (r: String)
    requires
        dt.valid(),
    ensures
        r@ == date_value_text(*dt),
{
    match dt {
        DateValue::Date(d) => fmt_date(d),
        DateValue::DateTime(t) => fmt_timestamp_utc(t),
    }
}

/// The wall-clock text of a start or end value: the eight-digit form for a
/// bare date, the `YYYYMMDDTHHMMSS` form (no UTC marker) for an instant, as
/// `TZID`-qualified calendar values require.
pub open spec fn date_value_local_text(v: DateValue) -> Seq<char> {
    match v {
        DateValue::Date(d) => date_text(d),
        DateValue::DateTime(t) => local_text(t),
    }
}

/// Format a start or end value in its wall-clock form.
pub fn fmt_datetime_local(dt: &DateValue) -> (r: String)
    requires
        dt.valid(),
    ensures
        r@ == date_value_local_text(*dt),
{
    match dt {
        DateValue::Date(d) => fmt_date(d),
        DateValue::DateTime(t) => fmt_timestamp_local(t),
    }
}

} // verus!
