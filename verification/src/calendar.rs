//! Serialization of events into calendar-format fields, and assembly of one
//! calendar document. The text itself is emitted by the `ical` crate; this
//! module decides every field of every `VEVENT`, branching on whether an
//! event is all-day or time-bound, and proves which properties each event
//! carries.

use crate::dates::{
    date_text, fmt_date, fmt_timestamp_local, fmt_timestamp_utc, lemma_local_text_injective,
    local_text, utc_text, Date, Timestamp,
};
use crate::event::{
    date_value_local_text, date_value_text, description_text, extract_event_time_spec,
    fmt_datetime, fmt_datetime_local, normalize_record, DateRange, DateValue, Event, EventView,
    NormalizeError, RawRecordView,
};
use ical::generator::{Emitter, IcalCalendarBuilder, IcalEvent, IcalEventBuilder, Property};
use vstd::prelude::*;

verus! {

/// One calendar property as the contracts see it: its name, at most one
/// `name=value` parameter, and its value.
pub type PropEntry = (Seq<char>, Option<(Seq<char>, Seq<char>)>, Seq<char>);

/// A property with no parameter.
pub open spec fn prop_plain(name: Seq<char>, value: Seq<char>) -> PropEntry {
    (name, None, value)
}

/// A property with one parameter.
pub open spec fn prop_param(
    name: Seq<char>,
    param_name: Seq<char>,
    param_value: Seq<char>,
    value: Seq<char>,
) -> PropEntry {
    (name, Some((param_name, param_value)), value)
}

/// A parameter value the emitter can escape safely: non-empty and ASCII
/// only. The emitter's escaping walks a parameter value by character
/// positions but slices it by byte positions, and it takes the value's
/// length minus one: an empty value or a multibyte character would make it
/// panic. Timezone identifiers (IANA zone names) have this shape.
pub open spec fn param_value_ok(s: Seq<char>) -> bool {
    &&& s.len() > 0
    &&& forall|i: int| 0 <= i < s.len() ==> ((#[trigger] s[i]) as u32) < 128
}

/// Every parameter value among these properties is one the emitter can
/// escape safely.
pub open spec fn props_params_ok(props: Seq<PropEntry>) -> bool {
    forall|j: int|
        0 <= j < props.len() ==> match (#[trigger] props[j]).1 {
            Some(p) => param_value_ok(p.1),
            None => true,
        }
}

/// Decide `param_value_ok`: whether a timezone identifier can stand as a
/// parameter value.
pub fn timezone_usable(s: &String) -> (r: bool)
    ensures
        r == param_value_ok(s@),
{
    let stn = s.as_str();
    let n = stn.unicode_len();
    if n == 0 {
        return false;
    }
    let mut i: usize = 0;
    while i < n
        invariant
            0 <= i <= n,
            n == stn@.len(),
            stn@ == s@,
            forall|j: int| 0 <= j < i ==> ((#[trigger] stn@[j]) as u32) < 128,
        decreases n - i,
    {
        let c = stn.get_char(i);
        if (c as u32) >= 128 {
            return false;
        }
        i += 1;
    }
    true
}

#[verifier::external_type_specification]
#[verifier::external_body]
pub struct ExIcalEvent(IcalEvent);

/// The properties a serialized calendar event holds, in order. Every event a
/// verified caller can obtain comes from this module's wrappers, which leave
/// the event's alarm list empty, so the properties alone determine what the
/// emitter renders.
pub uninterp spec fn event_props(e: IcalEvent) -> Seq<PropEntry>;

/// The calendar document text that the emitter renders from a product
/// identifier and the events' properties.
pub uninterp spec fn calendar_text(prod_id: Seq<char>, events: Seq<Seq<PropEntry>>) -> Seq<char>;

/// Relies on ical's `IcalEventBuilder`: `uid`, `changed_utc`, `one_day`,
/// `set` and `build` each append exactly one property in call order;
/// `one_day` carries a `VALUE=DATE` parameter, the others none. The builder's
/// zone label goes unused on the date-valued path.
#[verifier::external_body]
fn ical_event_allday_single(
    uid: &String,
    changed: &String,
    day: &String,
    summary: &String,
    description: &String,
) -> (r: IcalEvent)
    ensures
        event_props(r) == seq![
            prop_plain("UID"@, uid@),
            prop_plain("DTSTAMP"@, changed@),
            prop_param("DTSTART"@, "VALUE"@, "DATE"@, day@),
            prop_plain("SUMMARY"@, summary@),
            prop_plain("DESCRIPTION"@, description@),
        ],
{
    IcalEventBuilder::tzid("UTC")
        .uid(uid.clone())
        .changed_utc(changed.clone())
        .one_day(day.clone())
        .set(Property { name: "SUMMARY".into(), value: Some(summary.clone()), params: None })
        .set(Property { name: "DESCRIPTION".into(), value: Some(description.clone()), params: None })
        .build()
}

/// Relies on ical's `IcalEventBuilder`: `uid`, `changed_utc`, `start_day`,
/// `end_day`, `set` and `build` each append exactly one property in call
/// order; `start_day` and `end_day` carry a `VALUE=DATE` parameter. The
/// builder's zone label goes unused on the date-valued path.
#[verifier::external_body]
fn ical_event_allday_range(
    uid: &String,
    changed: &String,
    start_day: &String,
    end_day: &String,
    summary: &String,
    description: &String,
) -> (r: IcalEvent)
    ensures
        event_props(r) == seq![
            prop_plain("UID"@, uid@),
            prop_plain("DTSTAMP"@, changed@),
            prop_param("DTSTART"@, "VALUE"@, "DATE"@, start_day@),
            prop_param("DTEND"@, "VALUE"@, "DATE"@, end_day@),
            prop_plain("SUMMARY"@, summary@),
            prop_plain("DESCRIPTION"@, description@),
        ],
{
    IcalEventBuilder::tzid("UTC")
        .uid(uid.clone())
        .changed_utc(changed.clone())
        .start_day(start_day.clone())
        .end_day(end_day.clone())
        .set(Property { name: "SUMMARY".into(), value: Some(summary.clone()), params: None })
        .set(Property { name: "DESCRIPTION".into(), value: Some(description.clone()), params: None })
        .build()
}

/// Relies on ical's `IcalEventBuilder`: `uid`, `changed_utc`, `start`, `end`,
/// `set` and `build` each append exactly one property in call order; `start`
/// and `end` carry a `TZID` parameter with the builder's zone, `changed_utc`
/// carries none. The zone becomes a parameter value, so it must be one the
/// emitter can later escape safely.
#[verifier::external_body]
fn ical_event_timed(
    tzid: &String,
    uid: &String,
    changed: &String,
    start: &String,
    end: &String,
    summary: &String,
    description: &String,
) -> (r: IcalEvent)
    requires
        param_value_ok(tzid@),
    ensures
        event_props(r) == seq![
            prop_plain("UID"@, uid@),
            prop_plain("DTSTAMP"@, changed@),
            prop_param("DTSTART"@, "TZID"@, tzid@, start@),
            prop_param("DTEND"@, "TZID"@, tzid@, end@),
            prop_plain("SUMMARY"@, summary@),
            prop_plain("DESCRIPTION"@, description@),
        ],
{
    IcalEventBuilder::tzid(tzid.clone())
        .uid(uid.clone())
        .changed_utc(changed.clone())
        .start(start.clone())
        .end(end.clone())
        .set(Property { name: "SUMMARY".into(), value: Some(summary.clone()), params: None })
        .set(Property { name: "DESCRIPTION".into(), value: Some(description.clone()), params: None })
        .build()
}

/// Relies on ical's `IcalEvent::new` and `Property`: the event holds exactly
/// the properties pushed onto it, in order. This mirrors the builder's layout
/// for a time-bound event whose end is absent: the end property is omitted
/// outright, since an empty timestamp would not be valid calendar text. The
/// zone becomes a parameter value, so it must be one the emitter can later
/// escape safely.
#[verifier::external_body]
fn ical_event_timed_open(
    tzid: &String,
    uid: &String,
    changed: &String,
    start: &String,
    summary: &String,
    description: &String,
) -> (r: IcalEvent)
    requires
        param_value_ok(tzid@),
    ensures
        event_props(r) == seq![
            prop_plain("UID"@, uid@),
            prop_plain("DTSTAMP"@, changed@),
            prop_param("DTSTART"@, "TZID"@, tzid@, start@),
            prop_plain("SUMMARY"@, summary@),
            prop_plain("DESCRIPTION"@, description@),
        ],
{
    let mut ev = IcalEvent::new();
    let dtstart = Property {
        name: "DTSTART".into(),
        value: Some(start.clone()),
        params: Some(vec![("TZID".into(), vec![tzid.clone()])]),
    };
    ev.properties.push(Property { name: "UID".into(), value: Some(uid.clone()), params: None });
    ev.properties.push(Property { name: "DTSTAMP".into(), value: Some(changed.clone()), params: None });
    ev.properties.push(dtstart);
    ev.properties.push(Property { name: "SUMMARY".into(), value: Some(summary.clone()), params: None });
    ev.properties.push(Property { name: "DESCRIPTION".into(), value: Some(description.clone()), params: None });
    ev
}

/// Relies on ical's `IcalCalendarBuilder` (`version`, `gregorian`, `prodid`,
/// `build`) and `Emitter::generate`: with the fixed `2.0` version and
/// Gregorian scale, the rendered text is a function of the product identifier
/// and of the events' properties alone, the events in order. The emitter
/// escapes every property parameter value and panics on an empty one, or on
/// a multibyte character next to one it escapes: every parameter value must
/// be non-empty ASCII. Property names and values, and the product
/// identifier, are only line-folded, which the emitter does multibyte-aware.
#[verifier::external_body]
fn render_calendar(events: Vec<IcalEvent>, prod_id: &String) -> (r: String)
    requires
        forall|i: int|
            0 <= i < events@.len() ==> props_params_ok(event_props(#[trigger] events@[i])),
    ensures
        r@ == calendar_text(prod_id@, events@.map_values(|e: IcalEvent| event_props(e))),
{
    let mut cal = IcalCalendarBuilder::version("2.0").gregorian().prodid(prod_id.clone()).build();
    cal.events = events;
    cal.generate()
}

/// How one event is timed, with every value already in calendar text form.
pub enum EventTiming {
    /// A single-day all-day event.
    AllDaySingle { day: String },
    /// An all-day event over an explicit start day and (exclusive) end day.
    AllDayRange { start_day: String, end_day: String },
    /// A time-bound event in the zone named by `tzid`; an absent end is
    /// omitted from the serialized event.
    Timed { tzid: String, start: String, end: Option<String> },
}

/// The draft fields of one serialized calendar event, finalized into
/// properties by `fields_to_ical`.
pub struct EventFields {
    pub uid: String,
    pub summary: String,
    pub description: String,
    pub changed: String,
    pub timing: EventTiming,
}

#[verifier::ext_equal]
pub enum TimingView {
    AllDaySingle { day: Seq<char> },
    AllDayRange { start_day: Seq<char>, end_day: Seq<char> },
    Timed { tzid: Seq<char>, start: Seq<char>, end: Option<Seq<char>> },
}

#[verifier::ext_equal]
pub struct EventFieldsView {
    pub uid: Seq<char>,
    pub summary: Seq<char>,
    pub description: Seq<char>,
    pub changed: Seq<char>,
    pub timing: TimingView,
}

impl View for EventTiming {
    type V = TimingView;

    open spec fn view(&self) -> TimingView {
        match self {
            EventTiming::AllDaySingle { day } => TimingView::AllDaySingle { day: day@ },
            EventTiming::AllDayRange { start_day, end_day } => TimingView::AllDayRange {
                start_day: start_day@,
                end_day: end_day@,
            },
            EventTiming::Timed { tzid, start, end } => TimingView::Timed {
                tzid: tzid@,
                start: start@,
                end: match end {
                    Some(e) => Some(e@),
                    None => None,
                },
            },
        }
    }
}

impl View for EventFields {
    type V = EventFieldsView;

    open spec fn view(&self) -> EventFieldsView {
        EventFieldsView {
            uid: self.uid@,
            summary: self.summary@,
            description: self.description@,
            changed: self.changed@,
            timing: self.timing@,
        }
    }
}

/// What serializing an event under a timezone identifier yields: identifier
/// and title verbatim, the derived record-viewer link, the last-modification
/// instant in UTC text, and the timing fields — bare dates for an all-day
/// event, `TZID`-qualified wall-clock instants for a time-bound one.
pub open spec fn serialize_view(e: EventView, tz: Seq<char>) -> EventFieldsView {
    EventFieldsView {
        uid: e.id,
        summary: e.title,
        description: description_text(e.title, e.id),
        changed: utc_text(e.changed),
        timing: match e.start {
            DateValue::Date(d) => match e.end {
                Some(endv) => TimingView::AllDayRange {
                    start_day: date_text(d),
                    end_day: date_value_text(endv),
                },
                None => TimingView::AllDaySingle { day: date_text(d) },
            },
            DateValue::DateTime(t) => TimingView::Timed {
                tzid: tz,
                start: local_text(t),
                end: match e.end {
                    Some(endv) => Some(date_value_local_text(endv)),
                    None => None,
                },
            },
        },
    }
}

/// The properties of the serialized event that a draft's fields finalize
/// into, in the order the event carries them.
pub open spec fn props_of(f: EventFieldsView) -> Seq<PropEntry> {
    match f.timing {
        TimingView::AllDaySingle { day } => seq![
            prop_plain("UID"@, f.uid),
            prop_plain("DTSTAMP"@, f.changed),
            prop_param("DTSTART"@, "VALUE"@, "DATE"@, day),
            prop_plain("SUMMARY"@, f.summary),
            prop_plain("DESCRIPTION"@, f.description),
        ],
        TimingView::AllDayRange { start_day, end_day } => seq![
            prop_plain("UID"@, f.uid),
            prop_plain("DTSTAMP"@, f.changed),
            prop_param("DTSTART"@, "VALUE"@, "DATE"@, start_day),
            prop_param("DTEND"@, "VALUE"@, "DATE"@, end_day),
            prop_plain("SUMMARY"@, f.summary),
            prop_plain("DESCRIPTION"@, f.description),
        ],
        TimingView::Timed { tzid, start, end } => match end {
            Some(e) => seq![
                prop_plain("UID"@, f.uid),
                prop_plain("DTSTAMP"@, f.changed),
                prop_param("DTSTART"@, "TZID"@, tzid, start),
                prop_param("DTEND"@, "TZID"@, tzid, e),
                prop_plain("SUMMARY"@, f.summary),
                prop_plain("DESCRIPTION"@, f.description),
            ],
            None => seq![
                prop_plain("UID"@, f.uid),
                prop_plain("DTSTAMP"@, f.changed),
                prop_param("DTSTART"@, "TZID"@, tzid, start),
                prop_plain("SUMMARY"@, f.summary),
                prop_plain("DESCRIPTION"@, f.description),
            ],
        },
    }
}

/// The one caller-supplied parameter value among a draft's fields is the
/// zone of a time-bound event: it must be one the emitter can escape safely.
pub open spec fn fields_params_ok(f: EventFieldsView) -> bool {
    match f.timing {
        TimingView::Timed { tzid, .. } => param_value_ok(tzid),
        _ => true,
    }
}

/// The `VALUE=DATE` parameter the all-day shapes carry is a safe parameter
/// value, so a draft with a safe zone finalizes into safe properties.
proof fn lemma_props_of_params_ok(f: EventFieldsView)
    requires
        fields_params_ok(f),
    ensures
        props_params_ok(props_of(f)),
{
    reveal_strlit("DATE");
    assert(param_value_ok("DATE"@)) by {
        assert("DATE"@.len() == 4);
        assert forall|i: int| 0 <= i < "DATE"@.len() implies ((#[trigger] "DATE"@[i]) as u32)
            < 128 by {
            if i == 0 {
            } else if i == 1 {
            } else if i == 2 {
            } else {
                assert(i == 3);
            }
        }
    }
    let props = props_of(f);
    assert forall|j: int| 0 <= j < props.len() implies match (#[trigger] props[j]).1 {
        Some(p) => param_value_ok(p.1),
        None => true,
    } by {
        match f.timing {
            TimingView::AllDaySingle { .. } => {
                assert(props[2].1 == Some(("VALUE"@, "DATE"@)));
            },
            TimingView::AllDayRange { .. } => {
                assert(props[2].1 == Some(("VALUE"@, "DATE"@)));
                assert(props[3].1 == Some(("VALUE"@, "DATE"@)));
            },
            TimingView::Timed { tzid, end, .. } => {
                assert(props[2].1 == Some(("TZID"@, tzid)));
                if end is Some {
                    assert(props[3].1 == Some(("TZID"@, tzid)));
                }
            },
        }
    }
}

impl Event {
    /// Serialize this event's calendar fields under the given timezone
    /// identifier. The identifier labels the time-bound values; the core
    /// applies it uniformly and performs no zone conversion.
    pub fn to_fields(&self, timezone: &String) -> (r: EventFields)
        requires
            self.valid(),
        ensures
            r@ == serialize_view(self@, timezone@),
    {
        let timing = match &self.start {
            DateValue::Date(d) => match &self.end {
                Some(endv) => EventTiming::AllDayRange {
                    start_day: fmt_date(d),
                    end_day: fmt_datetime(endv),
                },
                None => EventTiming::AllDaySingle { day: fmt_date(d) },
            },
            DateValue::DateTime(t) => EventTiming::Timed {
                tzid: timezone.clone(),
                start: fmt_timestamp_local(t),
                end: match &self.end {
                    Some(endv) => Some(fmt_datetime_local(endv)),
                    None => None,
                },
            },
        };
        let r = EventFields {
            uid: self.id.clone(),
            summary: self.title.clone(),
            description: self.description(),
            changed: fmt_timestamp_utc(&self.changed),
            timing,
        };
        proof {
            assert(r@ =~= serialize_view(self@, timezone@));
        }
        r
    }

    /// The serialized calendar event for these fields, under the given
    /// timezone identifier.
    pub fn to_ical(&self, timezone: &String) -> (r: IcalEvent)
        requires
            self.valid(),
            param_value_ok(timezone@),
        ensures
            event_props(r) == props_of(serialize_view(self@, timezone@)),
            props_params_ok(event_props(r)),
    {
        let f = self.to_fields(timezone);
        fields_to_ical(&f)
    }
}

/// Finalize a draft's fields into the serialized calendar event.
pub fn fields_to_ical(f: &EventFields) -> (r: IcalEvent)
    requires
        fields_params_ok(f@),
    ensures
        event_props(r) == props_of(f@),
        props_params_ok(event_props(r)),
{
    proof {
        lemma_props_of_params_ok(f@);
    }
    match &f.timing {
        EventTiming::AllDaySingle { day } => ical_event_allday_single(
            &f.uid,
            &f.changed,
            day,
            &f.summary,
            &f.description,
        ),
        EventTiming::AllDayRange { start_day, end_day } => ical_event_allday_range(
            &f.uid,
            &f.changed,
            start_day,
            end_day,
            &f.summary,
            &f.description,
        ),
        EventTiming::Timed { tzid, start, end } => match end {
            Some(e) => ical_event_timed(
                tzid,
                &f.uid,
                &f.changed,
                start,
                e,
                &f.summary,
                &f.description,
            ),
            None => ical_event_timed_open(
                tzid,
                &f.uid,
                &f.changed,
                start,
                &f.summary,
                &f.description,
            ),
        },
    }
}

/// Assemble one calendar document: format version `2.0`, Gregorian scale, the
/// given product identifier, and one event block per input event, in input
/// order, each serialized under the given timezone identifier. The timezone
/// identifier must be non-empty ASCII (an IANA zone name is), as the
/// emitter's parameter escaping requires.
pub fn generate_calendar(events: Vec<Event>, prod_id: &String, timezone: &String) -> (r: String)
    requires
        forall|i: int| 0 <= i < events@.len() ==> (#[trigger] events@[i]).valid(),
        param_value_ok(timezone@),
    ensures
        r@ == calendar_text(
            prod_id@,
            events@.map_values(|e: Event| props_of(serialize_view(e@, timezone@))),
        ),
{
    let mut icals: Vec<IcalEvent> = Vec::new();
    let n = events.len();
    let mut i: usize = 0;
    while i < n
        invariant
            0 <= i <= n,
            n == events@.len(),
            forall|k: int| 0 <= k < events@.len() ==> (#[trigger] events@[k]).valid(),
            param_value_ok(timezone@),
            icals@.len() == i,
            forall|j: int|
                0 <= j < i ==> event_props(#[trigger] icals@[j]) == props_of(
                    serialize_view(events@[j]@, timezone@),
                ),
            forall|j: int| 0 <= j < i ==> props_params_ok(event_props(#[trigger] icals@[j])),
        decreases n - i,
    {
        let ic = events[i].to_ical(timezone);
        icals.push(ic);
        i += 1;
    }
    proof {
        assert(icals@.map_values(|e: IcalEvent| event_props(e)) =~= events@.map_values(
            |e: Event| props_of(serialize_view(e@, timezone@)),
        ));
    }
    render_calendar(icals, prod_id)
}

/// An event normalized from an all-day time range with no end serializes as a
/// single-day all-day block, never a ranged one.
pub proof fn lemma_allday_no_end_single(rec: RawRecordView, tz: Seq<char>, d: Date)
    requires
        extract_event_time_spec(rec.properties) == Ok::<DateRange, NormalizeError>(
            DateRange { start: DateValue::Date(d), end: None },
        ),
    ensures
        normalize_record(rec) matches Ok(ev) && serialize_view(ev, tz).timing
            == (TimingView::AllDaySingle { day: date_text(d) }),
{
}

/// An event normalized from a timed range with an end serializes with
/// distinct, non-empty start and end timestamps, whenever the two instants
/// differ.
pub proof fn lemma_timed_with_end_distinct(
    rec: RawRecordView,
    tz: Seq<char>,
    ts: Timestamp,
    te: Timestamp,
)
    requires
        extract_event_time_spec(rec.properties) == Ok::<DateRange, NormalizeError>(
            DateRange { start: DateValue::DateTime(ts), end: Some(DateValue::DateTime(te)) },
        ),
        ts.valid(),
        te.valid(),
        ts != te,
    ensures
        normalize_record(rec) matches Ok(ev) && serialize_view(ev, tz).timing matches
            TimingView::Timed { start, end, .. } && start == local_text(ts) && end == Some(
            local_text(te),
        ) && start.len() > 0 && local_text(te).len() > 0 && start != local_text(te),
{
    if local_text(ts) == local_text(te) {
        lemma_local_text_injective(ts, te);
    }
}

} // verus!
