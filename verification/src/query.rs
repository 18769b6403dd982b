//! The paginated query against the remote database, as a verified state
//! machine. The driver decides, from each page of raw records, what to
//! accumulate and whether another request must follow; the caller performs
//! the requests and hands each response back.

use crate::event::{normalize_record, Event, EventView, NormalizeError, RawRecord, RawRecordView};
use vstd::prelude::*;

verus! {

/// One condition of a query filter on a named property: either that a people
/// property contains a participant, or that a date property falls in the
/// remote service's forward-looking window.
#[derive(Debug)]
pub enum PropertyCondition {
    PeopleContains(String),
    DateNextYear,
}

/// A query filter: a conjunction, or one condition on a named property.
#[derive(Debug)]
pub enum Filter {
    And(Vec<Filter>),
    Property { property: String, condition: PropertyCondition },
}

/// The filter every request of a participant's future-events query carries:
/// the conjunction of the attendee-contains condition on the `Attendees`
/// property and the forward-looking date condition on the `Event time`
/// property, and nothing else.
pub open spec fn is_participant_window_filter(f: Filter, user: Seq<char>) -> bool {
    &&& f matches Filter::And(parts)
    &&& f matches Filter::And(parts) ==> {
        &&& parts@.len() == 2
        &&& parts@[0] matches Filter::Property { property, condition } && (property@
            == "Attendees"@) && (condition matches PropertyCondition::PeopleContains(u) && u@
            == user)
        &&& parts@[1] matches Filter::Property { property, condition } && (property@
            == "Event time"@) && (condition matches PropertyCondition::DateNextYear)
    }
}

/// Build the compound filter for one participant's future events.
pub fn participant_window_filter(user_id: &String) -> (r: Filter)
    ensures
        is_participant_window_filter(r, user_id@),
{
    let attendee = Filter::Property {
        property: "Attendees".to_owned(),
        condition: PropertyCondition::PeopleContains(user_id.clone()),
    };
    let window = Filter::Property {
        property: "Event time".to_owned(),
        condition: PropertyCondition::DateNextYear,
    };
    let mut parts: Vec<Filter> = Vec::new();
    parts.push(attendee);
    parts.push(window);
    Filter::And(parts)
}

/// One request of the paginated query: the filter, and the continuation
/// cursor of the prior response, or none for the first page. The page size is
/// always left to the remote default.
pub struct QueryRequest {
    pub filter: Filter,
    pub cursor: Option<String>,
}

/// One response of the remote database: the page's raw records, whether more
/// results exist, and the continuation cursor to carry into the next request.
pub struct PageResponse {
    pub records: Vec<RawRecord>,
    pub has_more: bool,
    pub next_cursor: Option<String>,
}

impl PageResponse {
    /// Every record of the page carries calendar-representable instants.
    pub open spec fn valid(self) -> bool {
        forall|i: int| 0 <= i < self.records@.len() ==> (#[trigger] self.records@[i])@.valid()
    }
}

/// The records of a page, as mathematical values.
pub open spec fn records_view(rs: Seq<RawRecord>) -> Seq<RawRecordView> {
    rs.map_values(|r: RawRecord| r@)
}

/// The events of an accumulator, as mathematical values.
pub open spec fn events_view(es: Seq<Event>) -> Seq<EventView> {
    es.map_values(|e: Event| e@)
}

/// What normalizing a whole page yields: every record's event, in page order,
/// or the first record's failure — fail-fast, no partial result.
pub open spec fn normalize_all(recs: Seq<RawRecordView>) -> Result<Seq<EventView>, NormalizeError>
    decreases recs.len(),
{
    if recs.len() == 0 {
        Ok(Seq::empty())
    } else {
        match normalize_all(recs.drop_last()) {
            Ok(pre) => match normalize_record(recs.last()) {
                Ok(ev) => Ok(pre.push(ev)),
                Err(e) => Err(e),
            },
            Err(e) => Err(e),
        }
    }
}

/// Once a prefix fails to normalize, the whole sequence fails the same way.
proof fn lemma_normalize_all_err_extends(recs: Seq<RawRecordView>, i: int)
    requires
        0 <= i <= recs.len(),
        normalize_all(recs.take(i)) is Err,
    ensures
        normalize_all(recs) == normalize_all(recs.take(i)),
    decreases recs.len() - i,
{
    if i < recs.len() {
        assert(recs.take(i + 1).drop_last() =~= recs.take(i));
        lemma_normalize_all_err_extends(recs, i + 1);
    } else {
        assert(recs.take(i) =~= recs);
    }
}

/// The accumulating driver of one participant's future-events query. Result
/// order is whatever the remote database returns, and no deduplication is
/// performed: a record returned twice across a page boundary becomes two
/// events.
pub struct FetchDriver {
    pub user_id: String,
    pub events: Vec<Event>,
    pub done: bool,
}

impl FetchDriver {
    /// Every accumulated event carries calendar-representable instants.
    pub open spec fn wf(self) -> bool {
        forall|i: int| 0 <= i < self.events@.len() ==> (#[trigger] self.events@[i]).valid()
    }

    /// Start a query for one participant: an empty accumulator, and the first
    /// request — the compound filter, no cursor.
    pub fn begin(user_id: String) -> (r: (FetchDriver, QueryRequest))
        ensures
            r.0.wf(),
            !r.0.done,
            r.0.user_id@ == user_id@,
            r.0.events@.len() == 0,
            is_participant_window_filter(r.1.filter, user_id@),
            r.1.cursor is None,
    {
        let filter = participant_window_filter(&user_id);
        let driver = FetchDriver { user_id, events: Vec::new(), done: false };
        (driver, QueryRequest { filter, cursor: None })
    }

    /// Take one page of the response in. On success the page's normalized
    /// events are appended, in page order, and the result says whether a next
    /// request must follow: one carrying the response's cursor and the same
    /// compound filter exactly when the response says more results exist. On
    /// the first record that fails to normalize, nothing is kept and the
    /// failure is handed up — the whole operation aborts with no partial
    /// result.
    pub fn on_page(&mut self, page: PageResponse) -> (r: Result<
        Option<QueryRequest>,
        NormalizeError,
    >)
        requires
            !old(self).done,
            old(self).wf(),
            page.valid(),
        ensures
            final(self).wf(),
            final(self).user_id == old(self).user_id,
            match r {
                Ok(next) => {
                    &&& normalize_all(records_view(page.records@)) matches Ok(evs)
                        && events_view(final(self).events@) == events_view(old(self).events@)
                        + evs
                    &&& match next {
                        Some(req) => page.has_more && req.cursor == page.next_cursor
                            && is_participant_window_filter(req.filter, old(self).user_id@)
                            && !final(self).done,
                        None => !page.has_more && final(self).done,
                    }
                },
                Err(e) => {
                    &&& normalize_all(records_view(page.records@)) == Err::<
                        Seq<EventView>,
                        NormalizeError,
                    >(e)
                    &&& *final(self) == *old(self)
                },
            },
    {
        let mut fresh: Vec<Event> = Vec::new();
        let n = page.records.len();
        let ghost rv = records_view(page.records@);
        proof {
            assert(rv.take(0) =~= Seq::<RawRecordView>::empty());
            assert(events_view(fresh@) =~= Seq::<EventView>::empty());
        }
        let mut i: usize = 0;
        while i < n
            invariant
                0 <= i <= n,
                n == page.records@.len(),
                page.valid(),
                *self == *old(self),
                self.wf(),
                rv == records_view(page.records@),
                normalize_all(rv.take(i as int)) == Ok::<Seq<EventView>, NormalizeError>(
                    events_view(fresh@),
                ),
                forall|j: int| 0 <= j < fresh@.len() ==> (#[trigger] fresh@[j]).valid(),
            decreases n - i,
        {
            let ghost fresh0 = fresh@;
            match Event::from_record(&page.records[i]) {
                Ok(ev) => {
                    fresh.push(ev);
                    proof {
                        assert(rv.take(i + 1).drop_last() =~= rv.take(i as int));
                        assert(rv.take(i + 1).last() == page.records@[i as int]@);
                        assert(events_view(fresh@) =~= events_view(fresh0).push(ev@));
                    }
                },
                Err(e) => {
                    proof {
                        assert(rv.take(i + 1).drop_last() =~= rv.take(i as int));
                        assert(rv.take(i + 1).last() == page.records@[i as int]@);
                        assert(normalize_all(rv.take(i + 1)) == Err::<
                            Seq<EventView>,
                            NormalizeError,
                        >(e));
                        lemma_normalize_all_err_extends(rv, i + 1);
                    }
                    return Err(e);
                },
            }
            i += 1;
        }
        proof {
            assert(rv.take(n as int) =~= rv);
        }
        let ghost accumulated = self.events@;
        let ghost added = fresh@;
        self.events.append(&mut fresh);
        proof {
            assert(events_view(self.events@) =~= events_view(accumulated) + events_view(added));
        }
        if page.has_more {
            let req = QueryRequest {
                filter: participant_window_filter(&self.user_id),
                cursor: page.next_cursor,
            };
            Ok(Some(req))
        } else {
            self.done = true;
            Ok(None)
        }
    }

    /// The accumulated events, once the result set is exhausted.
    pub fn into_events(self) -> (r: Vec<Event>)
        requires
            self.done,
        ensures
            r == self.events,
    {
        self.events
    }
}

} // verus!
