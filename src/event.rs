//! Schedule events: the kind read from the event's class label, and the raw
//! record of the portal turned into an `Event`.

use vstd::prelude::*;
use crate::number::{parse_u32, parse_unsigned_spec};
use crate::text::chars_of;
use crate::title::{ParsedTitleView, TitleError, parse_title, parse_title_spec, strings_view, option_view};

verus! {

/// The kind of an event.
#[derive(Debug, Clone, Copy, PartialEq, Eq, Structural)]
pub enum EventKind {
    Course,
    Exam,
    Leave,
    Meeting,
    PracticalWork,
    SupervisedWork,
    Project,
    Other,
}

/// What `str::to_lowercase` returns on `s`.
pub uninterp spec fn lower_of(s: Seq<char>) -> Seq<char>;

/// Relies on `str::to_lowercase`: the lowercase form of `s`, a function of its
/// characters alone.
#[verifier::external_body]
fn lowercase(s: &str) -> (r: String)
    ensures
        r@ == lower_of(s@),
{
    s.to_lowercase()
}

/// The kind that an already lowercase label names.
pub open spec fn kind_of_label(l: Seq<char>) -> EventKind {
    if l == "conges"@ {
        EventKind::Leave
    } else if l == "cm"@ || l == "cours"@ {
        EventKind::Course
    } else if l == "est-epreuve"@ || l == "evaluation"@ || l == "ds"@ {
        EventKind::Exam
    } else if l == "reunion"@ {
        EventKind::Meeting
    } else if l == "td"@ || l == "cours_td"@ {
        EventKind::SupervisedWork
    } else if l == "tp"@ {
        EventKind::PracticalWork
    } else if l == "projet"@ {
        EventKind::Project
    } else {
        EventKind::Other
    }
}

fn is_label(l: &String, name: &str) -> (r: bool)
    ensures
        r == (l@ == name@),
{
    let n = String::from_str(name);
    *l == n
}

/// The kind that a lowercase label names; `Other` for any label not in the table.
pub fn kind_of_lowercase(label: &String) -> (r: EventKind)
    ensures
        r == kind_of_label(label@),
{
    if is_label(label, "conges") {
        EventKind::Leave
    } else if is_label(label, "cm") || is_label(label, "cours") {
        EventKind::Course
    } else if is_label(label, "est-epreuve") || is_label(label, "evaluation") || is_label(
        label,
        "ds",
    ) {
        EventKind::Exam
    } else if is_label(label, "reunion") {
        EventKind::Meeting
    } else if is_label(label, "td") || is_label(label, "cours_td") {
        EventKind::SupervisedWork
    } else if is_label(label, "tp") {
        EventKind::PracticalWork
    } else if is_label(label, "projet") {
        EventKind::Project
    } else {
        EventKind::Other
    }
}

/// The kind of an event from its class label, whatever its case.
pub fn map_kind(event_type: &str) -> (r: EventKind)
    ensures
        r == kind_of_label(lower_of(event_type@)),
{
    let l = lowercase(event_type);
    kind_of_lowercase(&l)
}

/// An event record as the portal sends it. Times are milliseconds since the
/// Unix epoch.
pub struct RawEvent {
    pub id: String,
    pub title: String,
    pub start: i64,
    pub end: i64,
    pub class_name: String,
}

/// An event of a schedule. Times are milliseconds since the Unix epoch.
pub struct Event {
    pub id: u32,
    pub kind: EventKind,
    pub start: i64,
    pub end: i64,
    pub rooms: Vec<String>,
    pub subject: String,
    pub chapter: Option<String>,
    pub participants: Vec<String>,
}

/// Why a raw record could not become an event.
#[derive(Debug, Clone, Copy, PartialEq, Eq, Structural)]
pub enum EventError {
    /// The id is not a `u32` in decimal.
    InvalidId,
    /// The title could not be read.
    Title(TitleError),
}

pub struct EventView {
    pub id: u32,
    pub kind: EventKind,
    pub start: i64,
    pub end: i64,
    pub title: ParsedTitleView,
}

impl View for Event {
    type V = EventView;

    open spec fn view(&self) -> EventView {
        EventView {
            id: self.id,
            kind: self.kind,
            start: self.start,
            end: self.end,
            title: ParsedTitleView {
                rooms: strings_view(self.rooms@),
                subject: self.subject@,
                chapter: option_view(self.chapter),
                participants: strings_view(self.participants@),
            },
        }
    }
}

/// The event that a raw record gives.
pub open spec fn event_spec(
    id: Seq<char>,
    title: Seq<char>,
    start: i64,
    end: i64,
    class_name: Seq<char>,
) -> Result<EventView, EventError> {
    match parse_unsigned_spec(id, u32::MAX as int) {
        None => Err(EventError::InvalidId),
        Some(n) => match parse_title_spec(title) {
            Err(e) => Err(EventError::Title(e)),
            Ok(t) => Ok(
                EventView {
                    id: n as u32,
                    kind: kind_of_label(lower_of(class_name)),
                    start,
                    end,
                    title: t,
                },
            ),
        },
    }
}

pub open spec fn raw_event_spec(e: RawEvent) -> Result<EventView, EventError> {
    event_spec(e.id@, e.title@, e.start, e.end, e.class_name@)
}

impl Event {
    /// Turns a raw record into an event.
    pub fn from_raw_event(event: RawEvent) -> (r: Result<Event, EventError>)
        ensures
            match r {
                Ok(ev) => raw_event_spec(event) == Ok::<EventView, EventError>(ev@),
                Err(e) => raw_event_spec(event) == Err::<EventView, EventError>(e),
            },
    {
        let id = match parse_u32(&chars_of(event.id.as_str())) {
            Some(id) => id,
            None => return Err(EventError::InvalidId),
        };
        let kind = map_kind(event.class_name.as_str());
        let title = match parse_title(event.title.as_str()) {
            Ok(t) => t,
            Err(e) => return Err(EventError::Title(e)),
        };
        Ok(
            Event {
                id,
                kind,
                start: event.start,
                end: event.end,
                rooms: title.rooms,
                subject: title.subject,
                chapter: title.chapter,
                participants: title.participants,
            },
        )
    }
}

} // verus!
