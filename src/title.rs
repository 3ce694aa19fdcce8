//! The free-text title of a schedule event:
//! `"<time> à <time> - <rooms> - <?> - <subject> - [<chapter> -] <participants> - <…>"`.

use vstd::prelude::*;
use crate::text::{before_last, before_last_of, chars_of, join_seq, join_with, slice_chars, split_on, split_seq, string_of};

verus! {

/// Separates the segments of a title.
pub const SEGMENT_SEP: &'static str = " - ";

/// Separates the names inside the rooms and the participants segments.
pub const NAME_SEP: &'static str = " / ";

/// How many characters the time range at the head of a title takes.
pub const TIME_PREFIX_LEN: usize = 16;

/// Why a title could not be read.
#[derive(Debug, Clone, Copy, PartialEq, Eq, Structural)]
pub enum TitleError {
    /// The separator after the start time is neither `à` nor `-`.
    Unrecognized,
    /// The separator after the start time is `-`: a known format that is not read.
    Unsupported,
    /// The title has too few segments.
    Malformed,
}

/// The fields that a title holds.
pub struct ParsedTitle {
    pub rooms: Vec<String>,
    pub subject: String,
    pub chapter: Option<String>,
    pub participants: Vec<String>,
}

pub struct ParsedTitleView {
    pub rooms: Seq<Seq<char>>,
    pub subject: Seq<char>,
    pub chapter: Option<Seq<char>>,
    pub participants: Seq<Seq<char>>,
}

pub open spec fn strings_view(v: Seq<String>) -> Seq<Seq<char>> {
    v.map_values(|s: String| s@)
}

pub open spec fn option_view(o: Option<String>) -> Option<Seq<char>> {
    match o {
        Some(s) => Some(s@),
        None => None,
    }
}

impl View for ParsedTitle {
    type V = ParsedTitleView;

    open spec fn view(&self) -> ParsedTitleView {
        ParsedTitleView {
            rooms: strings_view(self.rooms@),
            subject: self.subject@,
            chapter: option_view(self.chapter),
            participants: strings_view(self.participants@),
        }
    }
}

/// What `str::trim` returns on `s`.
pub uninterp spec fn trim_of(s: Seq<char>) -> Seq<char>;

/// Relies on `str::trim`: `s` without its leading and trailing white space.
#[verifier::external_body]
pub(crate) fn trimmed(s: &str) -> (r: String)
    ensures
        r@ == trim_of(s@),
{
    s.trim().to_string()
}

pub open spec fn trim_all(s: Seq<Seq<char>>) -> Seq<Seq<char>> {
    s.map_values(|p: Seq<char>| trim_of(p))
}

/// The non-empty ones among `s`, in order.
pub open spec fn non_empty(s: Seq<Seq<char>>) -> Seq<Seq<char>>
    decreases s.len(),
{
    if s.len() == 0 {
        Seq::empty()
    } else if s.last().len() == 0 {
        non_empty(s.drop_last())
    } else {
        non_empty(s.drop_last()).push(s.last())
    }
}

/// The segments of a title between its time range and its last segment.
pub open spec fn title_slots(t: Seq<char>) -> Result<Seq<Seq<char>>, TitleError> {
    if t.len() <= 6 || (t[6] != 'à' && t[6] != '-') {
        Err(TitleError::Unrecognized)
    } else if t[6] == '-' {
        Err(TitleError::Unsupported)
    } else if t.len() < TIME_PREFIX_LEN {
        Err(TitleError::Malformed)
    } else {
        match before_last(t.subrange(TIME_PREFIX_LEN as int, t.len() as int), SEGMENT_SEP@) {
            None => Err(TitleError::Malformed),
            Some(body) => {
                let slots = split_seq(body, SEGMENT_SEP@);
                if slots.len() < 3 {
                    Err(TitleError::Malformed)
                } else {
                    Ok(slots)
                }
            },
        }
    }
}

/// The fields made of trimmed pieces: an empty chapter is no chapter, and
/// empty participants are left out.
pub open spec fn assembled(
    rooms: Seq<Seq<char>>,
    subject: Seq<char>,
    chapter: Seq<char>,
    participants: Seq<Seq<char>>,
) -> ParsedTitleView {
    ParsedTitleView {
        rooms,
        subject,
        chapter: if chapter.len() == 0 {
            None
        } else {
            Some(chapter)
        },
        participants: non_empty(participants),
    }
}

/// The slots between the subject and the last slot.
pub open spec fn chapter_slots(slots: Seq<Seq<char>>) -> Seq<Seq<char>> {
    if slots.len() >= 4 {
        slots.subrange(3, slots.len() - 1)
    } else {
        Seq::empty()
    }
}

/// What a title holds: slot 0 is the rooms, slot 2 the subject, the slots
/// between it and the last one the chapter, and the last one the participants.
pub open spec fn parse_title_spec(t: Seq<char>) -> Result<ParsedTitleView, TitleError> {
    match title_slots(t) {
        Err(e) => Err(e),
        Ok(slots) => Ok(
            assembled(
                trim_all(split_seq(slots[0], NAME_SEP@)),
                slots[2],
                trim_of(join_seq(chapter_slots(slots), SEGMENT_SEP@)),
                trim_all(split_seq(slots.last(), NAME_SEP@)),
            ),
        ),
    }
}

/// The title's segments, checked against the format.
pub fn title_segments(title: &str) -> (r: Result<Vec<Vec<char>>, TitleError>)
    ensures
        match r {
            Ok(v) => title_slots(title@) == Ok::<Seq<Seq<char>>, TitleError>(
                v@.map_values(|p: Vec<char>| p@),
            ),
            Err(e) => title_slots(title@) == Err::<Seq<Seq<char>>, TitleError>(e),
        },
{
    let t = chars_of(title);
    if t.len() <= 6 {
        return Err(TitleError::Unrecognized);
    }
    let c = t[6];
    if c == '-' {
        return Err(TitleError::Unsupported);
    }
    if c != 'à' {
        return Err(TitleError::Unrecognized);
    }
    if t.len() < TIME_PREFIX_LEN {
        return Err(TitleError::Malformed);
    }
    let rest = slice_chars(&t, TIME_PREFIX_LEN, t.len());
    let sep = chars_of(SEGMENT_SEP);
    proof {
        reveal_strlit(" - ");
    }
    match before_last_of(&rest, &sep) {
        None => Err(TitleError::Malformed),
        Some(body) => {
            let slots = split_on(&body, &sep);
            if slots.len() < 3 {
                Err(TitleError::Malformed)
            } else {
                Ok(slots)
            }
        },
    }
}

/// Each piece as a trimmed string.
fn trim_pieces(pieces: &Vec<Vec<char>>) -> (r: Vec<String>)
    ensures
        strings_view(r@) == trim_all(pieces@.map_values(|p: Vec<char>| p@)),
{
    let mut out: Vec<String> = Vec::new();
    let mut i: usize = 0;
    while i < pieces.len()
        invariant
            i <= pieces@.len(),
            strings_view(out@) == trim_all(
                pieces@.map_values(|p: Vec<char>| p@).subrange(0, i as int),
            ),
        decreases pieces.len() - i,
    {
        let ghost before = out@;
        let ghost views = pieces@.map_values(|p: Vec<char>| p@);
        let s = string_of(&pieces[i]);
        let t = trimmed(s.as_str());
        out.push(t);
        assert(strings_view(out@) =~= strings_view(before).push(trim_of(views[i as int])));
        assert(trim_all(views.subrange(0, i + 1)) =~= trim_all(views.subrange(0, i as int)).push(
            trim_of(views[i as int]),
        ));
        i += 1;
        assert(strings_view(out@) =~= trim_all(
            pieces@.map_values(|p: Vec<char>| p@).subrange(0, i as int),
        ));
    }
    assert(pieces@.map_values(|p: Vec<char>| p@).subrange(0, i as int) =~= pieces@.map_values(
        |p: Vec<char>| p@,
    ));
    out
}

/// Builds the fields from trimmed pieces: an empty `chapter` gives no
/// chapter, and empty participants are dropped.
pub fn assemble_title(
    rooms: Vec<String>,
    subject: String,
    chapter: String,
    participants: Vec<String>,
) -> (r: ParsedTitle)
    ensures
        r@ == assembled(strings_view(rooms@), subject@, chapter@, strings_view(participants@)),
{
    let chapter_len = chars_of(chapter.as_str()).len();
    let chapter = if chapter_len == 0 {
        None
    } else {
        Some(chapter)
    };
    let mut kept: Vec<String> = Vec::new();
    let mut i: usize = 0;
    while i < participants.len()
        invariant
            i <= participants@.len(),
            strings_view(kept@) == non_empty(strings_view(participants@.subrange(0, i as int))),
        decreases participants.len() - i,
    {
        let ghost prefix = strings_view(participants@.subrange(0, i as int));
        let ghost next = strings_view(participants@.subrange(0, i + 1));
        assert(next.drop_last() =~= prefix);
        let n = chars_of(participants[i].as_str()).len();
        assert(next.last() == participants@[i as int]@);
        if n > 0 {
            let ghost before = kept@;
            kept.push(participants[i].clone());
            assert(strings_view(kept@) =~= strings_view(before).push(participants@[i as int]@));
        }
        i += 1;
    }
    assert(participants@.subrange(0, i as int) =~= participants@);
    ParsedTitle { rooms, subject, chapter, participants: kept }
}

/// Reads the rooms, subject, chapter and participants out of a title.
pub fn parse_title(title: &str) -> (r: Result<ParsedTitle, TitleError>)
    ensures
        match r {
            Ok(p) => parse_title_spec(title@) == Ok::<ParsedTitleView, TitleError>(p@),
            Err(e) => parse_title_spec(title@) == Err::<ParsedTitleView, TitleError>(e),
        },
{
    let slots = match title_segments(title) {
        Ok(slots) => slots,
        Err(e) => return Err(e),
    };
    let ghost views = slots@.map_values(|p: Vec<char>| p@);
    let n = slots.len();
    let name_sep = chars_of(NAME_SEP);
    let segment_sep = chars_of(SEGMENT_SEP);
    proof {
        reveal_strlit(" / ");
    }
    let rooms = trim_pieces(&split_on(&slots[0], &name_sep));
    let subject = string_of(&slots[2]);
    let mut middle: Vec<Vec<char>> = Vec::new();
    let mut k: usize = 3;
    while k < n - 1
        invariant
            3 <= n,
            n == slots@.len(),
            views == slots@.map_values(|p: Vec<char>| p@),
            3 <= k <= n,
            k == 3 || k <= n - 1,
            middle@.map_values(|p: Vec<char>| p@) == views.subrange(3, k as int),
        decreases n - k,
    {
        let ghost before = middle@.map_values(|p: Vec<char>| p@);
        let piece = slice_chars(&slots[k], 0, slots[k].len());
        assert(piece@ =~= views[k as int]);
        middle.push(piece);
        assert(middle@.map_values(|p: Vec<char>| p@) =~= before.push(views[k as int]));
        k += 1;
        assert(middle@.map_values(|p: Vec<char>| p@) =~= views.subrange(3, k as int));
    }
    assert(middle@.map_values(|p: Vec<char>| p@) =~= chapter_slots(views));
    let joined = string_of(&join_with(&middle, &segment_sep));
    let chapter = trimmed(joined.as_str());
    let participants = trim_pieces(&split_on(&slots[n - 1], &name_sep));
    assert(views[0] == slots@[0]@ && views[2] == slots@[2]@ && views.last() == slots@[n - 1]@);
    Ok(assemble_title(rooms, subject, chapter, participants))
}

/// The character after the start time decides the format: `-` is the
/// unsupported variant, anything but `à` (or no such character) is not
/// recognised.
pub proof fn lemma_title_variant(t: Seq<char>)
    ensures
        t.len() > 6 && t[6] == '-' ==> parse_title_spec(t) == Err::<ParsedTitleView, TitleError>(
            TitleError::Unsupported,
        ),
        t.len() > 6 && t[6] != '-' && t[6] != 'à' ==> parse_title_spec(t) == Err::<
            ParsedTitleView,
            TitleError,
        >(TitleError::Unrecognized),
        t.len() <= 6 ==> parse_title_spec(t) == Err::<ParsedTitleView, TitleError>(
            TitleError::Unrecognized,
        ),
{
}

} // verus!
