//! The two per-session tokens (the view state and the form ids) scraped out of
//! the portal's HTML pages.

use vstd::prelude::*;
use crate::number::{parse_u8, parse_unsigned_spec};
use crate::text::{after_first, after_first_of, after_last, after_last_of, before_first, before_first_of, chars_of, string_of};

verus! {

/// The script that loads a sub-menu names the form, right after this text.
pub const FORM_MARKER: &'static str = "chargerSousMenu = function() {PrimeFaces.ab({s:\"form:j_idt";

/// The schedule's element carries this class, right after its id.
pub const SCHEDULE_MARKER: &'static str = "\" class=\"schedule\"";

/// The schedule's id starts with this text.
pub const SCHEDULE_ID_PREFIX: &'static str = "id=\"form:j_idt";

/// The hidden input that carries the view state.
pub const VIEW_STATE_MARKER: &'static str = "name=\"javax.faces.ViewState\"";

/// The attribute that holds the view state.
pub const VALUE_ATTR: &'static str = "value=\"";

/// The quote that ends an attribute value.
pub const QUOTE: &'static str = "\"";

/// The form id in a page: the number after the first `FORM_MARKER`, up to the
/// next quote (or the next marker).
pub open spec fn form_id_spec(text: Seq<char>) -> Option<int> {
    match after_first(text, FORM_MARKER@) {
        None => None,
        Some(rest) => parse_unsigned_spec(
            before_first(before_first(rest, FORM_MARKER@), QUOTE@),
            u8::MAX as int,
        ),
    }
}

/// The schedule form id in a page: the number after the last
/// `SCHEDULE_ID_PREFIX` that comes before the first `SCHEDULE_MARKER`.
pub open spec fn schedule_form_id_spec(text: Seq<char>) -> Option<int> {
    match after_first(text, SCHEDULE_MARKER@) {
        None => None,
        Some(_) => match after_last(before_first(text, SCHEDULE_MARKER@), SCHEDULE_ID_PREFIX@) {
            None => None,
            Some(id) => parse_unsigned_spec(id, u8::MAX as int),
        },
    }
}

/// The view state in a page: in the text between the first
/// `VIEW_STATE_MARKER` and the next one, the value of the first `value="`
/// attribute, up to its closing quote (or the next `value="`).
pub open spec fn view_state_spec(text: Seq<char>) -> Option<Seq<char>> {
    match after_first(text, VIEW_STATE_MARKER@) {
        None => None,
        Some(rest) => match after_first(before_first(rest, VIEW_STATE_MARKER@), VALUE_ATTR@) {
            None => None,
            Some(v) => Some(before_first(before_first(v, VALUE_ATTR@), QUOTE@)),
        },
    }
}

/// Reads the form id that the sub-menu requests are addressed to.
pub fn get_form_id(text: &str) -> (r: Option<u8>)
    ensures
        r matches Some(v) ==> form_id_spec(text@) == Some(v as int),
        r is None ==> form_id_spec(text@) is None,
{
    let t = chars_of(text);
    let marker = chars_of(FORM_MARKER);
    let quote = chars_of(QUOTE);
    match after_first_of(&t, &marker) {
        None => None,
        Some(rest) => {
            let segment = before_first_of(&rest, &marker);
            let digits = before_first_of(&segment, &quote);
            parse_u8(&digits)
        },
    }
}

/// Reads the form id that the schedule requests are addressed to.
pub fn get_schedule_form_id(text: &str) -> (r: Option<u8>)
    ensures
        r matches Some(v) ==> schedule_form_id_spec(text@) == Some(v as int),
        r is None ==> schedule_form_id_spec(text@) is None,
{
    let t = chars_of(text);
    let marker = chars_of(SCHEDULE_MARKER);
    let prefix = chars_of(SCHEDULE_ID_PREFIX);
    match after_first_of(&t, &marker) {
        None => None,
        Some(_) => {
            let head = before_first_of(&t, &marker);
            match after_last_of(&head, &prefix) {
                None => None,
                Some(digits) => parse_u8(&digits),
            }
        },
    }
}

/// Reads the view state that every request must carry.
pub fn get_view_state(text: &str) -> (r: Option<String>)
    ensures
        r matches Some(v) ==> view_state_spec(text@) == Some(v@),
        r is None ==> view_state_spec(text@) is None,
{
    let t = chars_of(text);
    let marker = chars_of(VIEW_STATE_MARKER);
    let attr = chars_of(VALUE_ATTR);
    let quote = chars_of(QUOTE);
    match after_first_of(&t, &marker) {
        None => None,
        Some(rest) => {
            let segment = before_first_of(&rest, &marker);
            match after_first_of(&segment, &attr) {
                None => None,
                Some(v) => {
                    let piece = before_first_of(&v, &attr);
                    let value = before_first_of(&piece, &quote);
                    Some(string_of(&value))
                },
            }
        },
    }
}

} // verus!
