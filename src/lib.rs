//! Navigation and extraction engine for a session-based web portal: a lazily
//! expanded menu tree, the token scrapers, the schedule title parser and the
//! protocol decisions taken on each response.

pub mod class_group;
pub mod event;
pub mod menu;
pub mod number;
pub mod pages;
pub mod session;
pub mod text;
pub mod title;
pub mod tokens;

pub use class_group::ClassGroup;
pub use event::{Event, EventError, EventKind, RawEvent, kind_of_lowercase, map_kind};
pub use menu::{Menu, Node};
pub use number::{parse_u32, parse_u8};
pub use pages::Pages;
pub use session::{
    check_login, check_redirect, class_groups_from_rows, events_from_raw, menu_item_node,
    schedule_json, schedule_tokens, sidebar_fragment, ClassGroupRow, ExpandTokens, Failure,
    MenuItem, Phase, ScheduleTokens, Session,
};
pub use text::{find_first, find_last, join_with, remove_all, split_on};
pub use title::{assemble_title, parse_title, title_segments, ParsedTitle, TitleError};
pub use tokens::{get_form_id, get_schedule_form_id, get_view_state};
