//! The protocol engine's state and decisions: authentication, the two
//! session tokens, menu expansion from a sidebar response, class groups and
//! schedules. The transport performs each request; these functions decide
//! what a response means and how the state moves.

use vstd::prelude::*;
use crate::class_group::ClassGroup;
use crate::event::{Event, EventError, EventView, RawEvent, raw_event_spec};
use crate::menu::{Menu, MenuView, Node, NodeView, leaf, lookup};
use crate::number::{parse_u32, parse_unsigned_spec};
use crate::text::{after_first, after_first_of, before_first, before_first_of, before_found, before_found_of, chars_of, contains_of, contains_seq, remove_all, remove_all_spec, string_of};
use crate::title::{option_view, strings_view, trim_of, trimmed};
use crate::tokens::{form_id_spec, get_form_id, get_schedule_form_id, get_view_state, schedule_form_id_spec, view_state_spec};

verus! {

/// Opens the sidebar's content in a partial-update response.
pub const SIDEBAR_OPEN: &'static str = "<update id=\"form:sidebar\"><![CDATA[";

/// Closes a partial update.
pub const UPDATE_CLOSE: &'static str = "]]></update>";

/// Opens the events in a schedule response.
pub const EVENTS_OPEN: &'static str = "<![CDATA[{\"events\" : ";

/// Closes the events in a schedule response.
pub const EVENTS_CLOSE: &'static str = "}]]></update>";

/// Marks a menu item that holds a sub-menu.
pub const PARENT_CLASS: &'static str = "ui-menu-parent";

/// Precedes a category's id in its class list.
pub const CLASS_ID_MARKER: &'static str = " submenu_";

/// Ends a class in a class list.
pub const SPACE: &'static str = " ";

/// Precedes a leaf's id in its click handler.
pub const ONCLICK_ID_MARKER: &'static str = "form:sidebar_menuid':'";

/// Ends a leaf's id in its click handler.
pub const APOSTROPHE: &'static str = "'";

pub const CATEGORY_ID_PREFIX: &'static str = "submenu_";

pub const PLANNINGS: &'static str = "Plannings";

pub const PLANNING: &'static str = "Planning";

/// What went wrong in a protocol step.
#[derive(Debug, Clone, Copy, PartialEq, Eq, Structural)]
pub enum Failure {
    /// The login was not answered with a redirect: wrong credentials.
    Authentication,
    /// A request that must be answered with a redirect was not.
    MissingRedirect,
    /// A response lacks the delimiters that frame its content.
    MissingDelimiter,
    /// The form id needed for a request is not known.
    MissingFormId,
    /// The view state needed for a request is not known.
    MissingViewState,
    /// A scraped element lacks an attribute or a text it must have.
    MissingAttribute,
    /// The class group page lists no class group.
    NoClassGroups,
    /// No node has the given id.
    UnknownNode,
    /// The node is not a leaf.
    NotLeaf,
    /// The record at this index of a schedule could not become an event.
    Event(usize, EventError),
}

/// Where a session stands.
#[derive(Debug, Clone, Copy, PartialEq, Eq, Structural)]
pub enum Phase {
    Unauthenticated,
    Authenticated,
    Ready,
}

/// What a menu item of the sidebar shows: its class list, the click handler
/// of its link, and the text of its label.
pub struct MenuItem {
    pub class: Option<String>,
    pub onclick: Option<String>,
    pub label: Option<String>,
}

/// A row of the class group table: its `data-rk` attribute and its name.
pub struct ClassGroupRow {
    pub data_rk: Option<String>,
    pub name: Option<String>,
}

/// The tokens that address a schedule request.
pub struct ScheduleTokens {
    pub form_id: u8,
    pub view_state: String,
}

/// The tokens that address a sub-menu request.
pub struct ExpandTokens {
    pub form_id: u8,
    pub view_state: String,
}

pub struct SessionView {
    pub phase: Phase,
    pub menu: MenuView,
    pub view_state: Option<Seq<char>>,
    pub form_id: Option<u8>,
}

/// The state of one session: its phase, its menu tree and its tokens.
pub struct Session {
    phase: Phase,
    menu: Menu,
    view_state: Option<String>,
    form_id: Option<u8>,
}

impl View for Session {
    type V = SessionView;

    closed spec fn view(&self) -> SessionView {
        SessionView {
            phase: self.phase,
            menu: self.menu@,
            view_state: option_view(self.view_state),
            form_id: self.form_id,
        }
    }
}

/// The content of a sidebar update.
pub open spec fn sidebar_spec(text: Seq<char>) -> Option<Seq<char>> {
    match after_first(text, SIDEBAR_OPEN@) {
        None => None,
        Some(rest) => Some(before_first(rest, UPDATE_CLOSE@)),
    }
}

/// The events of a schedule response.
pub open spec fn events_json_spec(text: Seq<char>) -> Option<Seq<char>> {
    match after_first(text, EVENTS_OPEN@) {
        None => None,
        Some(rest) => before_found(rest, EVENTS_CLOSE@),
    }
}

/// A menu item's id: a category's follows `CLASS_ID_MARKER` in its class list,
/// up to the next space; a leaf's follows `ONCLICK_ID_MARKER` in its click
/// handler, up to the next apostrophe.
pub open spec fn item_id_spec(class: Seq<char>, onclick: Option<Seq<char>>) -> Option<Seq<char>> {
    if contains_seq(class, PARENT_CLASS@) {
        match after_first(class, CLASS_ID_MARKER@) {
            None => None,
            Some(rest) => match before_found(rest, SPACE@) {
                None => None,
                Some(x) => Some(CATEGORY_ID_PREFIX@ + x),
            },
        }
    } else {
        match onclick {
            None => None,
            Some(o) => match after_first(o, ONCLICK_ID_MARKER@) {
                None => None,
                Some(rest) => before_found(rest, APOSTROPHE@),
            },
        }
    }
}

/// A menu item's name: its label without "Plannings" nor "Planning", trimmed.
pub open spec fn item_name_spec(label: Seq<char>) -> Seq<char> {
    trim_of(remove_all_spec(remove_all_spec(label, PLANNINGS@), PLANNING@))
}

/// The node that a menu item gives under `parent`.
pub open spec fn item_node_spec(
    class: Option<Seq<char>>,
    onclick: Option<Seq<char>>,
    label: Option<Seq<char>>,
    parent: Seq<char>,
) -> Result<NodeView, Failure> {
    match (class, label) {
        (Some(c), Some(l)) => match item_id_spec(c, onclick) {
            None => Err(Failure::MissingAttribute),
            Some(id) => Ok(
                NodeView { id, name: item_name_spec(l), children: Seq::empty(), parent: Some(parent) },
            ),
        },
        _ => Err(Failure::MissingAttribute),
    }
}

pub open spec fn item_spec(item: MenuItem, parent: Seq<char>) -> Result<NodeView, Failure> {
    item_node_spec(option_view(item.class), option_view(item.onclick), option_view(item.label), parent)
}

/// The children of a node after the ids are attached in order: an id is
/// appended unless it is the node itself or already a child.
pub open spec fn attach_ids(c: Seq<Seq<char>>, pid: Seq<char>, ids: Seq<Seq<char>>) -> Seq<Seq<char>>
    decreases ids.len(),
{
    if ids.len() == 0 {
        c
    } else {
        let before = attach_ids(c, pid, ids.drop_last());
        let x = ids.last();
        if x != pid && !before.contains(x) {
            before.push(x)
        } else {
            before
        }
    }
}

/// Every item can be read as a node under `parent`.
pub open spec fn all_items_read(items: Seq<MenuItem>, parent: Seq<char>) -> bool {
    forall|i: int| 0 <= i < items.len() ==> (#[trigger] item_spec(items[i], parent)) is Ok
}

/// The ids of the nodes that the items give under `parent`.
pub open spec fn item_ids(items: Seq<MenuItem>, parent: Seq<char>) -> Seq<Seq<char>> {
    Seq::new(
        items.len(),
        |i: int|
            match item_spec(items[i], parent) {
                Ok(n) => n.id,
                Err(_) => Seq::empty(),
            },
    )
}

/// What an expansion of `pid` with nodes of ids `ids` leaves, from the
/// children `c` that the node had: the node's children are `attach_ids`, each
/// new child names a node, every other node is as it was, and the menu is
/// unchanged when no id was new.
pub open spec fn expanded(
    c: Seq<Seq<char>>,
    pid: Seq<char>,
    ids: Seq<Seq<char>>,
    before: SessionView,
    after: SessionView,
    returned: Seq<Seq<char>>,
) -> bool {
    &&& returned == attach_ids(c, pid, ids)
    &&& lookup(after.menu.nodes, pid) matches Some(n) && n.children == returned
    &&& forall|x: Seq<char>| #[trigger] returned.contains(x) && !c.contains(x) ==> lookup(after.menu.nodes, x) is Some
    &&& forall|key: Seq<char>|
        key != pid && !ids.contains(key) ==> #[trigger] lookup(after.menu.nodes, key) == lookup(
            before.menu.nodes,
            key,
        )
    &&& returned == c ==> after == before
}

/// The class group that a row gives.
pub open spec fn class_group_spec(data_rk: Option<Seq<char>>, name: Option<Seq<char>>) -> Result<(u32, Seq<char>), Failure> {
    match (data_rk, name) {
        (Some(rk), Some(n)) => match parse_unsigned_spec(rk, u32::MAX as int) {
            None => Err(Failure::MissingAttribute),
            Some(id) => Ok((id as u32, n)),
        },
        _ => Err(Failure::MissingAttribute),
    }
}

/// Whether a login response means the credentials were accepted: it must
/// carry a redirect.
pub fn check_login(has_location: bool) -> (r: Result<(), Failure>)
    ensures
        r == if has_location { Ok::<(), Failure>(()) } else { Err(Failure::Authentication) },
{
    if has_location {
        Ok(())
    } else {
        Err(Failure::Authentication)
    }
}

/// Whether a menu selection was accepted: it must be answered with a redirect.
pub fn check_redirect(has_location: bool) -> (r: Result<(), Failure>)
    ensures
        r == if has_location { Ok::<(), Failure>(()) } else { Err(Failure::MissingRedirect) },
{
    if has_location {
        Ok(())
    } else {
        Err(Failure::MissingRedirect)
    }
}

/// The content of the sidebar in a partial-update response.
pub fn sidebar_fragment(text: &str) -> (r: Result<String, Failure>)
    ensures
        match r {
            Ok(s) => sidebar_spec(text@) == Some(s@),
            Err(e) => sidebar_spec(text@) is None && e == Failure::MissingDelimiter,
        },
{
    let t = chars_of(text);
    let open = chars_of(SIDEBAR_OPEN);
    let close = chars_of(UPDATE_CLOSE);
    match after_first_of(&t, &open) {
        None => Err(Failure::MissingDelimiter),
        Some(rest) => Ok(string_of(&before_first_of(&rest, &close))),
    }
}

/// The JSON array of events in a schedule response.
pub fn schedule_json(text: &str) -> (r: Result<String, Failure>)
    ensures
        match r {
            Ok(s) => events_json_spec(text@) == Some(s@),
            Err(e) => events_json_spec(text@) is None && e == Failure::MissingDelimiter,
        },
{
    let t = chars_of(text);
    let open = chars_of(EVENTS_OPEN);
    let close = chars_of(EVENTS_CLOSE);
    match after_first_of(&t, &open) {
        None => Err(Failure::MissingDelimiter),
        Some(rest) => match before_found_of(&rest, &close) {
            None => Err(Failure::MissingDelimiter),
            Some(json) => Ok(string_of(&json)),
        },
    }
}

/// The tokens of a planning page that address its schedule request.
pub fn schedule_tokens(page: &str) -> (r: Result<ScheduleTokens, Failure>)
    ensures
        match r {
            Ok(t) => schedule_form_id_spec(page@) == Some(t.form_id as int) && view_state_spec(
                page@,
            ) == Some(t.view_state@),
            Err(e) => (e == Failure::MissingFormId && schedule_form_id_spec(page@) is None) || (e
                == Failure::MissingViewState && schedule_form_id_spec(page@) is Some
                && view_state_spec(page@) is None),
        },
{
    let form_id = match get_schedule_form_id(page) {
        Some(id) => id,
        None => return Err(Failure::MissingFormId),
    };
    match get_view_state(page) {
        Some(view_state) => Ok(ScheduleTokens { form_id, view_state }),
        None => Err(Failure::MissingViewState),
    }
}

fn id_of_item(class: &Vec<char>, onclick: &Option<String>) -> (r: Option<String>)
    ensures
        match r {
            Some(id) => item_id_spec(class@, option_view(*onclick)) == Some(id@),
            None => item_id_spec(class@, option_view(*onclick)) is None,
        },
{
    if contains_of(class, &chars_of(PARENT_CLASS)) {
        match after_first_of(class, &chars_of(CLASS_ID_MARKER)) {
            None => None,
            Some(rest) => match before_found_of(&rest, &chars_of(SPACE)) {
                None => None,
                Some(x) => {
                    let mut id = String::from_str(CATEGORY_ID_PREFIX);
                    id.append(string_of(&x).as_str());
                    Some(id)
                },
            },
        }
    } else {
        match onclick {
            None => None,
            Some(o) => match after_first_of(&chars_of(o.as_str()), &chars_of(ONCLICK_ID_MARKER)) {
                None => None,
                Some(rest) => match before_found_of(&rest, &chars_of(APOSTROPHE)) {
                    None => None,
                    Some(x) => Some(string_of(&x)),
                },
            },
        }
    }
}

/// The node that a menu item of the sidebar gives, as a child of `parent_id`.
pub fn menu_item_node(item: &MenuItem, parent_id: &str) -> (r: Result<Node, Failure>)
    ensures
        match r {
            Ok(n) => item_spec(*item, parent_id@) == Ok::<NodeView, Failure>(n@),
            Err(e) => item_spec(*item, parent_id@) == Err::<NodeView, Failure>(e),
        },
{
    let (class, label) = match (&item.class, &item.label) {
        (Some(c), Some(l)) => (c, l),
        _ => return Err(Failure::MissingAttribute),
    };
    let id = match id_of_item(&chars_of(class.as_str()), &item.onclick) {
        Some(id) => id,
        None => return Err(Failure::MissingAttribute),
    };
    let plannings = chars_of(PLANNINGS);
    let planning = chars_of(PLANNING);
    proof {
        reveal_strlit("Plannings");
        reveal_strlit("Planning");
    }
    let once = remove_all(&chars_of(label.as_str()), &plannings);
    let twice = remove_all(&once, &planning);
    let name = trimmed(string_of(&twice).as_str());
    let node = Node::new(id, name, Some(String::from_str(parent_id)));
    proof {
        assert(node@.children =~= Seq::<Seq<char>>::empty());
    }
    Ok(node)
}

/// The class groups listed by the rows of the class group table.
pub fn class_groups_from_rows(rows: &Vec<ClassGroupRow>) -> (r: Result<Vec<ClassGroup>, Failure>)
    ensures
        rows@.len() == 0 ==> r == Err::<Vec<ClassGroup>, Failure>(Failure::NoClassGroups),
        rows@.len() > 0 ==> match r {
            Ok(groups) => groups@.len() == rows@.len() && forall|i: int|
                0 <= i < rows@.len() ==> class_group_spec(
                    option_view(#[trigger] rows@[i].data_rk),
                    option_view(rows@[i].name),
                ) == Ok::<(u32, Seq<char>), Failure>((groups@[i].id, groups@[i].name@)),
            Err(e) => e == Failure::MissingAttribute && exists|i: int|
                0 <= i < rows@.len() && #[trigger] class_group_spec(
                    option_view(rows@[i].data_rk),
                    option_view(rows@[i].name),
                ) is Err,
        },
{
    if rows.len() == 0 {
        return Err(Failure::NoClassGroups);
    }
    let mut groups: Vec<ClassGroup> = Vec::new();
    let mut i: usize = 0;
    while i < rows.len()
        invariant
            i <= rows@.len(),
            groups@.len() == i,
            forall|j: int|
                0 <= j < i ==> class_group_spec(
                    option_view(#[trigger] rows@[j].data_rk),
                    option_view(rows@[j].name),
                ) == Ok::<(u32, Seq<char>), Failure>((groups@[j].id, groups@[j].name@)),
        decreases rows.len() - i,
    {
        let row = &rows[i];
        let (rk, name) = match (&row.data_rk, &row.name) {
            (Some(rk), Some(name)) => (rk, name),
            _ => {
                assert(class_group_spec(option_view(rows@[i as int].data_rk), option_view(rows@[i as int].name)) is Err);
                return Err(Failure::MissingAttribute);
            },
        };
        let id = match parse_u32(&chars_of(rk.as_str())) {
            Some(id) => id,
            None => {
                assert(class_group_spec(option_view(rows@[i as int].data_rk), option_view(rows@[i as int].name)) is Err);
                return Err(Failure::MissingAttribute);
            },
        };
        groups.push(ClassGroup::new(id, name.clone()));
        i += 1;
    }
    Ok(groups)
}

/// The events of a schedule, all or none: the first record that cannot
/// become an event fails the whole batch, with its index.
pub fn events_from_raw(raws: Vec<RawEvent>) -> (r: Result<Vec<Event>, Failure>)
    ensures
        match r {
            Ok(events) => events@.len() == raws@.len() && forall|i: int|
                0 <= i < raws@.len() ==> raw_event_spec(#[trigger] raws@[i])
                    == Ok::<EventView, EventError>(events@[i]@),
            Err(f) => match f {
                Failure::Event(i, e) => i < raws@.len() && raw_event_spec(raws@[i as int])
                    == Err::<EventView, EventError>(e) && forall|j: int|
                    0 <= j < i ==> (#[trigger] raw_event_spec(raws@[j])) is Ok,
                _ => false,
            },
        },
{
    let ghost records = raws@;
    let mut events: Vec<Event> = Vec::new();
    let mut rest = raws;
    let mut i: usize = 0;
    let n = rest.len();
    while rest.len() > 0
        invariant
            n == records.len(),
            records == raws@,
            i + rest@.len() == n,
            events@.len() == i,
            rest@ == records.subrange(i as int, n as int),
            forall|j: int|
                0 <= j < i ==> raw_event_spec(#[trigger] records[j]) == Ok::<EventView, EventError>(
                    events@[j]@,
                ),
        decreases rest@.len(),
    {
        let raw = rest.remove(0);
        assert(raw == records[i as int]);
        match Event::from_raw_event(raw) {
            Ok(ev) => events.push(ev),
            Err(e) => {
                let f = Failure::Event(i, e);
                return Err(f);
            },
        }
        i += 1;
    }
    Ok(events)
}

/// Every id is either the node itself or among the children once attached.
pub proof fn lemma_attach_covers(c: Seq<Seq<char>>, pid: Seq<char>, ids: Seq<Seq<char>>)
    ensures
        forall|k: int| 0 <= k < ids.len() ==> ids[k] == pid || #[trigger] attach_ids(c, pid, ids).contains(ids[k]),
        forall|x: Seq<char>| c.contains(x) ==> #[trigger] attach_ids(c, pid, ids).contains(x),
    decreases ids.len(),
{
    if ids.len() > 0 {
        let before = attach_ids(c, pid, ids.drop_last());
        lemma_attach_covers(c, pid, ids.drop_last());
        let after = attach_ids(c, pid, ids);
        assert forall|x: Seq<char>| before.contains(x) implies after.contains(x) by {
            let j = choose|j: int| 0 <= j < before.len() && before[j] == x;
            assert(after[j] == x);
        }
        assert forall|k: int| 0 <= k < ids.len() implies ids[k] == pid || #[trigger] after.contains(ids[k]) by {
            if k < ids.len() - 1 {
                assert(ids.drop_last()[k] == ids[k]);
            } else if ids[k] != pid && !before.contains(ids[k]) {
                assert(after[after.len() - 1] == ids[k]);
            }
        }
    }
}

/// Attaching ids that are all already children (or the node itself) changes nothing.
pub proof fn lemma_attach_known(c: Seq<Seq<char>>, pid: Seq<char>, ids: Seq<Seq<char>>)
    requires
        forall|k: int| 0 <= k < ids.len() ==> ids[k] == pid || c.contains(#[trigger] ids[k]),
    ensures
        attach_ids(c, pid, ids) == c,
    decreases ids.len(),
{
    if ids.len() > 0 {
        assert forall|k: int| 0 <= k < ids.drop_last().len() implies ids.drop_last()[k] == pid || c.contains(#[trigger] ids.drop_last()[k]) by {
            assert(ids.drop_last()[k] == ids[k]);
        }
        lemma_attach_known(c, pid, ids.drop_last());
        assert(ids.last() == ids[ids.len() - 1]);
    }
}

/// Expanding a node a second time with the same items leaves its children as
/// the first expansion left them.
pub proof fn lemma_expand_idempotent(c: Seq<Seq<char>>, pid: Seq<char>, ids: Seq<Seq<char>>)
    ensures
        attach_ids(attach_ids(c, pid, ids), pid, ids) == attach_ids(c, pid, ids),
{
    lemma_attach_covers(c, pid, ids);
    lemma_attach_known(attach_ids(c, pid, ids), pid, ids);
}

/// A second expansion of a node with the items of the first returns the same
/// children and leaves the session as the first left it: no node is added
/// twice.
pub proof fn lemma_second_expansion_changes_nothing(
    pid: Seq<char>,
    ids: Seq<Seq<char>>,
    s0: SessionView,
    s1: SessionView,
    s2: SessionView,
    first: Seq<Seq<char>>,
    second: Seq<Seq<char>>,
)
    requires
        lookup(s0.menu.nodes, pid) is Some,
        expanded(lookup(s0.menu.nodes, pid)->0.children, pid, ids, s0, s1, first),
        expanded(lookup(s1.menu.nodes, pid)->0.children, pid, ids, s1, s2, second),
    ensures
        second == first,
        s2 == s1,
{
    lemma_expand_idempotent(lookup(s0.menu.nodes, pid)->0.children, pid, ids);
}

/// Attaching never shortens the children.
proof fn lemma_attach_grows(c: Seq<Seq<char>>, pid: Seq<char>, ids: Seq<Seq<char>>)
    ensures
        attach_ids(c, pid, ids).len() >= c.len(),
    decreases ids.len(),
{
    if ids.len() > 0 {
        lemma_attach_grows(c, pid, ids.drop_last());
    }
}

impl Session {
    pub closed spec fn wf(&self) -> bool {
        self.menu.wf()
    }

    /// The node registered under `id` in the session's menu.
    pub open spec fn node(&self, id: Seq<char>) -> Option<NodeView> {
        lookup(self@.menu.nodes, id)
    }

    /// A session that has not logged in yet, over `menu`.
    pub fn new(menu: Menu) -> (r: Session)
        requires
            menu.wf(),
        ensures
            r.wf(),
            r@.phase == Phase::Unauthenticated,
            r@.menu == menu@,
            r@.view_state is None,
            r@.form_id is None,
    {
        Session { phase: Phase::Unauthenticated, menu, view_state: None, form_id: None }
    }

    pub fn menu(&self) -> (r: &Menu)
        requires
            self.wf(),
        ensures
            r@ == self@.menu,
            r.wf(),
    {
        &self.menu
    }

    pub fn phase(&self) -> (r: Phase)
        ensures
            r == self@.phase,
    {
        self.phase
    }

    pub fn form_id(&self) -> (r: Option<u8>)
        ensures
            r == self@.form_id,
    {
        self.form_id
    }

    /// Takes the answer to the credentials: with a redirect the session is
    /// authenticated; without one the login failed and nothing changes.
    pub fn login_response(&mut self, has_location: bool) -> (r: Result<(), Failure>)
        requires
            old(self).wf(),
        ensures
            final(self).wf(),
            has_location ==> r is Ok && final(self)@ == (SessionView {
                phase: Phase::Authenticated,
                ..old(self)@
            }),
            !has_location ==> r == Err::<(), Failure>(Failure::Authentication) && final(self)@
                == old(self)@,
    {
        match check_login(has_location) {
            Ok(()) => {
                self.phase = Phase::Authenticated;
                Ok(())
            },
            Err(e) => Err(e),
        }
    }

    /// Takes the page that the service root returned after the login, and
    /// keeps the two tokens found in it: the session is then ready, with a
    /// token missing where the page has none. A session that is not
    /// authenticated cannot take it.
    pub fn prime_tokens(&mut self, page: &str) -> (r: Result<(), Failure>)
        requires
            old(self).wf(),
        ensures
            final(self).wf(),
            r is Ok <==> old(self)@.phase != Phase::Unauthenticated,
            r is Err ==> r == Err::<(), Failure>(Failure::Authentication) && final(self)@ == old(
                self,
            )@,
            r is Ok ==> final(self)@.phase == Phase::Ready && final(self)@.menu == old(self)@.menu
                && final(self)@.view_state == view_state_spec(page@) && match final(self)@.form_id {
                Some(id) => form_id_spec(page@) == Some(id as int),
                None => form_id_spec(page@) is None,
            },
    {
        if self.phase == Phase::Unauthenticated {
            return Err(Failure::Authentication);
        }
        self.view_state = get_view_state(page);
        self.form_id = get_form_id(page);
        self.phase = Phase::Ready;
        Ok(())
    }

    /// The view state that a request must carry.
    pub fn view_state(&self) -> (r: Result<String, Failure>)
        ensures
            match r {
                Ok(v) => self@.view_state == Some(v@),
                Err(e) => self@.view_state is None && e == Failure::MissingViewState,
            },
    {
        match &self.view_state {
            Some(v) => Ok(v.clone()),
            None => Err(Failure::MissingViewState),
        }
    }

    /// The tokens of a request that expands `node_id`: the node must exist,
    /// and both tokens be known.
    pub fn expand_tokens(&self, node_id: &str) -> (r: Result<ExpandTokens, Failure>)
        requires
            self.wf(),
        ensures
            match r {
                Ok(t) => self.node(node_id@) is Some && self@.form_id == Some(t.form_id)
                    && self@.view_state == Some(t.view_state@),
                Err(e) => if self.node(node_id@) is None {
                    e == Failure::UnknownNode
                } else if self@.form_id is None {
                    e == Failure::MissingFormId
                } else {
                    e == Failure::MissingViewState && self@.view_state is None
                },
            },
    {
        if self.menu.get_menu_node(node_id).is_none() {
            return Err(Failure::UnknownNode);
        }
        let form_id = match self.form_id {
            Some(id) => id,
            None => return Err(Failure::MissingFormId),
        };
        let view_state = self.view_state()?;
        Ok(ExpandTokens { form_id, view_state })
    }

    /// Checks that `node_id` can have its class groups listed: it must be a
    /// known leaf, and the view state known. Gives the view state.
    pub fn class_group_tokens(&self, node_id: &str) -> (r: Result<String, Failure>)
        requires
            self.wf(),
        ensures
            match r {
                Ok(v) => self.node(node_id@) matches Some(n) && leaf(n) && self@.view_state == Some(
                    v@,
                ),
                Err(e) => match self.node(node_id@) {
                    None => e == Failure::UnknownNode,
                    Some(n) => if !leaf(n) {
                        e == Failure::NotLeaf
                    } else {
                        e == Failure::MissingViewState && self@.view_state is None
                    },
                },
            },
    {
        match self.menu.get_menu_node(node_id) {
            None => Err(Failure::UnknownNode),
            Some(n) => {
                if !n.is_leaf() {
                    return Err(Failure::NotLeaf);
                }
                self.view_state()
            },
        }
    }

    /// Expands `node_id` with the items that its sidebar response lists:
    /// each item becomes a node under it, those already among its children
    /// are left as they are, and the node's children are returned. An item
    /// that cannot be read fails the whole expansion, which then changes
    /// nothing.
    pub fn expand_node(&mut self, node_id: &str, items: &Vec<MenuItem>) -> (r: Result<Vec<String>, Failure>)
        requires
            old(self).wf(),
        ensures
            final(self).wf(),
            final(self)@.phase == old(self)@.phase,
            final(self)@.view_state == old(self)@.view_state,
            final(self)@.form_id == old(self)@.form_id,
            old(self).node(node_id@) is None ==> r == Err::<Vec<String>, Failure>(Failure::UnknownNode),
            r is Err ==> final(self)@ == old(self)@,
            r matches Err(e) ==> (old(self).node(node_id@) is Some ==> exists|i: int|
                0 <= i < items@.len() && #[trigger] item_spec(items@[i], node_id@) == Err::<NodeView, Failure>(e)),
            old(self).node(node_id@) is Some && all_items_read(items@, node_id@) ==> r is Ok,
            r is Ok ==> all_items_read(items@, node_id@),
            r matches Ok(children) ==> expanded(
                old(self).node(node_id@)->0.children,
                node_id@,
                item_ids(items@, node_id@),
                old(self)@,
                final(self)@,
                strings_view(children@),
            ),
    {
        if self.menu.get_menu_node(node_id).is_none() {
            return Err(Failure::UnknownNode);
        }
        let ghost pid = node_id@;
        let ghost c0 = self.node(pid)->0.children;
        let ghost start = self@;
        let mut nodes: Vec<Node> = Vec::new();
        let mut i: usize = 0;
        while i < items.len()
            invariant
                i <= items@.len(),
                nodes@.len() == i,
                self.wf(),
                self@ == start,
                start == old(self)@,
                lookup(start.menu.nodes, pid) is Some,
                pid == node_id@,
                forall|j: int| 0 <= j < i ==> item_spec(#[trigger] items@[j], pid) == Ok::<NodeView, Failure>(nodes@[j]@),
            decreases items.len() - i,
        {
            match menu_item_node(&items[i], node_id) {
                Ok(n) => nodes.push(n),
                Err(e) => return Err(e),
            }
            i += 1;
        }
        let ghost ids = nodes@.map_values(|n: Node| n.id@);
        assert(ids =~= item_ids(items@, pid));
        let mut rest = nodes;
        let mut k: usize = 0;
        let total = rest.len();
        assert(ids.subrange(0, 0) =~= Seq::<Seq<char>>::empty());
        while rest.len() > 0
            invariant
                self.wf(),
                k + rest@.len() == total,
                total == ids.len(),
                forall|j: int| 0 <= j < rest@.len() ==> rest@[j].id@ == ids[k + j],
                pid == node_id@,
                lookup(self@.menu.nodes, pid) matches Some(n) && n.children == attach_ids(c0, pid, ids.subrange(0, k as int)),
                forall|x: Seq<char>| #[trigger] attach_ids(c0, pid, ids.subrange(0, k as int)).contains(x) && !c0.contains(x) ==> lookup(self@.menu.nodes, x) is Some,
                forall|key: Seq<char>| key != pid && !ids.subrange(0, k as int).contains(key) ==> #[trigger] lookup(self@.menu.nodes, key) == lookup(start.menu.nodes, key),
                self@ == start || attach_ids(c0, pid, ids.subrange(0, k as int)).len() > c0.len(),
                self@.phase == start.phase,
                self@.view_state == start.view_state,
                self@.form_id == start.form_id,
            decreases rest@.len(),
        {
            let ghost before = self@;
            let ghost done = ids.subrange(0, k as int);
            let ghost kids = attach_ids(c0, pid, done);
            let ghost next = ids.subrange(0, k + 1);
            let child = rest.remove(0);
            let ghost cid = child.id@;
            assert(cid == ids[k as int]);
            let attached = self.menu.add_child(node_id, child);
            proof {
                assert(next.drop_last() =~= done);
                assert(next.last() == cid);
                crate::menu::lemma_lookup_id(before.menu.nodes, pid);
                lemma_attach_grows(c0, pid, done);
                assert forall|key: Seq<char>| key != pid && !next.contains(key) implies #[trigger] lookup(self@.menu.nodes, key) == lookup(start.menu.nodes, key) by {
                    assert(key != cid) by {
                        if key == cid {
                            assert(next[k as int] == cid);
                        }
                    }
                    assert(!done.contains(key)) by {
                        if done.contains(key) {
                            let j = choose|j: int| 0 <= j < done.len() && done[j] == key;
                            assert(next[j] == key);
                        }
                    }
                    assert(lookup(before.menu.nodes, key) == lookup(start.menu.nodes, key));
                    assert(self.menu.node(key) == lookup(before.menu.nodes, key));
                }
                let now = attach_ids(c0, pid, next);
                assert forall|x: Seq<char>| #[trigger] now.contains(x) && !c0.contains(x) implies lookup(self@.menu.nodes, x) is Some by {
                    let j = choose|j: int| 0 <= j < now.len() && now[j] == x;
                    if j < kids.len() {
                        assert(kids[j] == x);
                        assert(kids.contains(x));
                        if x != pid && x != cid {
                            assert(self.menu.node(x) == lookup(before.menu.nodes, x));
                        }
                    }
                }
            }
            k += 1;
        }
        assert(ids.subrange(0, k as int) =~= ids);
        let node = self.menu.get_menu_node(node_id).unwrap();
        let mut children: Vec<String> = Vec::new();
        let mut j: usize = 0;
        while j < node.children.len()
            invariant
                j <= node.children@.len(),
                strings_view(children@) == strings_view(node.children@).subrange(0, j as int),
            decreases node.children.len() - j,
        {
            let ghost prev = children@;
            children.push(node.children[j].clone());
            assert(children@ == prev.push(node.children@[j as int]));
            assert(strings_view(children@) =~= strings_view(prev).push(node.children@[j as int]@));
            j += 1;
            assert(strings_view(children@) =~= strings_view(node.children@).subrange(0, j as int));
        }
        assert(strings_view(node.children@).subrange(0, j as int) =~= strings_view(node.children@));
        Ok(children)
    }
}

} // verus!
