use aurion_rs::{
    check_redirect, class_groups_from_rows, events_from_raw, menu_item_node, schedule_json,
    schedule_tokens, sidebar_fragment, ClassGroupRow, Event, EventError, EventKind, Failure, Menu,
    MenuItem, Phase, RawEvent, Session, TitleError,
};

const ROOT: &str = "submenu_291906";

fn session() -> Session {
    Session::new(Menu::new(
        275805,
        ROOT.to_string(),
        "1_3".to_string(),
        "submenu_299102".to_string(),
    ))
}

const PAGE: &str = "<input name=\"javax.faces.ViewState\" value=\"vs:1\" /><script>chargerSousMenu = function() {PrimeFaces.ab({s:\"form:j_idt52\"";

fn ready() -> Session {
    let mut s = session();
    s.login_response(true).unwrap();
    s.prime_tokens(PAGE).unwrap();
    s
}

fn category(id: &str, label: &str) -> MenuItem {
    MenuItem {
        class: Some(format!("ui-widget ui-menu-parent {} ui-corner-all", id)),
        onclick: None,
        label: Some(label.to_string()),
    }
}

fn leaf(id: &str, label: &str) -> MenuItem {
    MenuItem {
        class: Some("ui-menuitem ui-widget".to_string()),
        onclick: Some(format!("PrimeFaces.addSubmitParam('form',{{'form:sidebar':'form:sidebar','form:sidebar_menuid':'{}'}}).submit('form');", id)),
        label: Some(label.to_string()),
    }
}

fn raw(id: &str, title: &str, class: &str) -> RawEvent {
    RawEvent {
        id: id.to_string(),
        title: title.to_string(),
        start: 1_700_000_000_000,
        end: 1_700_003_600_000,
        class_name: class.to_string(),
    }
}

#[test]
fn login_without_redirect_fails() {
    let mut s = session();
    assert_eq!(s.login_response(false), Err(Failure::Authentication));
    assert_eq!(s.phase(), Phase::Unauthenticated);
    assert_eq!(s.prime_tokens(PAGE), Err(Failure::Authentication));
    assert_eq!(s.phase(), Phase::Unauthenticated);
    assert_eq!(s.form_id(), None);
}

#[test]
fn login_with_redirect_primes_tokens() {
    let mut s = session();
    assert_eq!(s.login_response(true), Ok(()));
    assert_eq!(s.phase(), Phase::Authenticated);
    assert_eq!(s.prime_tokens(PAGE), Ok(()));
    assert_eq!(s.phase(), Phase::Ready);
    assert_eq!(s.form_id(), Some(52));
    assert_eq!(s.view_state(), Ok("vs:1".to_string()));
}

#[test]
fn missing_tokens_fail_explicitly() {
    let mut s = session();
    s.login_response(true).unwrap();
    s.prime_tokens("<html></html>").unwrap();
    assert_eq!(s.expand_tokens(ROOT).err(), Some(Failure::MissingFormId));
    assert_eq!(s.view_state().err(), Some(Failure::MissingViewState));
}

#[test]
fn unknown_node_is_a_precondition_failure() {
    let mut s = ready();
    assert!(!s.menu().is_node_loaded("submenu_1"));
    assert_eq!(s.expand_tokens("submenu_1").err(), Some(Failure::UnknownNode));
    assert_eq!(s.class_group_tokens("submenu_1").err(), Some(Failure::UnknownNode));
    assert_eq!(s.expand_node("submenu_1", &vec![]).err(), Some(Failure::UnknownNode));
}

#[test]
fn expand_tokens_of_known_node() {
    let s = ready();
    let t = s.expand_tokens(ROOT).unwrap();
    assert_eq!(t.form_id, 52);
    assert_eq!(t.view_state, "vs:1");
}

#[test]
fn expand_node_attaches_children() {
    let mut s = ready();
    let items = vec![category("submenu_44", "Groups Plannings"), leaf("1_3", " My Planning ")];
    let children = s.expand_node(ROOT, &items).unwrap();
    assert_eq!(children, vec!["submenu_44".to_string(), "1_3".to_string()]);
    assert!(s.menu().is_node_loaded(ROOT));
    let c = s.menu().get_menu_node("submenu_44").unwrap();
    assert_eq!(c.name, "Groups");
    assert_eq!(c.parent, Some(ROOT.to_string()));
    assert!(!s.menu().is_node_loaded("submenu_44"));
    assert_eq!(s.menu().get_menu_node("1_3").unwrap().name, "My");
    assert!(s.menu().is_node_loaded("1_3"));
}

#[test]
fn expand_node_twice_is_idempotent() {
    let mut s = ready();
    let items = vec![category("submenu_44", "A"), leaf("1_3", "B")];
    let first = s.expand_node(ROOT, &items).unwrap();
    s.expand_node("submenu_44", &vec![leaf("44_1", "C")]).unwrap();
    let second = s.expand_node(ROOT, &items).unwrap();
    assert_eq!(first, second);
    assert!(s.menu().is_node_loaded("submenu_44"));
    assert_eq!(
        s.menu().get_menu_node("submenu_44").unwrap().get_children(),
        &vec!["44_1".to_string()]
    );
}

#[test]
fn expand_node_with_bad_item_changes_nothing() {
    let mut s = ready();
    let bad = MenuItem { class: Some("ui-menu-parent nothing".to_string()), onclick: None, label: Some("x".to_string()) };
    let items = vec![leaf("1_3", "B"), bad];
    assert_eq!(s.expand_node(ROOT, &items).err(), Some(Failure::MissingAttribute));
    assert!(!s.menu().is_node_loaded(ROOT));
    assert!(s.menu().get_menu_node("1_3").is_none());
}

#[test]
fn menu_items_are_read() {
    let n = menu_item_node(&category("submenu_9", "Plannings des groupes"), ROOT).unwrap();
    assert_eq!(n.id, "submenu_9");
    assert_eq!(n.name, "des groupes");
    let n = menu_item_node(&leaf("4_2", "Planning"), ROOT).unwrap();
    assert_eq!(n.id, "4_2");
    assert_eq!(n.name, "");
    let missing = MenuItem { class: Some("ui-menuitem".to_string()), onclick: None, label: Some("x".to_string()) };
    assert_eq!(menu_item_node(&missing, ROOT).err(), Some(Failure::MissingAttribute));
    let no_label = MenuItem { class: Some("ui-menuitem".to_string()), onclick: Some("x".to_string()), label: None };
    assert_eq!(menu_item_node(&no_label, ROOT).err(), Some(Failure::MissingAttribute));
}

#[test]
fn class_groups_need_a_leaf() {
    let mut s = ready();
    assert_eq!(s.class_group_tokens(ROOT).err(), Some(Failure::NotLeaf));
    s.expand_node(ROOT, &vec![leaf("1_3", "B")]).unwrap();
    assert_eq!(s.class_group_tokens("1_3"), Ok("vs:1".to_string()));
}

#[test]
fn redirect_is_required() {
    assert_eq!(check_redirect(false), Err(Failure::MissingRedirect));
    assert_eq!(check_redirect(true), Ok(()));
}

#[test]
fn class_group_rows() {
    let rows = vec![
        ClassGroupRow { data_rk: Some("12".to_string()), name: Some("G1".to_string()) },
        ClassGroupRow { data_rk: Some("7".to_string()), name: Some("G2".to_string()) },
    ];
    let groups = class_groups_from_rows(&rows).unwrap();
    assert_eq!(groups.len(), 2);
    assert_eq!(groups[0].id, 12);
    assert_eq!(groups[1].name, "G2");
    assert_eq!(class_groups_from_rows(&vec![]).err(), Some(Failure::NoClassGroups));
    let bad = vec![ClassGroupRow { data_rk: Some("x".to_string()), name: Some("G".to_string()) }];
    assert_eq!(class_groups_from_rows(&bad).err(), Some(Failure::MissingAttribute));
}

#[test]
fn sidebar_delimiters() {
    let text = "<partial-response><update id=\"form:sidebar\"><![CDATA[<ul>x</ul>]]></update></partial-response>";
    assert_eq!(sidebar_fragment(text), Ok("<ul>x</ul>".to_string()));
    assert_eq!(sidebar_fragment("<partial-response/>"), Err(Failure::MissingDelimiter));
}

#[test]
fn schedule_without_delimiter_fails() {
    assert_eq!(schedule_json("<update id=\"x\"><![CDATA[[]]]></update>"), Err(Failure::MissingDelimiter));
    assert_eq!(schedule_json("<![CDATA[{\"events\" : []"), Err(Failure::MissingDelimiter));
    assert_eq!(
        schedule_json("<update><![CDATA[{\"events\" : [{\"id\":\"1\"}]}]]></update>"),
        Ok("[{\"id\":\"1\"}]".to_string())
    );
}

#[test]
fn schedule_tokens_are_read() {
    let page = "<div id=\"form:j_idt117\" class=\"schedule\"></div><input name=\"javax.faces.ViewState\" value=\"v2\"/>";
    let t = schedule_tokens(page).unwrap();
    assert_eq!(t.form_id, 117);
    assert_eq!(t.view_state, "v2");
    assert_eq!(schedule_tokens("<div/>").err(), Some(Failure::MissingFormId));
    assert_eq!(
        schedule_tokens("<div id=\"form:j_idt117\" class=\"schedule\">").err(),
        Some(Failure::MissingViewState)
    );
}

#[test]
fn events_all_or_nothing() {
    let good = raw("42", "09h00 à 10h00 - A101 - X - Physics - Optics - Dr. Smith - TP", "TP");
    let events = events_from_raw(vec![good]).unwrap();
    assert_eq!(events.len(), 1);
    assert_eq!(events[0].id, 42);
    assert_eq!(events[0].kind, EventKind::PracticalWork);
    assert_eq!(events[0].start, 1_700_000_000_000);
    assert_eq!(events[0].chapter, Some("Optics".to_string()));
    let batch = vec![
        raw("1", "09h00 à 10h00 - A101 - X - Physics - Dr. Smith - CM", "CM"),
        raw("2", "09h00 - 10h00 - A101 - X - Physics - Dr. Smith", "CM"),
    ];
    assert_eq!(
        events_from_raw(batch).err(),
        Some(Failure::Event(1, EventError::Title(TitleError::Unsupported)))
    );
    let bad_id = vec![raw("x1", "09h00 à 10h00 - A - X - S - P - Q", "cm")];
    assert_eq!(events_from_raw(bad_id).err(), Some(Failure::Event(0, EventError::InvalidId)));
}

#[test]
fn event_from_raw_record() {
    let e = Event::from_raw_event(raw("7", "09h00 à 10h00 - A101 / B2 - X - Maths - Dr. A / Dr. B - CM", "cours")).unwrap();
    assert_eq!(e.kind, EventKind::Course);
    assert_eq!(e.rooms, vec!["A101".to_string(), "B2".to_string()]);
    assert_eq!(e.subject, "Maths");
    assert_eq!(e.participants, vec!["Dr. A".to_string(), "Dr. B".to_string()]);
    assert_eq!(e.end, 1_700_003_600_000);
}
