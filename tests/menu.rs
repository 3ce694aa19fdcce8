use aurion_rs::{Menu, Node};

fn menu() -> Menu {
    Menu::new(
        275805,
        "submenu_291906".to_string(),
        "1_3".to_string(),
        "submenu_299102".to_string(),
    )
}

#[test]
fn new_menu_has_two_unloaded_roots() {
    let m = menu();
    assert_eq!(m.language_code(), 275805);
    assert_eq!(m.schooling_id(), "submenu_291906");
    assert_eq!(m.user_planning_id(), "1_3");
    assert_eq!(m.groups_planning_id(), "submenu_299102");
    assert_eq!(m.get_menu_node("submenu_291906").unwrap().name, "Schooling");
    assert_eq!(m.get_menu_node("submenu_299102").unwrap().name, "Groups");
    assert!(!m.is_node_loaded("submenu_291906"));
    assert!(!m.is_node_loaded("submenu_299102"));
    assert!(m.get_menu_node("1_3").is_none());
}

#[test]
fn unknown_node_is_not_loaded() {
    let m = menu();
    assert!(!m.is_node_loaded("submenu_1"));
    assert!(!m.is_node_loaded(""));
    assert!(m.get_menu_node("nothing").is_none());
}

#[test]
fn add_child_loads_category() {
    let mut m = menu();
    assert!(!m.is_node_loaded("submenu_291906"));
    let child = Node::new("1_5".to_string(), "Mine".to_string(), None);
    assert!(m.add_child("submenu_291906", child));
    assert!(m.is_node_loaded("submenu_291906"));
    let c = m.get_menu_node("1_5").unwrap();
    assert_eq!(c.parent, Some("submenu_291906".to_string()));
    assert!(c.is_leaf());
    assert!(m.is_node_loaded("1_5"));
    let parent = m.get_menu_node("submenu_291906").unwrap();
    assert_eq!(parent.get_children(), &vec!["1_5".to_string()]);
}

#[test]
fn add_child_refuses_duplicates_and_unknown_parents() {
    let mut m = menu();
    assert!(m.add_child("submenu_291906", Node::new("1_5".to_string(), "A".to_string(), None)));
    assert!(!m.add_child("submenu_291906", Node::new("1_5".to_string(), "B".to_string(), None)));
    assert_eq!(m.get_menu_node("1_5").unwrap().name, "A");
    assert!(!m.add_child("submenu_0", Node::new("1_6".to_string(), "C".to_string(), None)));
    assert!(m.get_menu_node("1_6").is_none());
    assert!(!m.add_child(
        "submenu_291906",
        Node::new("submenu_291906".to_string(), "D".to_string(), None)
    ));
}

#[test]
fn node_loaded_and_leaf() {
    let mut category = Node::new("submenu_7".to_string(), "C".to_string(), None);
    assert!(!category.is_loaded());
    assert!(!category.is_leaf());
    category.add_child("x".to_string());
    assert!(category.is_loaded());
    let mut leaf = Node::new("7_1".to_string(), "L".to_string(), Some("submenu_7".to_string()));
    assert!(leaf.is_loaded());
    assert!(leaf.is_leaf());
    leaf.add_child("y".to_string());
    assert!(!leaf.is_loaded());
    assert!(!leaf.is_leaf());
}

#[test]
fn add_node_overwrites() {
    let mut m = menu();
    m.add_node(Node::new("submenu_291906".to_string(), "Other".to_string(), None));
    assert_eq!(m.get_menu_node("submenu_291906").unwrap().name, "Other");
    m.add_node(Node::new("9_9".to_string(), "New".to_string(), None));
    assert_eq!(m.get_menu_node("9_9").unwrap().name, "New");
}

#[test]
fn pages_are_under_the_service() {
    let p = aurion_rs::Pages::new("https://web.example.org/webAurion");
    assert_eq!(p.service_url(), "https://web.example.org/webAurion");
    assert_eq!(p.login_url(), "https://web.example.org/webAurion/login");
    assert_eq!(p.main_menu_url(), "https://web.example.org/webAurion/faces/MainMenuPage.xhtml");
    assert_eq!(p.planning_choice_url(), "https://web.example.org/webAurion/faces/ChoixPlanning.xhtml");
    assert_eq!(p.planning_url(), "https://web.example.org/webAurion/faces/Planning.xhtml");
}
