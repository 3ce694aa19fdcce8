use aurion_rs::{assemble_title, map_kind, parse_title, EventKind, TitleError};

fn strings(v: &[&str]) -> Vec<String> {
    v.iter().map(|s| s.to_string()).collect()
}

#[test]
fn classify_is_case_insensitive() {
    assert_eq!(map_kind("CM"), EventKind::Course);
    assert_eq!(map_kind("cm"), EventKind::Course);
    assert_eq!(map_kind("Cours"), EventKind::Course);
}

#[test]
fn classify_table() {
    assert_eq!(map_kind("conges"), EventKind::Leave);
    assert_eq!(map_kind("EST-EPREUVE"), EventKind::Exam);
    assert_eq!(map_kind("evaluation"), EventKind::Exam);
    assert_eq!(map_kind("DS"), EventKind::Exam);
    assert_eq!(map_kind("reunion"), EventKind::Meeting);
    assert_eq!(map_kind("TD"), EventKind::SupervisedWork);
    assert_eq!(map_kind("cours_td"), EventKind::SupervisedWork);
    assert_eq!(map_kind("TP"), EventKind::PracticalWork);
    assert_eq!(map_kind("Projet"), EventKind::Project);
}

#[test]
fn classify_unknown_is_other() {
    assert_eq!(map_kind("seminar"), EventKind::Other);
    assert_eq!(map_kind(""), EventKind::Other);
    assert_eq!(map_kind("c m"), EventKind::Other);
}

#[test]
fn title_with_chapter() {
    let t = parse_title(
        "09h00 à 10h00 - A101 / A102 - X - Mathematics - Vectors - Dr. Smith / Dr. Jones - CM",
    )
    .unwrap();
    assert_eq!(t.rooms, strings(&["A101", "A102"]));
    assert_eq!(t.subject, "Mathematics");
    assert_eq!(t.chapter, Some("Vectors".to_string()));
    assert_eq!(t.participants, strings(&["Dr. Smith", "Dr. Jones"]));
}

#[test]
fn title_last_segment_is_dropped() {
    // The segment after the last separator is never read: here the
    // participants' segment is the last one, so "Vectors" takes its slot.
    let t = parse_title("09h00 à 10h00 - A101 / A102 - X - Mathematics - Vectors - Dr. Smith / Dr. Jones")
        .unwrap();
    assert_eq!(t.rooms, strings(&["A101", "A102"]));
    assert_eq!(t.subject, "Mathematics");
    assert_eq!(t.chapter, None);
    assert_eq!(t.participants, strings(&["Vectors"]));
}

#[test]
fn title_without_chapter() {
    let t = parse_title("09h00 à 10h00 - A101 - X - Physics - Dr. Smith - TD").unwrap();
    assert_eq!(t.rooms, strings(&["A101"]));
    assert_eq!(t.subject, "Physics");
    assert_eq!(t.chapter, None);
    assert_eq!(t.participants, strings(&["Dr. Smith"]));
}

#[test]
fn title_with_three_slots() {
    let t = parse_title("09h00 à 10h00 - A101 - X - Physics - Dr. Smith").unwrap();
    assert_eq!(t.rooms, strings(&["A101"]));
    assert_eq!(t.subject, "Physics");
    assert_eq!(t.chapter, None);
    assert_eq!(t.participants, strings(&["Physics"]));
}

#[test]
fn title_chapter_keeps_inner_separators() {
    let t = parse_title("08h00 à 12h00 - B2 - Y - Chemistry - Part 1 - Acids - Dr. Who /  - Z").unwrap();
    assert_eq!(t.subject, "Chemistry");
    assert_eq!(t.chapter, Some("Part 1 - Acids".to_string()));
    assert_eq!(t.participants, strings(&["Dr. Who"]));
    assert_eq!(t.rooms, strings(&["B2"]));
}

#[test]
fn title_trims_rooms_and_keeps_empty_ones() {
    let t = parse_title("08h00 à 12h00 -  B2 /   / C3  - Y - Art - Ms. Lee - Z").unwrap();
    assert_eq!(t.rooms, strings(&["B2", "", "C3"]));
    assert_eq!(t.participants, strings(&["Ms. Lee"]));
}

#[test]
fn title_blank_chapter_is_none() {
    let t = parse_title("08h00 à 12h00 - B2 - Y - Art -    - Ms. Lee - Z").unwrap();
    assert_eq!(t.chapter, None);
    assert_eq!(t.participants, strings(&["Ms. Lee"]));
}

#[test]
fn title_dash_variant_is_unsupported() {
    assert_eq!(
        parse_title("09h00 - 10h00 - A101 - X - Physics - Dr. Smith").err(),
        Some(TitleError::Unsupported)
    );
}

#[test]
fn title_other_separator_is_unrecognized() {
    assert_eq!(
        parse_title("09h00 a 10h00 - A101 - X - Physics - Dr. Smith").err(),
        Some(TitleError::Unrecognized)
    );
    assert_eq!(parse_title("09h00").err(), Some(TitleError::Unrecognized));
    assert_eq!(parse_title("").err(), Some(TitleError::Unrecognized));
}

#[test]
fn title_with_too_few_segments_is_malformed() {
    assert_eq!(parse_title("09h00 à 10h00").err(), Some(TitleError::Malformed));
    assert_eq!(parse_title("09h00 à 10h00 - A101").err(), Some(TitleError::Malformed));
    assert_eq!(parse_title("09h00 à 10h00 - A101 - X - Y").err(), Some(TitleError::Malformed));
}

#[test]
fn assemble_drops_empty_participants() {
    let t = assemble_title(
        strings(&["A1"]),
        "Maths".to_string(),
        String::new(),
        strings(&["", "Dr. A", ""]),
    );
    assert_eq!(t.chapter, None);
    assert_eq!(t.participants, strings(&["Dr. A"]));
    let t = assemble_title(strings(&[]), "S".to_string(), "Ch".to_string(), strings(&[]));
    assert_eq!(t.chapter, Some("Ch".to_string()));
}
