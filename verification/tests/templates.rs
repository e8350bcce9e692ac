use smolcloud::templates::{edit, list, new, root, BasePage, NewPage};

#[test]
fn list_names_notes_by_position() {
    let entries = list(vec!["a".to_string(), "b".to_string(), "c".to_string()]);
    let names: Vec<&str> = entries.iter().map(|e| e.name.as_str()).collect();
    let contents: Vec<&str> = entries.iter().map(|e| e.content.as_str()).collect();
    assert_eq!(names, vec!["0", "1", "2"]);
    assert_eq!(contents, vec!["a", "b", "c"]);
    assert!(list(vec![]).is_empty());
}

#[test]
fn list_names_past_nine() {
    let entries = list((0..12).map(|i| i.to_string()).collect());
    assert_eq!(entries[10].name, "10");
    assert_eq!(entries[11].name, "11");
}

#[test]
fn edit_page_values() {
    let page = edit(7, "text");
    assert_eq!(page.id, 7);
    assert_eq!(page.content, "text");
}

#[test]
fn pages_without_values() {
    let _base: BasePage = root();
    let _new: NewPage = new();
}
