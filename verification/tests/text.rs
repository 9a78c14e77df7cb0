use svarozhits::text::{begins_with, chars_of, reads, same_text};

#[test]
fn the_characters_of_a_text_come_in_order() {
    assert_eq!(chars_of(""), Vec::<char>::new());
    assert_eq!(chars_of("abc"), vec!['a', 'b', 'c']);
    assert_eq!(chars_of("Käse 🧀"), vec!['K', 'ä', 's', 'e', ' ', '🧀']);
}

#[test]
fn texts_are_the_same_when_all_characters_are() {
    assert!(same_text(&chars_of("/tasks"), &chars_of("/tasks")));
    assert!(same_text(&chars_of(""), &chars_of("")));
    assert!(!same_text(&chars_of("/tasks"), &chars_of("/tasks/")));
    assert!(!same_text(&chars_of("/tasks"), &chars_of("/task")));
    assert!(!same_text(&chars_of("/tasks"), &chars_of("/tasky")));
    assert!(!same_text(&chars_of("a"), &chars_of("")));
}

#[test]
fn a_text_begins_with_each_of_its_prefixes() {
    let text = chars_of("/assets/style.css");
    assert!(begins_with(&text, &chars_of("")));
    assert!(begins_with(&text, &chars_of("/")));
    assert!(begins_with(&text, &chars_of("/assets/")));
    assert!(begins_with(&text, &chars_of("/assets/style.css")));
    assert!(!begins_with(&text, &chars_of("/assets/style.css ")));
    assert!(!begins_with(&text, &chars_of("assets")));
    assert!(!begins_with(&text, &chars_of("/Assets/")));
    assert!(!begins_with(&chars_of(""), &chars_of("/")));
}

#[test]
fn a_text_reads_a_word_when_it_is_that_word() {
    assert!(reads(&chars_of("GET"), "GET"));
    assert!(!reads(&chars_of("GET"), "get"));
    assert!(!reads(&chars_of("GET"), "GE"));
    assert!(!reads(&chars_of("GE"), "GET"));
    assert!(reads(&Vec::new(), ""));
}
