use svarozhits::render::render_index;
use svarozhits::task::Task;

const HEAD: &str = "<!DOCTYPE html>\n<html lang=\"en\">\n<head>\n<meta charset=\"utf-8\">\n<title>Tasks</title>\n<link rel=\"stylesheet\" href=\"/assets/style.css\">\n<script src=\"/assets/tasks.js\" defer></script>\n</head>\n<body>\n<h1>Tasks</h1>\n<form method=\"post\" action=\"/tasks\">\n<input type=\"text\" name=\"title\" required>\n<button type=\"submit\">Add</button>\n</form>\n<ul id=\"tasks\">\n";
const FOOT: &str = "</ul>\n</body>\n</html>\n";

fn task(id: i64, title: &str, done: bool) -> Task {
    Task { id, title: title.to_string(), done }
}

#[test]
fn the_page_of_no_tasks_has_an_empty_list() {
    assert_eq!(render_index(&Vec::new()), format!("{}{}", HEAD, FOOT));
}

#[test]
fn the_page_lists_each_task_with_its_state() {
    let tasks = vec![task(1, "buy milk", false), task(2, "call home", true)];
    let expected = format!(
        "{}{}{}{}",
        HEAD,
        "<li class=\"todo\" data-id=\"1\">buy milk</li>\n",
        "<li class=\"done\" data-id=\"2\">call home</li>\n",
        FOOT
    );
    assert_eq!(render_index(&tasks), expected);
}

#[test]
fn markup_in_a_title_is_escaped() {
    let tasks = vec![task(7, "<b>R&D</b> \"now\" o'clock", false)];
    let page = render_index(&tasks);
    assert!(page.contains(
        "<li class=\"todo\" data-id=\"7\">&lt;b&gt;R&amp;D&lt;/b&gt; &quot;now&quot; o&#39;clock</li>\n"
    ));
    assert!(!page.contains("<b>"));
}

#[test]
fn titles_of_only_markup_or_of_none_are_written_whole() {
    let page = render_index(&vec![task(1, "&&", false), task(2, "<", true), task(3, "", false)]);
    assert!(page.contains("<li class=\"todo\" data-id=\"1\">&amp;&amp;</li>\n"));
    assert!(page.contains("<li class=\"done\" data-id=\"2\">&lt;</li>\n"));
    assert!(page.contains("<li class=\"todo\" data-id=\"3\"></li>\n"));
}

#[test]
fn text_beyond_ascii_is_kept() {
    let page = render_index(&vec![task(12, "Käse & Brötchen – 5€ 🧀", false)]);
    assert!(page.contains("<li class=\"todo\" data-id=\"12\">Käse &amp; Brötchen – 5€ 🧀</li>\n"));
}

#[test]
fn identifiers_are_written_in_decimal() {
    let page = render_index(&vec![task(i64::MAX, "last", false), task(-3, "odd", false)]);
    assert!(page.contains("data-id=\"9223372036854775807\">last</li>"));
    assert!(page.contains("data-id=\"-3\">odd</li>"));
}
