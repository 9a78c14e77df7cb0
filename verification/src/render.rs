//! The index page: the list of tasks as HTML.

use vstd::prelude::*;
use vstd::string::{StrSliceExecFns, StringExecFns};
use crate::decimal::{decimal_text, format_i64};
use crate::task::{views, Task, TaskView};
use crate::text::chars_of;

verus! {

/// Whether `c` has a meaning of its own in HTML and is written as an entity.
pub open spec fn is_markup(c: char) -> bool {
    c == '&' || c == '<' || c == '>' || c == '"' || c == '\''
}

/// How one character of text is written in HTML.
pub open spec fn escape_char(c: char) -> Seq<char> {
    if c == '&' {
        "&amp;"@
    } else if c == '<' {
        "&lt;"@
    } else if c == '>' {
        "&gt;"@
    } else if c == '"' {
        "&quot;"@
    } else if c == '\'' {
        "&#39;"@
    } else {
        seq![c]
    }
}

/// How a text is written in HTML: character by character.
pub open spec fn escape(s: Seq<char>) -> Seq<char>
    decreases s.len(),
{
    if s.len() == 0 {
        Seq::empty()
    } else {
        escape(s.drop_last()) + escape_char(s.last())
    }
}

/// The list item of one task: its state as the class, its identifier as an
/// attribute, its title as the text.
pub open spec fn row_html(task: TaskView) -> Seq<char> {
    "<li class=\""@ + (if task.done {
        "done"@
    } else {
        "todo"@
    }) + "\" data-id=\""@ + decimal_text(task.id) + "\">"@ + escape(task.title) + "</li>\n"@
}

/// The list items of `tasks`, in order.
pub open spec fn rows_html(tasks: Seq<TaskView>) -> Seq<char>
    decreases tasks.len(),
{
    if tasks.len() == 0 {
        Seq::empty()
    } else {
        rows_html(tasks.drop_last()) + row_html(tasks.last())
    }
}

/// What stands before the list items on the index page.
pub open spec fn page_head() -> Seq<char> {
    "<!DOCTYPE html>\n<html lang=\"en\">\n<head>\n<meta charset=\"utf-8\">\n<title>Tasks</title>\n<link rel=\"stylesheet\" href=\"/assets/style.css\">\n<script src=\"/assets/tasks.js\" defer></script>\n</head>\n<body>\n<h1>Tasks</h1>\n<form method=\"post\" action=\"/tasks\">\n<input type=\"text\" name=\"title\" required>\n<button type=\"submit\">Add</button>\n</form>\n<ul id=\"tasks\">\n"@
}

/// What stands after the list items on the index page.
pub open spec fn page_foot() -> Seq<char> {
    "</ul>\n</body>\n</html>\n"@
}

/// The index page for `tasks`.
pub open spec fn index_html(tasks: Seq<TaskView>) -> Seq<char> {
    page_head() + rows_html(tasks) + page_foot()
}

/// A stretch of text without markup characters is written as it is.
proof fn lemma_escape_plain_stretch(s: Seq<char>, from: int, to: int)
    requires
        0 <= from <= to <= s.len(),
        forall|j: int| from <= j < to ==> !is_markup(#[trigger] s[j]),
    ensures
        escape(s.take(to)) == escape(s.take(from)) + s.subrange(from, to),
    decreases to - from,
{
    if from == to {
        assert(s.subrange(from, to) == Seq::<char>::empty());
    } else {
        lemma_escape_plain_stretch(s, from, to - 1);
        assert(s.take(to).drop_last() == s.take(to - 1));
        assert(s.take(to).last() == s[to - 1]);
        assert(!is_markup(s[to - 1]));
        assert(s.subrange(from, to) == s.subrange(from, to - 1) + seq![s[to - 1]]);
    }
}

/// Appends `text`, written in HTML, to `out`.
fn push_escaped(out: &mut String, text: &str)
    ensures
        final(out)@ == old(out)@ + escape(text@),
{
    let chars = chars_of(text);
    let ghost s = text@;
    let mut from: usize = 0;
    let mut i: usize = 0;
    assert(escape(s.take(0)) == Seq::<char>::empty());
    while i < chars.len()
        invariant
            chars@ == s,
            s == text@,
            from <= i <= chars.len(),
            out@ == old(out)@ + escape(s.take(from as int)),
            forall|j: int| from <= j < i ==> !is_markup(#[trigger] s[j]),
        decreases chars.len() - i,
    {
        let c = chars[i];
        if c == '&' || c == '<' || c == '>' || c == '"' || c == '\'' {
            proof {
                lemma_escape_plain_stretch(s, from as int, i as int);
                assert(s.take(i + 1).drop_last() == s.take(i as int));
                assert(s.take(i + 1).last() == c);
            }
            out.append(text.substring_char(from, i));
            let entity = if c == '&' {
                "&amp;"
            } else if c == '<' {
                "&lt;"
            } else if c == '>' {
                "&gt;"
            } else if c == '"' {
                "&quot;"
            } else {
                "&#39;"
            };
            out.append(entity);
            from = i + 1;
        }
        i = i + 1;
    }
    proof {
        lemma_escape_plain_stretch(s, from as int, i as int);
        assert(s.take(i as int) == s);
    }
    out.append(text.substring_char(from, i));
}

/// Appends the list item of `task` to `out`.
fn push_row(out: &mut String, task: &Task)
    ensures
        final(out)@ == old(out)@ + row_html(task@),
{
    out.append("<li class=\"");
    if task.done {
        out.append("done");
    } else {
        out.append("todo");
    }
    out.append("\" data-id=\"");
    let id = format_i64(task.id);
    out.append(id.as_str());
    out.append("\">");
    push_escaped(out, task.title.as_str());
    out.append("</li>\n");
    assert(out@ == old(out)@ + row_html(task@));
}

/// Renders the index page for `tasks`.
pub fn render_index(tasks: &Vec<Task>) -> (r: String)
    ensures
        r@ == index_html(views(tasks@)),
{
    let mut out = String::new();
    out.append(
        "<!DOCTYPE html>\n<html lang=\"en\">\n<head>\n<meta charset=\"utf-8\">\n<title>Tasks</title>\n<link rel=\"stylesheet\" href=\"/assets/style.css\">\n<script src=\"/assets/tasks.js\" defer></script>\n</head>\n<body>\n<h1>Tasks</h1>\n<form method=\"post\" action=\"/tasks\">\n<input type=\"text\" name=\"title\" required>\n<button type=\"submit\">Add</button>\n</form>\n<ul id=\"tasks\">\n",
    );
    let ghost all = views(tasks@);
    let mut i: usize = 0;
    assert(out@ == page_head() + rows_html(all.take(0)));
    while i < tasks.len()
        invariant
            i <= tasks.len(),
            all == views(tasks@),
            out@ == page_head() + rows_html(all.take(i as int)),
        decreases tasks.len() - i,
    {
        push_row(&mut out, &tasks[i]);
        proof {
            assert(all.take(i + 1).drop_last() == all.take(i as int));
            assert(all.take(i + 1).last() == tasks@[i as int]@);
        }
        i = i + 1;
    }
    assert(all.take(i as int) == all);
    out.append("</ul>\n</body>\n</html>\n");
    out
}

/// Whether `part` stands in `whole` at the offset `at`.
pub open spec fn stands_at(part: Seq<char>, whole: Seq<char>, at: int) -> bool {
    0 <= at && at + part.len() <= whole.len() && whole.subrange(at, at + part.len()) == part
}

/// Whether `part` stands somewhere in `whole`, as one stretch.
pub open spec fn occurs_in(part: Seq<char>, whole: Seq<char>) -> bool {
    exists|at: int| stands_at(part, whole, at)
}

/// A text without markup characters is written as it is.
pub proof fn lemma_plain_text_is_kept(s: Seq<char>)
    requires
        forall|j: int| 0 <= j < s.len() ==> !is_markup(#[trigger] s[j]),
    ensures
        escape(s) == s,
{
    lemma_escape_plain_stretch(s, 0, s.len() as int);
    assert(s.take(s.len() as int) == s);
    assert(s.take(0) == Seq::<char>::empty());
    assert(s.subrange(0, s.len() as int) == s);
}

/// Text written in HTML opens no tag and closes no attribute: it holds none
/// of `<`, `>`, `"` and `'`.
pub proof fn lemma_escaped_text_is_inert(s: Seq<char>)
    ensures
        forall|j: int|
            0 <= j < escape(s).len() ==> {
                let c = #[trigger] escape(s)[j];
                c != '<' && c != '>' && c != '"' && c != '\''
            },
    decreases s.len(),
{
    if s.len() > 0 {
        lemma_escaped_text_is_inert(s.drop_last());
        reveal_strlit("&amp;");
        reveal_strlit("&lt;");
        reveal_strlit("&gt;");
        reveal_strlit("&quot;");
        reveal_strlit("&#39;");
        let before = escape(s.drop_last());
        let last = escape_char(s.last());
        assert forall|j: int| 0 <= j < last.len() implies {
            let c = #[trigger] last[j];
            c != '<' && c != '>' && c != '"' && c != '\''
        } by {}
        assert forall|j: int| 0 <= j < escape(s).len() implies {
            let c = #[trigger] escape(s)[j];
            c != '<' && c != '>' && c != '"' && c != '\''
        } by {
            if j < before.len() {
                assert(escape(s)[j] == before[j]);
            } else {
                assert(escape(s)[j] == last[j - before.len()]);
            }
        }
    }
}

/// What stands between two texts occurs in the three of them joined.
proof fn lemma_occurs_between(before: Seq<char>, part: Seq<char>, after: Seq<char>)
    ensures
        occurs_in(part, before + part + after),
{
    let whole = before + part + after;
    assert(whole.subrange(before.len() as int, (before.len() + part.len()) as int) == part);
    assert(stands_at(part, whole, before.len() as int));
}

/// What occurs in a part of a text occurs in the text.
proof fn lemma_occurs_in_is_transitive(a: Seq<char>, b: Seq<char>, c: Seq<char>)
    requires
        occurs_in(a, b),
        occurs_in(b, c),
    ensures
        occurs_in(a, c),
{
    let i = choose|at: int| stands_at(a, b, at);
    let j = choose|at: int| stands_at(b, c, at);
    assert(c.subrange(i + j, i + j + a.len()) == c.subrange(j, j + b.len()).subrange(
        i,
        i + a.len(),
    ));
    assert(stands_at(a, c, i + j));
}

/// The list item of each task occurs among the list items.
proof fn lemma_row_occurs_in_rows(tasks: Seq<TaskView>, i: int)
    requires
        0 <= i < tasks.len(),
    ensures
        occurs_in(row_html(tasks[i]), rows_html(tasks)),
    decreases tasks.len(),
{
    let earlier = rows_html(tasks.drop_last());
    let last = row_html(tasks.last());
    let none = Seq::<char>::empty();
    if i == tasks.len() - 1 {
        lemma_occurs_between(earlier, last, none);
        assert(earlier + last + none == rows_html(tasks));
    } else {
        lemma_row_occurs_in_rows(tasks.drop_last(), i);
        lemma_occurs_between(none, earlier, last);
        assert(none + earlier + last == rows_html(tasks));
        lemma_occurs_in_is_transitive(row_html(tasks[i]), earlier, rows_html(tasks));
    }
}

/// The index page shows every task it was rendered for: the list item of
/// each task occurs in the page, and in it the title as HTML writes it.
pub proof fn lemma_page_shows_every_task(tasks: Seq<TaskView>, i: int)
    requires
        0 <= i < tasks.len(),
    ensures
        occurs_in(row_html(tasks[i]), index_html(tasks)),
        occurs_in(escape(tasks[i].title), row_html(tasks[i])),
        occurs_in(escape(tasks[i].title), index_html(tasks)),
{
    let task = tasks[i];
    lemma_row_occurs_in_rows(tasks, i);
    lemma_occurs_between(page_head(), rows_html(tasks), page_foot());
    lemma_occurs_in_is_transitive(row_html(task), rows_html(tasks), index_html(tasks));
    let opening = "<li class=\""@ + (if task.done {
        "done"@
    } else {
        "todo"@
    }) + "\" data-id=\""@ + decimal_text(task.id) + "\">"@;
    lemma_occurs_between(opening, escape(task.title), "</li>\n"@);
    lemma_occurs_in_is_transitive(escape(task.title), row_html(task), index_html(tasks));
}

} // verus!
