//! The extended ("power") action vocabulary: class toggling, storage access,
//! navigation, console logging, events, and more.
//!
//! Each builder assembles exactly the attribute set its action requires and
//! delegates to the Tag Engine. Storage-typed builders are thin
//! specializations that fix the `type` attribute to `local` or `session`.

use vstd::prelude::*;

use crate::attrs::{
    insert_sorted, lemma_insert_chain1, lemma_insert_chain2, lemma_insert_chain3,
    lemma_insert_order_irrelevant, lemma_insert_sorted_one, lex_lt, Attributes,
};
use crate::fragment::{fragment_text, lemma_empty_text};

verus! {

/// The decimal digit character for `d`.
pub open spec fn digit_char(d: int) -> char {
    if d == 0 {
        '0'
    } else if d == 1 {
        '1'
    } else if d == 2 {
        '2'
    } else if d == 3 {
        '3'
    } else if d == 4 {
        '4'
    } else if d == 5 {
        '5'
    } else if d == 6 {
        '6'
    } else if d == 7 {
        '7'
    } else if d == 8 {
        '8'
    } else {
        '9'
    }
}

/// Base-10 text of a number: most significant digit first, no sign, no
/// leading zeros except for zero itself.
pub open spec fn decimal_text(n: nat) -> Seq<char>
    decreases n,
    via decimal_text_decreases
{
    if n < 10 {
        seq![digit_char(n as int)]
    } else {
        decimal_text(n / 10).push(digit_char((n % 10) as int))
    }
}

#[via_fn]
proof fn decimal_text_decreases(n: nat) {
    if n >= 10 {
        vstd::arithmetic::div_mod::lemma_div_decreases(n as int, 10);
    }
}

/// The digit character for a value below ten.
fn decimal_digit(d: usize) -> (c: char)
    requires
        d < 10,
    ensures
        c == digit_char(d as int),
{
    if d == 0 {
        '0'
    } else if d == 1 {
        '1'
    } else if d == 2 {
        '2'
    } else if d == 3 {
        '3'
    } else if d == 4 {
        '4'
    } else if d == 5 {
        '5'
    } else if d == 6 {
        '6'
    } else if d == 7 {
        '7'
    } else if d == 8 {
        '8'
    } else {
        '9'
    }
}

/// Renders `n` in base ten.
fn decimal_string(n: usize) -> (s: String)
    ensures
        s@ == decimal_text(n as nat),
    decreases n,
{
    let d = n % 10;
    let c = decimal_digit(d);
    if n < 10 {
        proof {
            vstd::arithmetic::div_mod::lemma_small_mod(n as nat, 10);
        }
        let mut s = String::new();
        crate::escape::push_char(&mut s, c);
        proof {
            assert(s@ =~= seq![digit_char(n as int)]);
        }
        s
    } else {
        proof {
            vstd::arithmetic::div_mod::lemma_div_decreases(n as int, 10);
        }
        let mut s = decimal_string(n / 10);
        crate::escape::push_char(&mut s, c);
        s
    }
}

/// Adds `classes` to the class lists of the elements selected by `targets`.
pub fn add_css_class(targets: &str, classes: &str) -> (res: String)
    ensures
        res@ == fragment_text(
            seq![("action"@, "add_css_class"@), ("classes"@, classes@), ("targets"@, targets@)],
            Seq::empty(),
        ),
{
    let mut attributes = Attributes::new();
    attributes.insert("classes", classes);
    let res = crate::turbo_stream_target_all("add_css_class", targets, attributes, "");
    proof {
        reveal_strlit("action");
        reveal_strlit("classes");
        reveal_strlit("targets");
        assert(lex_lt("action"@, "classes"@));
        assert(lex_lt("classes"@, "targets"@));
        lemma_insert_chain2(
            "action"@,
            "add_css_class"@,
            "classes"@,
            classes@,
            "targets"@,
            targets@,
        );
        lemma_empty_text();
    }
    res
}

/// Toggles `classes` on the class lists of the elements selected by `targets`.
pub fn toggle_css_class(targets: &str, classes: &str) -> (res: String)
    ensures
        res@ == fragment_text(
            seq![("action"@, "toggle_css_class"@), ("classes"@, classes@), ("targets"@, targets@)],
            Seq::empty(),
        ),
{
    let mut attributes = Attributes::new();
    attributes.insert("classes", classes);
    let res = crate::turbo_stream_target_all("toggle_css_class", targets, attributes, "");
    proof {
        reveal_strlit("action");
        reveal_strlit("classes");
        reveal_strlit("targets");
        assert(lex_lt("action"@, "classes"@));
        assert(lex_lt("classes"@, "targets"@));
        lemma_insert_chain2(
            "action"@,
            "toggle_css_class"@,
            "classes"@,
            classes@,
            "targets"@,
            targets@,
        );
        lemma_empty_text();
    }
    res
}

/// Removes `classes` from the class lists of the elements selected by
/// `targets`.
pub fn remove_css_class(targets: &str, classes: &str) -> (res: String)
    ensures
        res@ == fragment_text(
            seq![("action"@, "remove_css_class"@), ("classes"@, classes@), ("targets"@, targets@)],
            Seq::empty(),
        ),
{
    let mut attributes = Attributes::new();
    attributes.insert("classes", classes);
    let res = crate::turbo_stream_target_all("remove_css_class", targets, attributes, "");
    proof {
        reveal_strlit("action");
        reveal_strlit("classes");
        reveal_strlit("targets");
        assert(lex_lt("action"@, "classes"@));
        assert(lex_lt("classes"@, "targets"@));
        lemma_insert_chain2(
            "action"@,
            "remove_css_class"@,
            "classes"@,
            classes@,
            "targets"@,
            targets@,
        );
        lemma_empty_text();
    }
    res
}

/// Clears the browser's local storage.
pub fn clear_local_storage() -> (res: String)
    ensures
        res@ == fragment_text(
            seq![("action"@, "clear_storage"@), ("type"@, "local"@)],
            Seq::empty(),
        ),
{
    clear_storage("local")
}

/// Clears the browser's session storage.
pub fn clear_session_storage() -> (res: String)
    ensures
        res@ == fragment_text(
            seq![("action"@, "clear_storage"@), ("type"@, "session"@)],
            Seq::empty(),
        ),
{
    clear_storage("session")
}

/// Clears the browser storage of the given type.
pub fn clear_storage(storage_type: &str) -> (res: String)
    ensures
        res@ == fragment_text(
            seq![("action"@, "clear_storage"@), ("type"@, storage_type@)],
            Seq::empty(),
        ),
{
    let mut attributes = Attributes::new();
    attributes.insert("type", storage_type);
    let res = crate::turbo_stream_action("clear_storage", attributes, "");
    proof {
        reveal_strlit("action");
        reveal_strlit("type");
        assert(lex_lt("action"@, "type"@));
        lemma_insert_chain1("action"@, "clear_storage"@, "type"@, storage_type@);
        lemma_empty_text();
    }
    res
}

/// Writes `message` to the browser console at the given `level`.
pub fn console_log(level: &str, message: &str) -> (res: String)
    ensures
        res@ == fragment_text(
            seq![("action"@, "console_log"@), ("level"@, level@), ("message"@, message@)],
            Seq::empty(),
        ),
{
    let mut attributes = Attributes::new();
    attributes.insert("level", level);
    attributes.insert("message", message);
    let res = crate::turbo_stream_action("console_log", attributes, "");
    proof {
        reveal_strlit("action");
        reveal_strlit("level");
        reveal_strlit("message");
        assert(lex_lt("action"@, "level"@));
        assert(lex_lt("level"@, "message"@));
        lemma_insert_chain2("action"@, "console_log"@, "level"@, level@, "message"@, message@);
        lemma_empty_text();
    }
    res
}

/// Writes tabular `data` with the given `columns` to the browser console;
/// both values are expected to be JSON text.
pub fn console_table(data: &str, columns: &str) -> (res: String)
    ensures
        res@ == fragment_text(
            seq![("action"@, "console_table"@), ("columns"@, columns@), ("data"@, data@)],
            Seq::empty(),
        ),
{
    let mut attributes = Attributes::new();
    attributes.insert("columns", columns);
    attributes.insert("data", data);
    let res = crate::turbo_stream_action("console_table", attributes, "");
    proof {
        reveal_strlit("action");
        reveal_strlit("columns");
        reveal_strlit("data");
        assert(lex_lt("action"@, "columns"@));
        assert(lex_lt("columns"@, "data"@));
        lemma_insert_chain2("action"@, "console_table"@, "columns"@, columns@, "data"@, data@);
        lemma_empty_text();
    }
    res
}

/// Dispatches a DOM event called `name` on the elements selected by
/// `targets`; `detail` rides along as the template content.
pub fn dispatch_event(targets: &str, name: &str, detail: &str) -> (res: String)
    ensures
        res@ == fragment_text(
            seq![("action"@, "dispatch_event"@), ("name"@, name@), ("targets"@, targets@)],
            detail@,
        ),
{
    let mut attributes = Attributes::new();
    attributes.insert("name", name);
    let res = crate::turbo_stream_target_all("dispatch_event", targets, attributes, detail);
    proof {
        reveal_strlit("action");
        reveal_strlit("name");
        reveal_strlit("targets");
        assert(lex_lt("action"@, "name"@));
        assert(lex_lt("name"@, "targets"@));
        lemma_insert_chain2("action"@, "dispatch_event"@, "name"@, name@, "targets"@, targets@);
    }
    res
}

/// Moves the elements selected by `targets` under the `parent` element.
pub fn graft(targets: &str, parent: &str) -> (res: String)
    ensures
        res@ == fragment_text(
            seq![("action"@, "graft"@), ("parent"@, parent@), ("targets"@, targets@)],
            Seq::empty(),
        ),
{
    let mut attributes = Attributes::new();
    attributes.insert("parent", parent);
    let res = crate::turbo_stream_target_all("graft", targets, attributes, "");
    proof {
        reveal_strlit("action");
        reveal_strlit("parent");
        reveal_strlit("targets");
        assert(lex_lt("action"@, "parent"@));
        assert(lex_lt("parent"@, "targets"@));
        lemma_insert_chain2("action"@, "graft"@, "parent"@, parent@, "targets"@, targets@);
        lemma_empty_text();
    }
    res
}

/// Navigates one step back in the browser history.
pub fn history_back() -> (res: String)
    ensures
        res@ == fragment_text(seq![("action"@, "history_back"@)], Seq::empty()),
{
    let res = crate::turbo_stream_action("history_back", Attributes::new(), "");
    proof {
        lemma_insert_sorted_one("action"@, "history_back"@);
        lemma_empty_text();
    }
    res
}

/// Navigates one step forward in the browser history.
pub fn history_forward() -> (res: String)
    ensures
        res@ == fragment_text(seq![("action"@, "history_forward"@)], Seq::empty()),
{
    let res = crate::turbo_stream_action("history_forward", Attributes::new(), "");
    proof {
        lemma_insert_sorted_one("action"@, "history_forward"@);
        lemma_empty_text();
    }
    res
}

/// Navigates `delta` steps in the browser history; the delta is rendered in
/// base-10 decimal.
pub fn history_go(delta: usize) -> (res: String)
    ensures
        res@ == fragment_text(
            seq![("action"@, "history_go"@), ("delta"@, decimal_text(delta as nat))],
            Seq::empty(),
        ),
{
    let delta_str = decimal_string(delta);
    let mut attributes = Attributes::new();
    attributes.insert("delta", delta_str.as_str());
    let res = crate::turbo_stream_action("history_go", attributes, "");
    proof {
        reveal_strlit("action");
        reveal_strlit("delta");
        assert(lex_lt("action"@, "delta"@));
        lemma_insert_chain1("action"@, "history_go"@, "delta"@, decimal_text(delta as nat));
        lemma_empty_text();
    }
    res
}

/// Sets the inner HTML of the elements selected by `targets` to `html`.
pub fn inner_html(targets: &str, html: &str) -> (res: String)
    ensures
        res@ == fragment_text(seq![("action"@, "inner_html"@), ("targets"@, targets@)], html@),
{
    let res = crate::turbo_stream_target_all("inner_html", targets, Attributes::new(), html);
    proof {
        crate::lemma_targets_pair("inner_html"@, targets@);
    }
    res
}

/// Inserts `html` at `position` relative to the elements selected by
/// `targets`.
pub fn insert_adjacent_html(targets: &str, position: &str, html: &str) -> (res: String)
    ensures
        res@ == fragment_text(
            seq![
                ("action"@, "insert_adjacent_html"@),
                ("position"@, position@),
                ("targets"@, targets@),
            ],
            html@,
        ),
{
    let mut attributes = Attributes::new();
    attributes.insert("position", position);
    let res = crate::turbo_stream_target_all("insert_adjacent_html", targets, attributes, html);
    proof {
        reveal_strlit("action");
        reveal_strlit("position");
        reveal_strlit("targets");
        assert(lex_lt("action"@, "position"@));
        assert(lex_lt("position"@, "targets"@));
        lemma_insert_chain2(
            "action"@,
            "insert_adjacent_html"@,
            "position"@,
            position@,
            "targets"@,
            targets@,
        );
    }
    res
}

/// Inserts `text` at `position` relative to the elements selected by
/// `targets`.
pub fn insert_adjacent_text(targets: &str, position: &str, text: &str) -> (res: String)
    ensures
        res@ == fragment_text(
            seq![
                ("action"@, "insert_adjacent_text"@),
                ("position"@, position@),
                ("targets"@, targets@),
                ("text"@, text@),
            ],
            Seq::empty(),
        ),
{
    let mut attributes = Attributes::new();
    attributes.insert("position", position);
    attributes.insert("text", text);
    let res = crate::turbo_stream_target_all("insert_adjacent_text", targets, attributes, "");
    proof {
        reveal_with_fuel(lex_lt, 8);
        reveal_strlit("action");
        reveal_strlit("position");
        reveal_strlit("targets");
        reveal_strlit("text");
        assert(lex_lt("action"@, "position"@));
        assert(lex_lt("position"@, "targets"@));
        assert(lex_lt("targets"@, "text"@));
        assert("text"@ != "targets"@);
        lemma_insert_order_irrelevant(
            insert_sorted(Seq::empty(), "position"@, position@),
            "text"@,
            text@,
            "targets"@,
            targets@,
        );
        lemma_insert_chain3(
            "action"@,
            "insert_adjacent_text"@,
            "position"@,
            position@,
            "targets"@,
            targets@,
            "text"@,
            text@,
        );
        lemma_empty_text();
    }
    res
}

/// Morphs the elements selected by `targets` into `html`.
pub fn morph(targets: &str, html: &str) -> (res: String)
    ensures
        res@ == fragment_text(seq![("action"@, "morph"@), ("targets"@, targets@)], html@),
{
    let res = crate::turbo_stream_target_all("morph", targets, Attributes::new(), html);
    proof {
        crate::lemma_targets_pair("morph"@, targets@);
    }
    res
}

/// Shows a browser notification titled `title`; further notification options
/// come from the caller's mapping, and `body` rides along as the content.
pub fn notification(title: &str, options: Attributes, body: &str) -> (res: String)
    requires
        options.wf(),
    ensures
        res@ == fragment_text(
            insert_sorted(insert_sorted(options@, "title"@, title@), "action"@, "notification"@),
            body@,
        ),
{
    let mut options = options;
    options.insert("title", title);
    crate::turbo_stream_action("notification", options, body)
}

/// Sets the outer HTML of the elements selected by `targets` to `html`.
pub fn outer_html(targets: &str, html: &str) -> (res: String)
    ensures
        res@ == fragment_text(seq![("action"@, "outer_html"@), ("targets"@, targets@)], html@),
{
    let res = crate::turbo_stream_target_all("outer_html", targets, Attributes::new(), html);
    proof {
        crate::lemma_targets_pair("outer_html"@, targets@);
    }
    res
}

/// Pushes a new entry with `url`, `title` and serialized `state` onto the
/// browser history.
pub fn push_state(url: &str, title: &str, state: &str) -> (res: String)
    ensures
        res@ == fragment_text(
            seq![
                ("action"@, "push_state"@),
                ("state"@, state@),
                ("title"@, title@),
                ("url"@, url@),
            ],
            Seq::empty(),
        ),
{
    let mut attributes = Attributes::new();
    attributes.insert("state", state);
    attributes.insert("title", title);
    attributes.insert("url", url);
    let res = crate::turbo_stream_action("push_state", attributes, "");
    proof {
        reveal_strlit("action");
        reveal_strlit("state");
        reveal_strlit("title");
        reveal_strlit("url");
        assert(lex_lt("action"@, "state"@));
        assert(lex_lt("state"@, "title"@));
        assert(lex_lt("title"@, "url"@));
        lemma_insert_chain3(
            "action"@,
            "push_state"@,
            "state"@,
            state@,
            "title"@,
            title@,
            "url"@,
            url@,
        );
        lemma_empty_text();
    }
    res
}

/// Replaces the current browser history entry with `url`, `title` and
/// serialized `state`.
pub fn replace_state(url: &str, title: &str, state: &str) -> (res: String)
    ensures
        res@ == fragment_text(
            seq![
                ("action"@, "replace_state"@),
                ("state"@, state@),
                ("title"@, title@),
                ("url"@, url@),
            ],
            Seq::empty(),
        ),
{
    let mut attributes = Attributes::new();
    attributes.insert("state", state);
    attributes.insert("title", title);
    attributes.insert("url", url);
    let res = crate::turbo_stream_action("replace_state", attributes, "");
    proof {
        reveal_strlit("action");
        reveal_strlit("state");
        reveal_strlit("title");
        reveal_strlit("url");
        assert(lex_lt("action"@, "state"@));
        assert(lex_lt("state"@, "title"@));
        assert(lex_lt("title"@, "url"@));
        lemma_insert_chain3(
            "action"@,
            "replace_state"@,
            "state"@,
            state@,
            "title"@,
            title@,
            "url"@,
            url@,
        );
        lemma_empty_text();
    }
    res
}

/// Redirects the page to `url` with the given Turbo visit action, optionally
/// scoped to a Turbo frame.
pub fn redirect_to(url: &str, turbo_action: &str, turbo_frame: Option<&str>) -> (res: String)
    ensures
        turbo_frame is None ==> res@ == fragment_text(
            seq![
                ("action"@, "redirect_to"@),
                ("turbo-action"@, turbo_action@),
                ("url"@, url@),
            ],
            Seq::empty(),
        ),
        turbo_frame is Some ==> res@ == fragment_text(
            seq![
                ("action"@, "redirect_to"@),
                ("turbo-action"@, turbo_action@),
                ("turbo-frame"@, turbo_frame.unwrap()@),
                ("url"@, url@),
            ],
            Seq::empty(),
        ),
{
    let mut attributes = Attributes::new();
    attributes.insert("turbo-action", turbo_action);
    if let Some(frame) = turbo_frame {
        attributes.insert("turbo-frame", frame);
    }
    attributes.insert("url", url);
    let res = crate::turbo_stream_action("redirect_to", attributes, "");
    proof {
        reveal_with_fuel(lex_lt, 8);
        reveal_strlit("action");
        reveal_strlit("turbo-action");
        reveal_strlit("turbo-frame");
        reveal_strlit("url");
        assert(lex_lt("action"@, "turbo-action"@));
        assert(lex_lt("turbo-action"@, "turbo-frame"@));
        assert(lex_lt("turbo-frame"@, "url"@));
        assert(lex_lt("turbo-action"@, "url"@));
        if turbo_frame is Some {
            lemma_insert_chain3(
                "action"@,
                "redirect_to"@,
                "turbo-action"@,
                turbo_action@,
                "turbo-frame"@,
                turbo_frame.unwrap()@,
                "url"@,
                url@,
            );
        } else {
            lemma_insert_chain2(
                "action"@,
                "redirect_to"@,
                "turbo-action"@,
                turbo_action@,
                "url"@,
                url@,
            );
        }
        lemma_empty_text();
    }
    res
}

/// Reloads the page.
pub fn reload() -> (res: String)
    ensures
        res@ == fragment_text(seq![("action"@, "reload"@)], Seq::empty()),
{
    let res = crate::turbo_stream_action("reload", Attributes::new(), "");
    proof {
        lemma_insert_sorted_one("action"@, "reload"@);
        lemma_empty_text();
    }
    res
}

/// Removes `attribute` from the elements selected by `targets`.
pub fn remove_attribute(targets: &str, attribute: &str) -> (res: String)
    ensures
        res@ == fragment_text(
            seq![
                ("action"@, "remove_attribute"@),
                ("attribute"@, attribute@),
                ("targets"@, targets@),
            ],
            Seq::empty(),
        ),
{
    let mut attributes = Attributes::new();
    attributes.insert("attribute", attribute);
    let res = crate::turbo_stream_target_all("remove_attribute", targets, attributes, "");
    proof {
        reveal_with_fuel(lex_lt, 8);
        reveal_strlit("action");
        reveal_strlit("attribute");
        reveal_strlit("targets");
        assert(lex_lt("action"@, "attribute"@));
        assert(lex_lt("attribute"@, "targets"@));
        lemma_insert_chain2(
            "action"@,
            "remove_attribute"@,
            "attribute"@,
            attribute@,
            "targets"@,
            targets@,
        );
        lemma_empty_text();
    }
    res
}

/// Removes `key` from the browser's local storage.
pub fn remove_local_storage_item(key: &str) -> (res: String)
    ensures
        res@ == fragment_text(
            seq![("action"@, "remove_storage_item"@), ("key"@, key@), ("type"@, "local"@)],
            Seq::empty(),
        ),
{
    remove_storage_item(key, "local")
}

/// Removes `key` from the browser's session storage.
pub fn remove_session_storage_item(key: &str) -> (res: String)
    ensures
        res@ == fragment_text(
            seq![("action"@, "remove_storage_item"@), ("key"@, key@), ("type"@, "session"@)],
            Seq::empty(),
        ),
{
    remove_storage_item(key, "session")
}

/// Removes `key` from the browser storage of the given type.
pub fn remove_storage_item(key: &str, storage_type: &str) -> (res: String)
    ensures
        res@ == fragment_text(
            seq![("action"@, "remove_storage_item"@), ("key"@, key@), ("type"@, storage_type@)],
            Seq::empty(),
        ),
{
    let mut attributes = Attributes::new();
    attributes.insert("key", key);
    attributes.insert("type", storage_type);
    let res = crate::turbo_stream_action("remove_storage_item", attributes, "");
    proof {
        reveal_strlit("action");
        reveal_strlit("key");
        reveal_strlit("type");
        assert(lex_lt("action"@, "key"@));
        assert(lex_lt("key"@, "type"@));
        lemma_insert_chain2(
            "action"@,
            "remove_storage_item"@,
            "key"@,
            key@,
            "type"@,
            storage_type@,
        );
        lemma_empty_text();
    }
    res
}

/// Resets the form elements selected by `targets`.
pub fn reset_form(targets: &str) -> (res: String)
    ensures
        res@ == fragment_text(seq![("action"@, "reset_form"@), ("targets"@, targets@)], Seq::empty()),
{
    let res = crate::turbo_stream_target_all("reset_form", targets, Attributes::new(), "");
    proof {
        crate::lemma_targets_pair("reset_form"@, targets@);
        lemma_empty_text();
    }
    res
}

/// Scrolls the elements selected by `targets` into view.
pub fn scroll_into_view(targets: &str) -> (res: String)
    ensures
        res@ == fragment_text(
            seq![("action"@, "scroll_into_view"@), ("targets"@, targets@)],
            Seq::empty(),
        ),
{
    let res = crate::turbo_stream_target_all("scroll_into_view", targets, Attributes::new(), "");
    proof {
        crate::lemma_targets_pair("scroll_into_view"@, targets@);
        lemma_empty_text();
    }
    res
}

/// Sets `attribute` to `value` on the elements selected by `targets`.
pub fn set_attribute(targets: &str, attribute: &str, value: &str) -> (res: String)
    ensures
        res@ == fragment_text(
            seq![
                ("action"@, "set_attribute"@),
                ("attribute"@, attribute@),
                ("targets"@, targets@),
                ("value"@, value@),
            ],
            Seq::empty(),
        ),
{
    let mut attributes = Attributes::new();
    attributes.insert("attribute", attribute);
    attributes.insert("value", value);
    let res = crate::turbo_stream_target_all("set_attribute", targets, attributes, "");
    proof {
        reveal_with_fuel(lex_lt, 8);
        reveal_strlit("action");
        reveal_strlit("attribute");
        reveal_strlit("targets");
        reveal_strlit("value");
        assert(lex_lt("action"@, "attribute"@));
        assert(lex_lt("attribute"@, "targets"@));
        assert(lex_lt("targets"@, "value"@));
        assert("value"@ != "targets"@);
        lemma_insert_order_irrelevant(
            insert_sorted(Seq::empty(), "attribute"@, attribute@),
            "value"@,
            value@,
            "targets"@,
            targets@,
        );
        lemma_insert_chain3(
            "action"@,
            "set_attribute"@,
            "attribute"@,
            attribute@,
            "targets"@,
            targets@,
            "value"@,
            value@,
        );
        lemma_empty_text();
    }
    res
}

/// Sets the data attribute `attribute` to `value` on the elements selected by
/// `targets`.
pub fn set_dataset_attribute(targets: &str, attribute: &str, value: &str) -> (res: String)
    ensures
        res@ == fragment_text(
            seq![
                ("action"@, "set_dataset_attribute"@),
                ("attribute"@, attribute@),
                ("targets"@, targets@),
                ("value"@, value@),
            ],
            Seq::empty(),
        ),
{
    let mut attributes = Attributes::new();
    attributes.insert("attribute", attribute);
    attributes.insert("value", value);
    let res = crate::turbo_stream_target_all("set_dataset_attribute", targets, attributes, "");
    proof {
        reveal_with_fuel(lex_lt, 8);
        reveal_strlit("action");
        reveal_strlit("attribute");
        reveal_strlit("targets");
        reveal_strlit("value");
        assert(lex_lt("action"@, "attribute"@));
        assert(lex_lt("attribute"@, "targets"@));
        assert(lex_lt("targets"@, "value"@));
        assert("value"@ != "targets"@);
        lemma_insert_order_irrelevant(
            insert_sorted(Seq::empty(), "attribute"@, attribute@),
            "value"@,
            value@,
            "targets"@,
            targets@,
        );
        lemma_insert_chain3(
            "action"@,
            "set_dataset_attribute"@,
            "attribute"@,
            attribute@,
            "targets"@,
            targets@,
            "value"@,
            value@,
        );
        lemma_empty_text();
    }
    res
}

/// Sends `cookie` to the browser as the document cookie string.
pub fn set_cookie(cookie: &str) -> (res: String)
    ensures
        res@ == fragment_text(
            seq![("action"@, "set_cookie"@), ("cookie"@, cookie@)],
            Seq::empty(),
        ),
{
    let mut attributes = Attributes::new();
    attributes.insert("cookie", cookie);
    let res = crate::turbo_stream_action("set_cookie", attributes, "");
    proof {
        reveal_strlit("action");
        reveal_strlit("cookie");
        assert(lex_lt("action"@, "cookie"@));
        lemma_insert_chain1("action"@, "set_cookie"@, "cookie"@, cookie@);
        lemma_empty_text();
    }
    res
}

/// Sets the cookie `key` to `value`.
pub fn set_cookie_item(key: &str, value: &str) -> (res: String)
    ensures
        res@ == fragment_text(
            seq![("action"@, "set_cookie_item"@), ("key"@, key@), ("value"@, value@)],
            Seq::empty(),
        ),
{
    let mut attributes = Attributes::new();
    attributes.insert("key", key);
    attributes.insert("value", value);
    let res = crate::turbo_stream_action("set_cookie_item", attributes, "");
    proof {
        reveal_strlit("action");
        reveal_strlit("key");
        reveal_strlit("value");
        assert(lex_lt("action"@, "key"@));
        assert(lex_lt("key"@, "value"@));
        lemma_insert_chain2("action"@, "set_cookie_item"@, "key"@, key@, "value"@, value@);
        lemma_empty_text();
    }
    res
}

/// Moves the focus to the element selected by `targets`.
pub fn set_focus(targets: &str) -> (res: String)
    ensures
        res@ == fragment_text(seq![("action"@, "set_focus"@), ("targets"@, targets@)], Seq::empty()),
{
    let res = crate::turbo_stream_target_all("set_focus", targets, Attributes::new(), "");
    proof {
        crate::lemma_targets_pair("set_focus"@, targets@);
        lemma_empty_text();
    }
    res
}

/// Sets `key` to `value` in the browser's local storage.
pub fn set_storage_local_item(key: &str, value: &str) -> (res: String)
    ensures
        res@ == fragment_text(
            seq![
                ("action"@, "set_storage_item"@),
                ("key"@, key@),
                ("type"@, "local"@),
                ("value"@, value@),
            ],
            Seq::empty(),
        ),
{
    set_storage_item(key, value, "local")
}

/// Sets `key` to `value` in the browser's session storage.
pub fn set_storage_session_item(key: &str, value: &str) -> (res: String)
    ensures
        res@ == fragment_text(
            seq![
                ("action"@, "set_storage_item"@),
                ("key"@, key@),
                ("type"@, "session"@),
                ("value"@, value@),
            ],
            Seq::empty(),
        ),
{
    set_storage_item(key, value, "session")
}

/// Sets `key` to `value` in the browser storage of the given type.
pub fn set_storage_item(key: &str, value: &str, storage_type: &str) -> (res: String)
    ensures
        res@ == fragment_text(
            seq![
                ("action"@, "set_storage_item"@),
                ("key"@, key@),
                ("type"@, storage_type@),
                ("value"@, value@),
            ],
            Seq::empty(),
        ),
{
    let mut attributes = Attributes::new();
    attributes.insert("key", key);
    attributes.insert("type", storage_type);
    attributes.insert("value", value);
    let res = crate::turbo_stream_action("set_storage_item", attributes, "");
    proof {
        reveal_strlit("action");
        reveal_strlit("key");
        reveal_strlit("type");
        reveal_strlit("value");
        assert(lex_lt("action"@, "key"@));
        assert(lex_lt("key"@, "type"@));
        assert(lex_lt("type"@, "value"@));
        lemma_insert_chain3(
            "action"@,
            "set_storage_item"@,
            "key"@,
            key@,
            "type"@,
            storage_type@,
            "value"@,
            value@,
        );
        lemma_empty_text();
    }
    res
}

/// Sets the document's `<meta>` tag called `name` to `content`.
pub fn set_meta(name: &str, content: &str) -> (res: String)
    ensures
        res@ == fragment_text(
            seq![("action"@, "set_meta"@), ("content"@, content@), ("name"@, name@)],
            Seq::empty(),
        ),
{
    let mut attributes = Attributes::new();
    attributes.insert("content", content);
    attributes.insert("name", name);
    let res = crate::turbo_stream_action("set_meta", attributes, "");
    proof {
        reveal_strlit("action");
        reveal_strlit("content");
        reveal_strlit("name");
        assert(lex_lt("action"@, "content"@));
        assert(lex_lt("content"@, "name"@));
        lemma_insert_chain2("action"@, "set_meta"@, "content"@, content@, "name"@, name@);
        lemma_empty_text();
    }
    res
}

/// Sets the DOM property `name` to `value` on the elements selected by
/// `targets`.
pub fn set_property(targets: &str, name: &str, value: &str) -> (res: String)
    ensures
        res@ == fragment_text(
            seq![
                ("action"@, "set_property"@),
                ("name"@, name@),
                ("targets"@, targets@),
                ("value"@, value@),
            ],
            Seq::empty(),
        ),
{
    let mut attributes = Attributes::new();
    attributes.insert("name", name);
    attributes.insert("value", value);
    let res = crate::turbo_stream_target_all("set_property", targets, attributes, "");
    proof {
        reveal_strlit("action");
        reveal_strlit("name");
        reveal_strlit("targets");
        reveal_strlit("value");
        assert(lex_lt("action"@, "name"@));
        assert(lex_lt("name"@, "targets"@));
        assert(lex_lt("targets"@, "value"@));
        assert("value"@ != "targets"@);
        lemma_insert_order_irrelevant(
            insert_sorted(Seq::empty(), "name"@, name@),
            "value"@,
            value@,
            "targets"@,
            targets@,
        );
        lemma_insert_chain3(
            "action"@,
            "set_property"@,
            "name"@,
            name@,
            "targets"@,
            targets@,
            "value"@,
            value@,
        );
        lemma_empty_text();
    }
    res
}

/// Sets the style `name` to `value` on the elements selected by `targets`.
pub fn set_style(targets: &str, name: &str, value: &str) -> (res: String)
    ensures
        res@ == fragment_text(
            seq![
                ("action"@, "set_style"@),
                ("name"@, name@),
                ("targets"@, targets@),
                ("value"@, value@),
            ],
            Seq::empty(),
        ),
{
    let mut attributes = Attributes::new();
    attributes.insert("name", name);
    attributes.insert("value", value);
    let res = crate::turbo_stream_target_all("set_style", targets, attributes, "");
    proof {
        reveal_strlit("action");
        reveal_strlit("name");
        reveal_strlit("targets");
        reveal_strlit("value");
        assert(lex_lt("action"@, "name"@));
        assert(lex_lt("name"@, "targets"@));
        assert(lex_lt("targets"@, "value"@));
        assert("value"@ != "targets"@);
        lemma_insert_order_irrelevant(
            insert_sorted(Seq::empty(), "name"@, name@),
            "value"@,
            value@,
            "targets"@,
            targets@,
        );
        lemma_insert_chain3(
            "action"@,
            "set_style"@,
            "name"@,
            name@,
            "targets"@,
            targets@,
            "value"@,
            value@,
        );
        lemma_empty_text();
    }
    res
}

/// Sets the whole inline style of the elements selected by `targets` to
/// `styles`.
pub fn set_styles(targets: &str, styles: &str) -> (res: String)
    ensures
        res@ == fragment_text(
            seq![("action"@, "set_styles"@), ("styles"@, styles@), ("targets"@, targets@)],
            Seq::empty(),
        ),
{
    let mut attributes = Attributes::new();
    attributes.insert("styles", styles);
    let res = crate::turbo_stream_target_all("set_styles", targets, attributes, "");
    proof {
        reveal_strlit("action");
        reveal_strlit("styles");
        reveal_strlit("targets");
        assert(lex_lt("action"@, "styles"@));
        assert(lex_lt("styles"@, "targets"@));
        lemma_insert_chain2("action"@, "set_styles"@, "styles"@, styles@, "targets"@, targets@);
        lemma_empty_text();
    }
    res
}

/// Sets the document title to `title`.
pub fn set_title(title: &str) -> (res: String)
    ensures
        res@ == fragment_text(seq![("action"@, "set_title"@), ("title"@, title@)], Seq::empty()),
{
    let mut attributes = Attributes::new();
    attributes.insert("title", title);
    let res = crate::turbo_stream_action("set_title", attributes, "");
    proof {
        reveal_strlit("action");
        reveal_strlit("title");
        assert(lex_lt("action"@, "title"@));
        lemma_insert_chain1("action"@, "set_title"@, "title"@, title@);
        lemma_empty_text();
    }
    res
}

/// Sets the form value of the elements selected by `targets` to `value`.
pub fn set_value(targets: &str, value: &str) -> (res: String)
    ensures
        res@ == fragment_text(
            seq![("action"@, "set_value"@), ("targets"@, targets@), ("value"@, value@)],
            Seq::empty(),
        ),
{
    let mut attributes = Attributes::new();
    attributes.insert("value", value);
    let res = crate::turbo_stream_target_all("set_value", targets, attributes, "");
    proof {
        reveal_strlit("action");
        reveal_strlit("targets");
        reveal_strlit("value");
        assert(lex_lt("action"@, "targets"@));
        assert(lex_lt("targets"@, "value"@));
        assert("value"@ != "targets"@);
        lemma_insert_order_irrelevant(
            Seq::empty(),
            "value"@,
            value@,
            "targets"@,
            targets@,
        );
        lemma_insert_chain2("action"@, "set_value"@, "targets"@, targets@, "value"@, value@);
        lemma_empty_text();
    }
    res
}

/// Sets the text content of the elements selected by `targets` to `text`.
pub fn text_content(targets: &str, text: &str) -> (res: String)
    ensures
        res@ == fragment_text(
            seq![("action"@, "text_content"@), ("targets"@, targets@), ("text"@, text@)],
            Seq::empty(),
        ),
{
    let mut attributes = Attributes::new();
    attributes.insert("text", text);
    let res = crate::turbo_stream_target_all("text_content", targets, attributes, "");
    proof {
        reveal_with_fuel(lex_lt, 8);
        reveal_strlit("action");
        reveal_strlit("targets");
        reveal_strlit("text");
        assert(lex_lt("action"@, "targets"@));
        assert(lex_lt("targets"@, "text"@));
        assert("text"@ != "targets"@);
        lemma_insert_order_irrelevant(
            Seq::empty(),
            "text"@,
            text@,
            "targets"@,
            targets@,
        );
        lemma_insert_chain2("action"@, "text_content"@, "targets"@, targets@, "text"@, text@);
        lemma_empty_text();
    }
    res
}

/// Clears Turbo's page cache.
pub fn turbo_clear_cache() -> (res: String)
    ensures
        res@ == fragment_text(seq![("action"@, "turbo_clear_cache"@)], Seq::empty()),
{
    let res = crate::turbo_stream_action("turbo_clear_cache", Attributes::new(), "");
    proof {
        lemma_insert_sorted_one("action"@, "turbo_clear_cache"@);
        lemma_empty_text();
    }
    res
}

/// Reloads the Turbo frame identified by `target`.
pub fn turbo_frame_reload(target: &str) -> (res: String)
    ensures
        res@ == fragment_text(
            seq![("action"@, "turbo_frame_reload"@), ("target"@, target@)],
            Seq::empty(),
        ),
{
    let res = crate::turbo_stream_target("turbo_frame_reload", target, Attributes::new(), "");
    proof {
        crate::lemma_target_pair("turbo_frame_reload"@, target@);
        lemma_empty_text();
    }
    res
}

/// Points the Turbo frame identified by `target` at a new `src` URL.
pub fn turbo_frame_set_src(target: &str, src: &str) -> (res: String)
    ensures
        res@ == fragment_text(
            seq![("action"@, "turbo_frame_set_src"@), ("src"@, src@), ("target"@, target@)],
            Seq::empty(),
        ),
{
    let mut attributes = Attributes::new();
    attributes.insert("src", src);
    let res = crate::turbo_stream_target("turbo_frame_set_src", target, attributes, "");
    proof {
        reveal_strlit("action");
        reveal_strlit("src");
        reveal_strlit("target");
        assert(lex_lt("action"@, "src"@));
        assert(lex_lt("src"@, "target"@));
        lemma_insert_chain2("action"@, "turbo_frame_set_src"@, "src"@, src@, "target"@, target@);
        lemma_empty_text();
    }
    res
}

/// Hides the Turbo progress bar.
pub fn turbo_progress_bar_hide() -> (res: String)
    ensures
        res@ == fragment_text(seq![("action"@, "turbo_progress_bar_hide"@)], Seq::empty()),
{
    let res = crate::turbo_stream_action("turbo_progress_bar_hide", Attributes::new(), "");
    proof {
        lemma_insert_sorted_one("action"@, "turbo_progress_bar_hide"@);
        lemma_empty_text();
    }
    res
}

/// Sets the Turbo progress bar to `value`.
pub fn turbo_progress_bar_set_value(value: &str) -> (res: String)
    ensures
        res@ == fragment_text(
            seq![("action"@, "turbo_progress_bar_set_value"@), ("value"@, value@)],
            Seq::empty(),
        ),
{
    let mut attributes = Attributes::new();
    attributes.insert("value", value);
    let res = crate::turbo_stream_action("turbo_progress_bar_set_value", attributes, "");
    proof {
        reveal_strlit("action");
        reveal_strlit("value");
        assert(lex_lt("action"@, "value"@));
        lemma_insert_chain1("action"@, "turbo_progress_bar_set_value"@, "value"@, value@);
        lemma_empty_text();
    }
    res
}

/// Shows the Turbo progress bar.
pub fn turbo_progress_bar_show() -> (res: String)
    ensures
        res@ == fragment_text(seq![("action"@, "turbo_progress_bar_show"@)], Seq::empty()),
{
    let res = crate::turbo_stream_action("turbo_progress_bar_show", Attributes::new(), "");
    proof {
        lemma_insert_sorted_one("action"@, "turbo_progress_bar_show"@);
        lemma_empty_text();
    }
    res
}

} // verus!
