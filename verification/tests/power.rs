//! Tests of the extended action vocabulary.

use hotwire_turbo::attrs::Attributes;
use hotwire_turbo::power;

#[test]
fn add_css_class() {
    let expected = "<turbo-stream action=\"add_css_class\" classes=\"container text-center\" targets=\"#element\"><template></template></turbo-stream>";
    assert_eq!(
        expected,
        power::add_css_class("#element", "container text-center")
    );
}

#[test]
fn toggle_css_class() {
    let expected = "<turbo-stream action=\"toggle_css_class\" classes=\"container text-center\" targets=\"#element\"><template></template></turbo-stream>";
    assert_eq!(
        expected,
        power::toggle_css_class("#element", "container text-center")
    );
}

#[test]
fn clear_local_storage() {
    let expected =
        "<turbo-stream action=\"clear_storage\" type=\"local\"><template></template></turbo-stream>";
    assert_eq!(expected, power::clear_local_storage());
}

#[test]
fn clear_session_storage() {
    let expected =
        "<turbo-stream action=\"clear_storage\" type=\"session\"><template></template></turbo-stream>";
    assert_eq!(expected, power::clear_session_storage());
}

#[test]
fn clear_storage() {
    let expected =
        "<turbo-stream action=\"clear_storage\" type=\"local\"><template></template></turbo-stream>";
    assert_eq!(expected, power::clear_storage("local"));
}

#[test]
fn console_log() {
    let expected = "<turbo-stream action=\"console_log\" level=\"info\" message=\"#element\"><template></template></turbo-stream>";
    assert_eq!(expected, power::console_log("info", "#element"));
}

#[test]
fn console_table() {
    let expected = "<turbo-stream action=\"console_table\" columns=\"[&quot;fruits&quot;]\" data=\"[&quot;apples&quot;,&quot;oranges&quot;,&quot;bananas&quot;]\"><template></template></turbo-stream>";
    assert_eq!(
        expected,
        power::console_table("[\"apples\",\"oranges\",\"bananas\"]", "[\"fruits\"]")
    );
}

#[test]
fn dispatch_event() {
    let expected = "<turbo-stream action=\"dispatch_event\" name=\"custom-event\" targets=\"#element\"><template>{\"foo\":\"bar\"}</template></turbo-stream>";
    assert_eq!(
        expected,
        power::dispatch_event("#element", "custom-event", "{\"foo\":\"bar\"}")
    );
}

#[test]
fn graft() {
    let expected = "<turbo-stream action=\"graft\" parent=\"#parent\" targets=\"#input\"><template></template></turbo-stream>";
    assert_eq!(expected, power::graft("#input", "#parent"));
}

#[test]
fn history_back() {
    let expected = "<turbo-stream action=\"history_back\"><template></template></turbo-stream>";
    assert_eq!(expected, power::history_back());
}

#[test]
fn history_forward() {
    let expected = "<turbo-stream action=\"history_forward\"><template></template></turbo-stream>";
    assert_eq!(expected, power::history_forward());
}

#[test]
fn history_go() {
    let expected =
        "<turbo-stream action=\"history_go\" delta=\"1\"><template></template></turbo-stream>";
    assert_eq!(expected, power::history_go(1));
}

#[test]
fn history_go_zero() {
    let expected =
        "<turbo-stream action=\"history_go\" delta=\"0\"><template></template></turbo-stream>";
    assert_eq!(expected, power::history_go(0));
}

#[test]
fn history_go_many_digits() {
    let expected =
        "<turbo-stream action=\"history_go\" delta=\"120304\"><template></template></turbo-stream>";
    assert_eq!(expected, power::history_go(120304));
}

#[test]
fn inner_html() {
    let expected = "<turbo-stream action=\"inner_html\" targets=\"#elements\"><template><p>Content</p></template></turbo-stream>";
    assert_eq!(expected, power::inner_html("#elements", "<p>Content</p>"));
}

#[test]
fn insert_adjacent_html() {
    let expected = "<turbo-stream action=\"insert_adjacent_html\" position=\"beforeend\" targets=\"#element\"><template><p>Content</p></template></turbo-stream>";
    assert_eq!(
        expected,
        power::insert_adjacent_html("#element", "beforeend", "<p>Content</p>")
    );
}

#[test]
fn insert_adjacent_text() {
    let expected = "<turbo-stream action=\"insert_adjacent_text\" position=\"beforeend\" targets=\"#element\" text=\"mytext\"><template></template></turbo-stream>";
    assert_eq!(
        expected,
        power::insert_adjacent_text("#element", "beforeend", "mytext")
    );
}

#[test]
fn morph() {
    let expected = "<turbo-stream action=\"morph\" targets=\"#input\"><template><p>Morph</p></template></turbo-stream>";
    assert_eq!(expected, power::morph("#input", "<p>Morph</p>"));
}

#[test]
fn notification() {
    let expected = "<turbo-stream action=\"notification\" title=\"mytitle\"><template><p>Content</p></template></turbo-stream>";
    assert_eq!(
        expected,
        power::notification("mytitle", Attributes::default(), "<p>Content</p>")
    );
}

#[test]
fn notification_with_options() {
    let expected = "<turbo-stream action=\"notification\" body=\"text\" title=\"mytitle\"><template></template></turbo-stream>";
    let mut options = Attributes::new();
    options.insert("body", "text");
    assert_eq!(expected, power::notification("mytitle", options, ""));
}

#[test]
fn outer_html() {
    let expected = "<turbo-stream action=\"outer_html\" targets=\"#element\"><template><p>Outer HTML</p></template></turbo-stream>";
    assert_eq!(expected, power::outer_html("#element", "<p>Outer HTML</p>"));
}

#[test]
fn push_state() {
    let expected = "<turbo-stream action=\"push_state\" state=\"{}\" title=\"title-1\" url=\"/users/1\"><template></template></turbo-stream>";
    assert_eq!(expected, power::push_state("/users/1", "title-1", "{}"));
}

#[test]
fn redirect_to_without_frame() {
    let expected = "<turbo-stream action=\"redirect_to\" turbo-action=\"advance\" url=\"/users/1\"><template></template></turbo-stream>";
    assert_eq!(expected, power::redirect_to("/users/1", "advance", None));
}

#[test]
fn redirect_to_with_frame() {
    let expected = "<turbo-stream action=\"redirect_to\" turbo-action=\"advance\" turbo-frame=\"my_frame\" url=\"/users/1\"><template></template></turbo-stream>";
    assert_eq!(
        expected,
        power::redirect_to("/users/1", "advance", Some("my_frame"))
    );
}

#[test]
fn reload() {
    let expected = "<turbo-stream action=\"reload\"><template></template></turbo-stream>";
    assert_eq!(expected, power::reload());
}

#[test]
fn remove_attribute() {
    let expected = "<turbo-stream action=\"remove_attribute\" attribute=\"data-controller\" targets=\"#input\"><template></template></turbo-stream>";
    assert_eq!(expected, power::remove_attribute("#input", "data-controller"));
}

#[test]
fn remove_css_class() {
    let expected = "<turbo-stream action=\"remove_css_class\" classes=\"container text-center\" targets=\"#element\"><template></template></turbo-stream>";
    assert_eq!(
        expected,
        power::remove_css_class("#element", "container text-center")
    );
}

#[test]
fn remove_session_storage_item() {
    let expected = "<turbo-stream action=\"remove_storage_item\" key=\"key\" type=\"session\"><template></template></turbo-stream>";
    assert_eq!(expected, power::remove_session_storage_item("key"));
}

#[test]
fn remove_local_storage_item() {
    let expected = "<turbo-stream action=\"remove_storage_item\" key=\"key\" type=\"local\"><template></template></turbo-stream>";
    assert_eq!(expected, power::remove_local_storage_item("key"));
}

#[test]
fn remove_storage_item() {
    let expected = "<turbo-stream action=\"remove_storage_item\" key=\"key\" type=\"local\"><template></template></turbo-stream>";
    assert_eq!(expected, power::remove_storage_item("key", "local"));
}

#[test]
fn replace_state() {
    let expected = "<turbo-stream action=\"replace_state\" state=\"{}\" title=\"title-1\" url=\"/users/1\"><template></template></turbo-stream>";
    assert_eq!(expected, power::replace_state("/users/1", "title-1", "{}"));
}

#[test]
fn reset_form() {
    let expected = "<turbo-stream action=\"reset_form\" targets=\"#form\"><template></template></turbo-stream>";
    assert_eq!(expected, power::reset_form("#form"));
}

#[test]
fn scroll_into_view() {
    let expected = "<turbo-stream action=\"scroll_into_view\" targets=\"#element\"><template></template></turbo-stream>";
    assert_eq!(expected, power::scroll_into_view("#element"));
}

#[test]
fn set_attribute() {
    let expected = "<turbo-stream action=\"set_attribute\" attribute=\"data-controller\" targets=\"#element\" value=\"example\"><template></template></turbo-stream>";
    assert_eq!(
        expected,
        power::set_attribute("#element", "data-controller", "example")
    );
}

#[test]
fn set_cookie() {
    let expected = "<turbo-stream action=\"set_cookie\" cookie=\"name=turbo_power; SameSite=None; Secure\"><template></template></turbo-stream>";
    assert_eq!(
        expected,
        power::set_cookie("name=turbo_power; SameSite=None; Secure")
    );
}

#[test]
fn set_cookie_item() {
    let expected = "<turbo-stream action=\"set_cookie_item\" key=\"my-key\" value=\"my-value\"><template></template></turbo-stream>";
    assert_eq!(expected, power::set_cookie_item("my-key", "my-value"));
}

#[test]
fn set_dataset_attribute() {
    let expected = "<turbo-stream action=\"set_dataset_attribute\" attribute=\"data-controller\" targets=\"#element\" value=\"example\"><template></template></turbo-stream>";
    assert_eq!(
        expected,
        power::set_dataset_attribute("#element", "data-controller", "example")
    );
}

#[test]
fn set_focus() {
    let expected = "<turbo-stream action=\"set_focus\" targets=\"#input\"><template></template></turbo-stream>";
    assert_eq!(expected, power::set_focus("#input"));
}

#[test]
fn set_storage_local_item() {
    let expected = "<turbo-stream action=\"set_storage_item\" key=\"my-key\" type=\"local\" value=\"my-value\"><template></template></turbo-stream>";
    assert_eq!(expected, power::set_storage_local_item("my-key", "my-value"));
}

#[test]
fn set_meta() {
    let expected = "<turbo-stream action=\"set_meta\" content=\"initial-scale=1.0\" name=\"viewport\"><template></template></turbo-stream>";
    assert_eq!(expected, power::set_meta("viewport", "initial-scale=1.0"));
}

#[test]
fn set_property() {
    let expected = "<turbo-stream action=\"set_property\" name=\"ariaDisabled\" targets=\"#element\" value=\"true\"><template></template></turbo-stream>";
    assert_eq!(
        expected,
        power::set_property("#element", "ariaDisabled", "true")
    );
}

#[test]
fn set_storage_session_item() {
    let expected = "<turbo-stream action=\"set_storage_item\" key=\"my-key\" type=\"session\" value=\"my-value\"><template></template></turbo-stream>";
    assert_eq!(
        expected,
        power::set_storage_session_item("my-key", "my-value")
    );
}

#[test]
fn set_storage_item() {
    let expected = "<turbo-stream action=\"set_storage_item\" key=\"my-key\" type=\"local\" value=\"my-value\"><template></template></turbo-stream>";
    assert_eq!(
        expected,
        power::set_storage_item("my-key", "my-value", "local")
    );
}

#[test]
fn set_style() {
    let expected = "<turbo-stream action=\"set_style\" name=\"background\" targets=\"#element\" value=\"black\"><template></template></turbo-stream>";
    assert_eq!(expected, power::set_style("#element", "background", "black"));
}

#[test]
fn set_styles() {
    let expected = "<turbo-stream action=\"set_styles\" styles=\"background: black; color: white\" targets=\"#element\"><template></template></turbo-stream>";
    assert_eq!(
        expected,
        power::set_styles("#element", "background: black; color: white")
    );
}

#[test]
fn set_title() {
    let expected = "<turbo-stream action=\"set_title\" title=\"My Title\"><template></template></turbo-stream>";
    assert_eq!(expected, power::set_title("My Title"));
}

#[test]
fn set_value() {
    let expected = "<turbo-stream action=\"set_value\" targets=\"#input\" value=\"Value\"><template></template></turbo-stream>";
    assert_eq!(expected, power::set_value("#input", "Value"));
}

#[test]
fn text_content() {
    let expected = "<turbo-stream action=\"text_content\" targets=\"#element\" text=\"Text Content\"><template></template></turbo-stream>";
    assert_eq!(expected, power::text_content("#element", "Text Content"));
}

#[test]
fn turbo_clear_cache() {
    let expected = "<turbo-stream action=\"turbo_clear_cache\"><template></template></turbo-stream>";
    assert_eq!(expected, power::turbo_clear_cache());
}

#[test]
fn turbo_frame_reload() {
    let expected = "<turbo-stream action=\"turbo_frame_reload\" target=\"user_1\"><template></template></turbo-stream>";
    assert_eq!(expected, power::turbo_frame_reload("user_1"));
}

#[test]
fn turbo_frame_set_src() {
    let expected = "<turbo-stream action=\"turbo_frame_set_src\" src=\"/users\" target=\"user_1\"><template></template></turbo-stream>";
    assert_eq!(expected, power::turbo_frame_set_src("user_1", "/users"));
}

#[test]
fn turbo_progress_bar_hide() {
    let expected =
        "<turbo-stream action=\"turbo_progress_bar_hide\"><template></template></turbo-stream>";
    assert_eq!(expected, power::turbo_progress_bar_hide());
}

#[test]
fn turbo_progress_bar_set_value() {
    let expected = "<turbo-stream action=\"turbo_progress_bar_set_value\" value=\"0\"><template></template></turbo-stream>";
    assert_eq!(expected, power::turbo_progress_bar_set_value("0"));
}

#[test]
fn turbo_progress_bar_show() {
    let expected =
        "<turbo-stream action=\"turbo_progress_bar_show\"><template></template></turbo-stream>";
    assert_eq!(expected, power::turbo_progress_bar_show());
}
