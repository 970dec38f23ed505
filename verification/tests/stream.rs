//! Tests of the standard stream actions.

use hotwire_turbo::stream;

#[test]
fn empty_content() {
    let expected =
        "<turbo-stream action=\"append\" target=\"message_1\"><template></template></turbo-stream>";
    assert_eq!(expected, stream::append("message_1", ""));
}

#[test]
fn remove() {
    let expected =
        "<turbo-stream action=\"remove\" target=\"message_1\"><template></template></turbo-stream>";
    assert_eq!(expected, stream::remove("message_1"));
}

#[test]
fn remove_all() {
    let expected =
        "<turbo-stream action=\"remove\" targets=\".message\"><template></template></turbo-stream>";
    assert_eq!(expected, stream::remove_all(".message"));
}

#[test]
fn replace() {
    let expected =
        "<turbo-stream action=\"replace\" target=\"message_1\"><template>Test</template></turbo-stream>";
    assert_eq!(expected, stream::replace("message_1", "Test"));
}

#[test]
fn replace_all() {
    let expected =
        "<turbo-stream action=\"replace\" targets=\".message\"><template>Test</template></turbo-stream>";
    assert_eq!(expected, stream::replace_all(".message", "Test"));
}

#[test]
fn before() {
    let expected =
        "<turbo-stream action=\"before\" target=\"message_1\"><template>Test</template></turbo-stream>";
    assert_eq!(expected, stream::before("message_1", "Test"));
}

#[test]
fn before_all() {
    let expected =
        "<turbo-stream action=\"before\" targets=\".message\"><template>Test</template></turbo-stream>";
    assert_eq!(expected, stream::before_all(".message", "Test"));
}

#[test]
fn after() {
    let expected =
        "<turbo-stream action=\"after\" target=\"message_1\"><template>Test</template></turbo-stream>";
    assert_eq!(expected, stream::after("message_1", "Test"));
}

#[test]
fn after_all() {
    let expected =
        "<turbo-stream action=\"after\" targets=\".message\"><template>Test</template></turbo-stream>";
    assert_eq!(expected, stream::after_all(".message", "Test"));
}

#[test]
fn update() {
    let expected =
        "<turbo-stream action=\"update\" target=\"message_1\"><template>Test</template></turbo-stream>";
    assert_eq!(expected, stream::update("message_1", "Test"));
}

#[test]
fn update_all() {
    let expected =
        "<turbo-stream action=\"update\" targets=\".message\"><template>Test</template></turbo-stream>";
    assert_eq!(expected, stream::update_all(".message", "Test"));
}

#[test]
fn append() {
    let expected =
        "<turbo-stream action=\"append\" target=\"message_1\"><template>Test</template></turbo-stream>";
    assert_eq!(expected, stream::append("message_1", "Test"));
}

#[test]
fn append_all() {
    let expected =
        "<turbo-stream action=\"append\" targets=\".message\"><template>Test</template></turbo-stream>";
    assert_eq!(expected, stream::append_all(".message", "Test"));
}

#[test]
fn prepend() {
    let expected =
        "<turbo-stream action=\"prepend\" target=\"message_1\"><template>Test</template></turbo-stream>";
    assert_eq!(expected, stream::prepend("message_1", "Test"));
}

#[test]
fn prepend_all() {
    let expected =
        "<turbo-stream action=\"prepend\" targets=\".message\"><template>Test</template></turbo-stream>";
    assert_eq!(expected, stream::prepend_all(".message", "Test"));
}
