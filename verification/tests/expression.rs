use awesome_remote::channel::evaluation_request;
use awesome_remote::expression::{
    client_class_expression, client_count_expression, client_name_expression,
    client_window_expression, screen_count_expression, tag_count_expression,
    tag_name_expression,
};

#[test]
fn screen_count_takes_no_index() {
    assert_eq!(screen_count_expression(), "screen:count()");
}

#[test]
fn tag_count_addresses_the_screen_from_one() {
    assert_eq!(tag_count_expression(0), "#screen[1].tags");
    assert_eq!(tag_count_expression(1), "#screen[2].tags");
    assert_eq!(tag_count_expression(9), "#screen[10].tags");
}

#[test]
fn tag_name_addresses_screen_and_tag_from_one() {
    assert_eq!(tag_name_expression(0, 0), "screen[1].tags[1].name");
    assert_eq!(tag_name_expression(2, 8), "screen[3].tags[9].name");
}

#[test]
fn client_count_addresses_screen_and_tag_from_one() {
    assert_eq!(client_count_expression(0, 0), "#screen[1].tags[1]:clients()");
    assert_eq!(client_count_expression(1, 4), "#screen[2].tags[5]:clients()");
}

#[test]
fn client_index_is_written_as_it_is() {
    assert_eq!(client_name_expression(0, 0, 1), "screen[1].tags[1]:clients()[1].name");
    assert_eq!(client_window_expression(0, 0, 1), "screen[1].tags[1]:clients()[1].window");
    assert_eq!(client_class_expression(0, 0, 1), "screen[1].tags[1]:clients()[1].class");
    assert_eq!(client_name_expression(3, 3, 3), "screen[4].tags[4]:clients()[3].name");
    assert_eq!(client_class_expression(0, 1, 0), "screen[1].tags[2]:clients()[0].class");
}

#[test]
fn the_largest_positions_do_not_wrap() {
    assert_eq!(tag_count_expression(u32::MAX), "#screen[4294967296].tags");
    assert_eq!(
        tag_name_expression(u32::MAX, u32::MAX - 1),
        "screen[4294967296].tags[4294967295].name"
    );
    assert_eq!(
        client_window_expression(u32::MAX, u32::MAX, u32::MAX),
        "screen[4294967296].tags[4294967296]:clients()[4294967295].window"
    );
}

#[test]
fn a_request_frames_the_expression() {
    assert_eq!(evaluation_request("screen:count()"), "return tostring(screen:count())");
    assert_eq!(evaluation_request(""), "return tostring()");
    assert_eq!(evaluation_request("#screen[1].tags"), "return tostring(#screen[1].tags)");
}

#[test]
fn different_places_have_different_expressions() {
    let mut seen = std::collections::HashSet::new();
    for screen in [0u32, 1, 9, 10, 11, 110] {
        assert!(seen.insert(tag_count_expression(screen)));
        for tag in [0u32, 1, 9, 10, 11, 110] {
            assert!(seen.insert(tag_name_expression(screen, tag)));
            assert!(seen.insert(client_count_expression(screen, tag)));
            for client in [0u32, 1, 2, 10, 11, 12, 111] {
                assert!(seen.insert(client_name_expression(screen, tag, client)));
                assert!(seen.insert(client_window_expression(screen, tag, client)));
                assert!(seen.insert(client_class_expression(screen, tag, client)));
            }
        }
    }
}
