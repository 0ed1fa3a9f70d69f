use htmx_todos::reply::{reply_for, STATUS_INTERNAL_SERVER_ERROR, STATUS_OK};

#[test]
fn rendered_page_is_sent_as_html() {
    let r = reply_for(Ok("<ul><li>rust</li></ul>".to_string()));
    assert_eq!(r.status, 200);
    assert_eq!(r.status, STATUS_OK);
    assert_eq!(r.body, "<ul><li>rust</li></ul>");
    assert!(r.is_html);
}

#[test]
fn render_failure_is_an_internal_error_with_message() {
    let r = reply_for(Err("missing field".to_string()));
    assert_eq!(r.status, 500);
    assert_eq!(r.status, STATUS_INTERNAL_SERVER_ERROR);
    assert_eq!(r.body, "Failed to render template. Error: missing field");
    assert!(!r.is_html);
}

#[test]
fn render_failure_with_empty_message() {
    let r = reply_for(Err(String::new()));
    assert_eq!(r.status, 500);
    assert_eq!(r.body, "Failed to render template. Error: ");
}
