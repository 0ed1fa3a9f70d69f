use vstd::prelude::*;

verus! {

/// HTTP status of a page or fragment that rendered.
pub const STATUS_OK: u16 = 200;

/// HTTP status of a template that failed to render.
pub const STATUS_INTERNAL_SERVER_ERROR: u16 = 500;

/// The body sent when a template fails to render with message `err`.
pub open spec fn render_failure_body(err: Seq<char>) -> Seq<char> {
    "Failed to render template. Error: "@ + err
}

/// What a handler sends back: a status, a body, and whether the body is HTML.
pub struct Reply {
    pub status: u16,
    pub body: String,
    pub is_html: bool,
}

/// Turns the outcome of rendering a template into the reply to send: the
/// rendered HTML with success, or the rendering error's message as plain text
/// with an internal-server-error status.
pub fn reply_for(rendered: Result<String, String>) -> (r: Reply)
    ensures
        match rendered {
            Ok(html) => r.status == STATUS_OK && r.body@ == html@ && r.is_html,
            Err(err) => r.status == STATUS_INTERNAL_SERVER_ERROR && r.body@ == render_failure_body(
                err@,
            ) && !r.is_html,
        },
{
    match rendered {
        Ok(html) => Reply { status: STATUS_OK, body: html, is_html: true },
        Err(err) => {
            let mut body = String::from_str("Failed to render template. Error: ");
            body.append(err.as_str());
            Reply { status: STATUS_INTERNAL_SERVER_ERROR, body, is_html: false }
        },
    }
}

} // verus!
