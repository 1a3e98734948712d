//! Desktop notifications requested through the steop API. This build has no
//! desktop: showing one always fails, and the endpoint answers 501.
use vstd::prelude::*;

use crate::json::{jv_members, lemma_jv_members, Json, JsonV};
use crate::mailbox::opt_view;

verus! {

/// A notification to show.
pub struct NotificationRequest {
    pub title: String,
    pub body: String,
    pub subtitle: Option<String>,
    pub sound: bool,
}

/// Prepares notifications once at startup; nothing to prepare without a desktop.
pub fn init() {
}

/// `notifications unavailable in headless build`.
pub open spec fn headless_error() -> Seq<char> {
    "notifications unavailable in headless build"@
}

/// Shows a notification; without a desktop it always fails.
pub fn show(req: &NotificationRequest) -> (r: Result<(), String>)
    ensures
        r matches Err(e) && e@ == headless_error(),
{
    Err(String::from_str("notifications unavailable in headless build"))
}

/// The notification for a request: its title (`Steop` when absent), its body
/// (empty when absent), subtitle and sound.
pub fn notification_from(title: Option<String>, body: Option<String>, subtitle: Option<String>, sound: bool) -> (r: NotificationRequest)
    ensures
        r.title@ == (match title {
            Some(t) => t@,
            None => "Steop"@,
        }),
        r.body@ == (match body {
            Some(b) => b@,
            None => Seq::<char>::empty(),
        }),
        opt_view(r.subtitle) == opt_view(subtitle),
        r.sound == sound,
{
    NotificationRequest {
        title: match title {
            Some(t) => t,
            None => String::from_str("Steop"),
        },
        body: match body {
            Some(b) => b,
            None => String::new(),
        },
        subtitle,
        sound,
    }
}

/// `{"error": message}`.
pub open spec fn error_body(message: Seq<char>) -> JsonV {
    JsonV::Object(seq![("error"@, JsonV::Str(message))])
}

/// The body `{"error": message}` that the steop API answers errors with.
pub fn error_body_of(message: String) -> (r: Json)
    ensures
        r@ == error_body(message@),
{
    let ghost mv = message@;
    let mut m: Vec<(String, Json)> = Vec::new();
    m.push((String::from_str("error"), Json::Str(message)));
    proof {
        lemma_jv_members(m@);
    }
    let r = Json::Object(m);
    assert(jv_members(m@) =~= seq![("error"@, JsonV::Str(mv))]);
    r
}

/// The reply to a notify request in this build: 501 with
/// `{"error": "notify unavailable in headless mode"}`.
pub fn notify_reply() -> (r: (u16, Json))
    ensures
        r.0 == 501,
        r.1@ == error_body("notify unavailable in headless mode"@),
{
    (501, error_body_of(String::from_str("notify unavailable in headless mode")))
}

/// The reply once a notification was shown (204 with `{}`) or failed (500 with the error).
pub fn shown_reply(outcome: Result<(), String>) -> (r: (u16, Json))
    ensures
        match outcome {
            Ok(_) => r.0 == 204 && r.1@ == JsonV::Object(Seq::empty()),
            Err(e) => r.0 == 500 && r.1@ == error_body(e@),
        },
{
    match outcome {
        Ok(_) => {
            let r = Json::Object(Vec::new());
            proof {
                assert(jv_members(Seq::<(String, Json)>::empty()) =~= Seq::empty());
            }
            (204, r)
        },
        Err(e) => (500, error_body_of(e)),
    }
}

} // verus!
