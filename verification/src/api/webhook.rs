//! What the webhook endpoint answers, and what it hands to the queue.
//!
//! The endpoint itself reads the request, waits for the queue to take the batch and sends
//! the answer; which batch and which answer is decided here.

use vstd::prelude::*;
use vstd::string::StringExecFns;
use vstd::utf8::decode_utf8;
use vstd::utf8::valid_utf8;
use actix_web::http::header::HeaderMap;
use crate::actions::matching_webhooks::evaluate;
use crate::actions::matching_webhooks::from_request_parts;
use crate::config::webhook_views;
use crate::config::Config;
use crate::config::Webhook;
use crate::config::WebhookView;
use crate::matchers::headers::header_entries;
use crate::text::texts;
use crate::text::utf8_text;

verus! {

/// The status of an answer that tells of a batch that was queued.
pub const STATUS_CREATED: u16 = 201;

/// The status of an answer to a request that is rejected.
pub const STATUS_BAD_REQUEST: u16 = 400;

/// The status of an answer to a request whose batch the queue did not take.
pub const STATUS_INTERNAL_SERVER_ERROR: u16 = 500;

/// An answer to a request.
#[derive(Debug)]
pub struct HttpReply {
    pub status: u16,
    /// The value of the `Content-Type` header, where the answer sets one.
    pub content_type: Option<String>,
    pub body: String,
}

/// An answer as specifications see it.
pub struct HttpReplyView {
    pub status: u16,
    pub content_type: Option<Seq<char>>,
    pub body: Seq<char>,
}

impl View for HttpReply {
    type V = HttpReplyView;

    open spec fn view(&self) -> HttpReplyView {
        HttpReplyView {
            status: self.status,
            content_type: match self.content_type {
                Some(content_type) => Some(content_type@),
                None => None,
            },
            body: self.body@,
        }
    }
}

/// What is to be done with a request.
#[derive(Debug)]
pub enum RequestPlan {
    /// Answer at once. Nothing is queued.
    Reply(HttpReply),
    /// Hand the batch, which is not empty, to the queue, waiting for room where it is
    /// full; then say with [`reply_after_enqueue`] how that went.
    Enqueue { batch: Vec<Webhook>, reply: HttpReply },
}

/// A plan as specifications see it.
pub enum RequestPlanView {
    Reply(HttpReplyView),
    Enqueue { batch: Seq<WebhookView>, reply: HttpReplyView },
}

impl View for RequestPlan {
    type V = RequestPlanView;

    open spec fn view(&self) -> RequestPlanView {
        match self {
            RequestPlan::Reply(reply) => RequestPlanView::Reply(reply@),
            RequestPlan::Enqueue { batch, reply } => RequestPlanView::Enqueue {
                batch: webhook_views(batch@),
                reply: reply@,
            },
        }
    }
}

/// The text that `serde_json` writes for the object whose one member `key` holds the
/// array of the strings `items`.
pub uninterp spec fn json_object_of_strings(key: Seq<char>, items: Seq<Seq<char>>) -> Seq<char>;

/// Builds, with `serde_json`, the object whose one member `key` holds the array of the
/// strings `items`, and calls `to_string` on it. Trusted: the text depends on the key
/// and the strings alone.
#[verifier::external_body]
fn write_json_object_of_strings(key: &str, items: &Vec<String>) -> (text: String)
    ensures
        text@ == json_object_of_strings(key@, texts(items@)),
{
    let mut object = serde_json::Map::new();
    object.insert(key.to_owned(), serde_json::Value::from(items.clone()));
    serde_json::Value::Object(object).to_string()
}

/// An answer of plain text.
pub open spec fn text_reply(status: u16, body: Seq<char>) -> HttpReplyView {
    HttpReplyView { status, content_type: None, body }
}

/// The answer to a request whose body is not UTF-8.
pub open spec fn invalid_body_reply() -> HttpReplyView {
    text_reply(STATUS_BAD_REQUEST, "Invalid body."@)
}

/// The answer to a request that could not be held against the rules.
pub open spec fn evaluation_failed_reply() -> HttpReplyView {
    text_reply(STATUS_BAD_REQUEST, "Could not get actions to execute from this request."@)
}

/// The answer to a request that matches no rule: it gives the body back.
pub open spec fn no_match_reply(body: Seq<char>) -> HttpReplyView {
    text_reply(STATUS_BAD_REQUEST, "Request matched no webhook.\nBody:\n"@ + body + "\n"@)
}

/// The answer to a request whose batch the queue did not take.
pub open spec fn queue_closed_reply() -> HttpReplyView {
    text_reply(STATUS_INTERNAL_SERVER_ERROR, "Could not send message to queue."@)
}

/// The names of the rules, in order.
pub open spec fn rule_names(rules: Seq<WebhookView>) -> Seq<Seq<char>> {
    rules.map_values(|rule: WebhookView| rule.name)
}

/// The answer that lists the rules of the batch that was queued.
pub open spec fn created_reply(names: Seq<Seq<char>>) -> HttpReplyView {
    HttpReplyView {
        status: STATUS_CREATED,
        content_type: Some("application/json"@),
        body: json_object_of_strings("matching_webhooks"@, names),
    }
}

/// What is to be done with a request, given its body and what its headers hold.
pub open spec fn plan_of(
    rules: Seq<WebhookView>,
    raw_body: Seq<u8>,
    entries: Map<Seq<char>, Seq<u8>>,
) -> RequestPlanView {
    if !valid_utf8(raw_body) {
        RequestPlanView::Reply(invalid_body_reply())
    } else {
        match evaluate(rules, decode_utf8(raw_body), entries) {
            Err(_) => RequestPlanView::Reply(evaluation_failed_reply()),
            Ok(batch) => if batch.len() > 0 {
                RequestPlanView::Enqueue { batch, reply: created_reply(rule_names(batch)) }
            } else {
                RequestPlanView::Reply(no_match_reply(decode_utf8(raw_body)))
            },
        }
    }
}

/// Makes the answer that lists the names of the rules that matched.
pub fn matched_names_reply(names: &Vec<String>) -> (reply: HttpReply)
    ensures
        reply@ == created_reply(texts(names@)),
{
    HttpReply {
        status: STATUS_CREATED,
        content_type: Some("application/json".to_owned()),
        body: write_json_object_of_strings("matching_webhooks", names),
    }
}

fn plain_reply(status: u16, body: String) -> (reply: HttpReply)
    ensures
        reply@ == text_reply(status, body@),
{
    HttpReply { status, content_type: None, body }
}

/// Decides what is to be done with a request: which answer it gets at once, or which
/// batch goes to the queue first.
pub fn webhook(body_bytes: Vec<u8>, headers: &HeaderMap, config: &Config) -> (plan: RequestPlan)
    ensures
        plan@ == plan_of(config@, body_bytes@, header_entries(*headers)),
{
    let ghost raw_body = body_bytes@;
    let body_as_string = match utf8_text(body_bytes) {
        None => {
            return RequestPlan::Reply(plain_reply(STATUS_BAD_REQUEST, "Invalid body.".to_owned()));
        },
        Some(body) => body,
    };
    let matching_webhooks = match from_request_parts(config, &body_as_string, headers) {
        Err(_) => {
            return RequestPlan::Reply(
                plain_reply(
                    STATUS_BAD_REQUEST,
                    "Could not get actions to execute from this request.".to_owned(),
                ),
            );
        },
        Ok(batch) => batch,
    };
    if matching_webhooks.len() > 0 {
        let mut matching_webhooks_names: Vec<String> = Vec::new();
        let mut i: usize = 0;
        while i < matching_webhooks.len()
            invariant
                i <= matching_webhooks.len(),
                texts(matching_webhooks_names@) == rule_names(
                    webhook_views(matching_webhooks@).take(i as int),
                ),
            decreases matching_webhooks.len() - i,
        {
            let ghost before = texts(matching_webhooks_names@);
            matching_webhooks_names.push(matching_webhooks[i].name.clone());
            proof {
                let views = webhook_views(matching_webhooks@);
                assert(views.take(i + 1) =~= views.take(i as int).push(views[i as int]));
                assert(texts(matching_webhooks_names@) =~= before.push(views[i as int].name));
                assert(rule_names(views.take(i + 1)) =~= rule_names(views.take(i as int)).push(
                    views[i as int].name,
                ));
            }
            i += 1;
        }
        proof {
            let views = webhook_views(matching_webhooks@);
            assert(views.take(i as int) =~= views);
        }
        let reply = matched_names_reply(&matching_webhooks_names);
        return RequestPlan::Enqueue { batch: matching_webhooks, reply };
    }
    let mut body = "Request matched no webhook.\nBody:\n".to_owned();
    body.append(body_as_string.as_str());
    body.append("\n");
    RequestPlan::Reply(plain_reply(STATUS_BAD_REQUEST, body))
}

/// The answer to a request once its batch was handed to the queue: the one that was
/// planned where the queue took the batch, an error where the queue is closed.
pub fn reply_after_enqueue(reply: HttpReply, enqueued: bool) -> (answer: HttpReply)
    ensures
        answer@ == if enqueued {
            reply@
        } else {
            queue_closed_reply()
        },
{
    if enqueued {
        reply
    } else {
        plain_reply(STATUS_INTERNAL_SERVER_ERROR, "Could not send message to queue.".to_owned())
    }
}

} // verus!
