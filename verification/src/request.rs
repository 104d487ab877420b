//! What the provider reads in request bodies and in the bodies of error responses.
use crate::json::{
    document_text, document_text_at, parse_value, parsed_members, path_texts, text_below,
};
use crate::provider::KiroProvider;
use crate::text::{
    contains_text, law_occurrences, occurs_in, optional_string, optional_text, same_text,
};
use vstd::prelude::*;

verus! {

/// How the upstream names an exhausted monthly quota.
pub const MONTHLY_REQUEST_COUNT: &'static str = "MONTHLY_REQUEST_COUNT";

/// Where a request names its model.
pub open spec fn model_path() -> Seq<Seq<char>> {
    seq!["conversationState"@, "currentMessage"@, "userInputMessage"@, "modelId"@]
}

/// Where a request names the type of its agent task.
pub open spec fn task_type_path() -> Seq<Seq<char>> {
    seq!["conversationState"@, "agentTaskType"@]
}

/// Where a request names the conversation that it continues.
pub open spec fn continuation_path() -> Seq<Seq<char>> {
    seq!["conversationState"@, "agentContinuationId"@]
}

/// The agent mode that goes with the task type that a request declares.
pub open spec fn agent_mode_for(declared: Option<Seq<char>>) -> Seq<char> {
    if declared == Some("spectask"@) {
        "spectask"@
    } else {
        "vibe"@
    }
}

/// The agent mode of a request.
pub open spec fn agent_mode_of(request_body: Seq<char>) -> Seq<char> {
    agent_mode_for(document_text_at(request_body, task_type_path()))
}

/// Whether an error response says that the monthly quota is used up, given whether its body
/// mentions the quota's name and what its `reason` and its `error.reason` are.
pub open spec fn monthly_limit_reported(
    mentioned: bool,
    reason: Option<Seq<char>>,
    nested_reason: Option<Seq<char>>,
) -> bool {
    mentioned || reason == Some(MONTHLY_REQUEST_COUNT@) || nested_reason == Some(
        MONTHLY_REQUEST_COUNT@,
    )
}

/// Whether the body of an error response says that the monthly quota is used up.
pub open spec fn is_monthly_limit(body: Seq<char>) -> bool {
    monthly_limit_reported(
        occurs_in(MONTHLY_REQUEST_COUNT@, body),
        document_text_at(body, seq!["reason"@]),
        document_text_at(body, seq!["error"@, "reason"@]),
    )
}

/// The agent mode that goes with the task type that a request declares: `spectask` for that very
/// type, `vibe` for any other and where none is declared.
pub fn agent_mode(declared: Option<&str>) -> (mode: &'static str)
    ensures
        mode@ == agent_mode_for(optional_text(declared)),
{
    match declared {
        Some(task) => if same_text(task, "spectask") {
            "spectask"
        } else {
            "vibe"
        },
        None => "vibe",
    }
}

/// Whether an error response says that the monthly quota is used up, given whether its body
/// mentions the quota's name and what its `reason` and its `error.reason` are.
pub fn reports_monthly_limit(
    mentioned: bool,
    reason: Option<&str>,
    nested_reason: Option<&str>,
) -> (reported: bool)
    ensures
        reported == monthly_limit_reported(
            mentioned,
            optional_text(reason),
            optional_text(nested_reason),
        ),
{
    if mentioned {
        return true;
    }
    if let Some(text) = reason {
        if same_text(text, MONTHLY_REQUEST_COUNT) {
            return true;
        }
    }
    if let Some(text) = nested_reason {
        if same_text(text, MONTHLY_REQUEST_COUNT) {
            return true;
        }
    }
    false
}

impl KiroProvider {
    /// The model that a request names, in `conversationState.currentMessage.userInputMessage.modelId`.
    pub fn extract_model_from_request(request_body: &str) -> (model: Option<String>)
        ensures
            optional_string(model) == document_text_at(request_body@, model_path()),
    {
        let path = ["conversationState", "currentMessage", "userInputMessage", "modelId"];
        assert(path_texts(path@) =~= model_path());
        document_text(request_body, &path)
    }

    /// The agent mode of a request, from `conversationState.agentTaskType`.
    pub fn extract_agent_task_type_from_request(request_body: &str) -> (mode: &'static str)
        ensures
            mode@ == agent_mode_of(request_body@),
    {
        let path = ["conversationState", "agentTaskType"];
        assert(path_texts(path@) =~= task_type_path());
        match document_text(request_body, &path) {
            Some(task) => agent_mode(Some(task.as_str())),
            None => agent_mode(None),
        }
    }

    /// The conversation that a request continues, in `conversationState.agentContinuationId`.
    pub fn extract_continuation_id_from_request(request_body: &str) -> (id: Option<String>)
        ensures
            optional_string(id) == document_text_at(request_body@, continuation_path()),
    {
        let path = ["conversationState", "agentContinuationId"];
        assert(path_texts(path@) =~= continuation_path());
        document_text(request_body, &path)
    }

    /// Whether the body of an error response says that the monthly quota is used up: it mentions
    /// the quota's name, or it is a JSON document with that name as its `reason` or its
    /// `error.reason`.
    pub fn is_monthly_request_limit(body: &str) -> (limited: bool)
        ensures
            limited == is_monthly_limit(body@),
    {
        if contains_text(body, MONTHLY_REQUEST_COUNT) {
            return true;
        }
        match parse_value(body) {
            Ok(value) => {
                let outer = ["reason"];
                let nested = ["error", "reason"];
                assert(path_texts(outer@) =~= seq!["reason"@]);
                assert(path_texts(nested@) =~= seq!["error"@, "reason"@]);
                reports_monthly_limit(
                    false,
                    text_below(&value, &outer),
                    text_below(&value, &nested),
                )
            },
            Err(_) => false,
        }
    }
}

/// Of a body that is no JSON document nothing is read: it names no model and no conversation, its
/// agent mode is `vibe`, and it tells of the quota only by mentioning its name.
pub proof fn law_other_bodies_name_nothing(body: Seq<char>)
    requires
        parsed_members(body) is None,
    ensures
        document_text_at(body, model_path()) is None,
        document_text_at(body, continuation_path()) is None,
        agent_mode_of(body) == "vibe"@,
        is_monthly_limit(body) == occurs_in(MONTHLY_REQUEST_COUNT@, body),
{
}

/// Whatever a request declares, its agent mode is one of two.
pub proof fn law_two_agent_modes(declared: Option<Seq<char>>)
    ensures
        agent_mode_for(declared) == "vibe"@ || agent_mode_for(declared) == "spectask"@,
        agent_mode_for(declared) == "spectask"@ <==> declared == Some("spectask"@),
{
    reveal_strlit("vibe");
    reveal_strlit("spectask");
    assert("vibe"@.len() != "spectask"@.len());
}

/// When the monthly quota is reported used up: the body mentions the quota's name, or it is a
/// document that gives the name as its `reason`, or as the `reason` of its `error`.
pub proof fn law_monthly_limits(body: Seq<char>)
    ensures
        is_monthly_limit(body) <==> {
            ||| occurs_in("MONTHLY_REQUEST_COUNT"@, body)
            ||| document_text_at(body, seq!["reason"@]) == Some("MONTHLY_REQUEST_COUNT"@)
            ||| document_text_at(body, seq!["error"@, "reason"@]) == Some(
                "MONTHLY_REQUEST_COUNT"@,
            )
        },
{
}

/// Whatever stands around it, the quota's name is found in a body.
pub proof fn law_mentions_are_found(before: Seq<char>, after: Seq<char>)
    ensures
        is_monthly_limit(before + "MONTHLY_REQUEST_COUNT"@ + after),
{
    law_occurrences(before, MONTHLY_REQUEST_COUNT@, after);
}

/// A request is in the mode `spectask` exactly where it declares that task type.
pub proof fn law_agent_modes_are_declared(body: Seq<char>)
    ensures
        agent_mode_of(body) == "spectask"@ <==> document_text_at(
            body,
            seq!["conversationState"@, "agentTaskType"@],
        ) == Some("spectask"@),
        agent_mode_of(body) == "vibe"@ <==> document_text_at(
            body,
            seq!["conversationState"@, "agentTaskType"@],
        ) != Some("spectask"@),
{
    law_two_agent_modes(document_text_at(body, seq!["conversationState"@, "agentTaskType"@]));
    reveal_strlit("vibe");
    reveal_strlit("spectask");
    assert("vibe"@.len() != "spectask"@.len());
}

/// Where requests name their model and the conversation that they continue.
pub proof fn law_where_requests_name_things()
    ensures
        model_path() == seq![
            "conversationState"@,
            "currentMessage"@,
            "userInputMessage"@,
            "modelId"@,
        ],
        continuation_path() == seq!["conversationState"@, "agentContinuationId"@],
{
}

} // verus!
