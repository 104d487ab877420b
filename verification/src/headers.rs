//! The headers of upstream requests.
use crate::endpoint::{
    assistant_url_of, domain, domain_of, law_services_share_the_domain, mcp_url_of,
};
use crate::json::document_text_at;
use crate::provider::{CallContext, Config, KiroProvider};
use crate::request::agent_mode_of;
use crate::retry::CallKind;
use crate::text::chars_of;
use reqwest::header::{HeaderMap, HeaderValue, InvalidHeaderValue};
use vstd::prelude::*;

verus! {

/// The headers of a request, of `reqwest`.
#[verifier::external_type_specification]
#[verifier::external_body]
#[verifier::reject_recursive_types(T)]
pub struct ExHeaderMap<T>(reqwest::header::HeaderMap<T>);

/// The value of a header, of `reqwest`.
#[verifier::external_type_specification]
#[verifier::external_body]
pub struct ExHeaderValue(reqwest::header::HeaderValue);

/// What `HeaderValue::from_str` reports on text that is no header value.
#[verifier::external_type_specification]
#[verifier::external_body]
pub struct ExInvalidHeaderValue(reqwest::header::InvalidHeaderValue);

/// The headers that a map holds, as pairs of a name in lower case and a text, in the order in
/// which the map is walked.
pub uninterp spec fn header_entries(headers: HeaderMap) -> Seq<(Seq<char>, Seq<char>)>;

/// The text of a header value.
pub uninterp spec fn header_text(value: HeaderValue) -> Seq<char>;

/// Whether `text` can be the value of a header: it has no control character but the tab.
pub open spec fn is_header_text(text: Seq<char>) -> bool {
    forall|i: int| 0 <= i < text.len() ==> is_header_char(#[trigger] text[i])
}

/// Whether `c` can stand in the value of a header.
pub open spec fn is_header_char(c: char) -> bool {
    c == '\t' || (c as u32 >= 32 && c as u32 != 127)
}

/// Whether `name` is a name of up to 64 lower case letters, digits and hyphens.
pub open spec fn is_plain_header_name(name: Seq<char>) -> bool {
    0 < name.len() <= 64 && forall|i: int|
        0 <= i < name.len() ==> {
            ||| 'a' as u32 <= #[trigger] name[i] as u32 <= 'z' as u32
            ||| '0' as u32 <= name[i] as u32 <= '9' as u32
            ||| name[i] == '-'
        }
}

/// Whether a header of that name is among the entries.
pub open spec fn has_header(entries: Seq<(Seq<char>, Seq<char>)>, name: Seq<char>) -> bool {
    exists|i: int| 0 <= i < entries.len() && (#[trigger] entries[i]).0 == name
}

/// Calls `HeaderMap::new`. The contract claims that the map is empty.
#[verifier::external_body]
fn no_headers() -> (headers: HeaderMap)
    ensures
        header_entries(headers) == Seq::<(Seq<char>, Seq<char>)>::empty(),
{
    HeaderMap::new()
}

/// Calls `HeaderValue::from_str`. The contract claims that it takes exactly the texts without a
/// control character other than the tab, and that the value holds the text.
#[verifier::external_body]
fn header_value(text: &str) -> (value: Result<HeaderValue, InvalidHeaderValue>)
    ensures
        match value {
            Ok(v) => is_header_text(text@) && header_text(v) == text@,
            Err(_) => !is_header_text(text@),
        },
{
    HeaderValue::from_str(text)
}

/// Calls `HeaderMap::insert` with a name that the map does not hold. The contract claims that the
/// header then comes last in the map and that the others stay as they are. The bound on the
/// number of headers is far below the one at which the call panics.
#[verifier::external_body]
fn insert_header(headers: &mut HeaderMap, name: &'static str, value: HeaderValue)
    requires
        is_plain_header_name(name@),
        !has_header(header_entries(*old(headers)), name@),
        header_entries(*old(headers)).len() < 100,
    ensures
        header_entries(*final(headers)) == header_entries(*old(headers)).push(
            (name@, header_text(value)),
        ),
{
    headers.insert(name, value);
}

/// Whether `text` can be the value of a header.
pub fn fits_header(text: &str) -> (fits: bool)
    ensures
        fits == is_header_text(text@),
{
    let chars = chars_of(text);
    for i in 0..chars.len()
        invariant
            chars@ == text@,
            forall|j: int| 0 <= j < i ==> is_header_char(#[trigger] chars@[j]),
    {
        let c = chars[i];
        if !(c == '\t' || (c as u32 >= 32 && c as u32 != 127)) {
            assert(!is_header_char(text@[i as int]));
            return false;
        }
    }
    true
}

/// Adds a header to a map.
fn add_header(headers: &mut HeaderMap, name: &'static str, text: &str)
    requires
        is_header_text(text@),
        is_plain_header_name(name@),
        !has_header(header_entries(*old(headers)), name@),
        header_entries(*old(headers)).len() < 100,
    ensures
        header_entries(*final(headers)) == header_entries(*old(headers)).push((name@, text@)),
{
    match header_value(text) {
        Ok(value) => insert_header(headers, name, value),
        Err(_) => {},
    }
}

/// The names of all the headers are in order, and no two are the same.
proof fn lemma_names()
    ensures
        is_plain_header_name("content-type"@) && "content-type"@.len() == 12,
        is_plain_header_name("x-amzn-codewhisperer-optout"@) && "x-amzn-codewhisperer-optout"@.len()
            == 27,
        is_plain_header_name("x-amzn-kiro-agent-mode"@) && "x-amzn-kiro-agent-mode"@.len() == 22,
        is_plain_header_name("x-amz-user-agent"@) && "x-amz-user-agent"@.len() == 16,
        is_plain_header_name("user-agent"@) && "user-agent"@.len() == 10,
        is_plain_header_name("host"@) && "host"@.len() == 4,
        is_plain_header_name("amz-sdk-invocation-id"@) && "amz-sdk-invocation-id"@.len() == 21,
        is_plain_header_name("amz-sdk-request"@) && "amz-sdk-request"@.len() == 15,
        is_plain_header_name("authorization"@) && "authorization"@.len() == 13,
{
    reveal_strlit("content-type");
    reveal_strlit("x-amzn-codewhisperer-optout");
    reveal_strlit("x-amzn-kiro-agent-mode");
    reveal_strlit("x-amz-user-agent");
    reveal_strlit("user-agent");
    reveal_strlit("host");
    reveal_strlit("amz-sdk-invocation-id");
    reveal_strlit("amz-sdk-request");
    reveal_strlit("authorization");
}

/// The fixed texts can stand in headers.
proof fn lemma_fixed_texts()
    ensures
        is_header_text("application/json"@),
        is_header_text("true"@),
        is_header_text("vibe"@),
        is_header_text("spectask"@),
        is_header_text("attempt=1; max=3"@),
        is_header_text("Bearer "@),
        is_header_text("-"@),
        is_header_text("q."@),
        is_header_text(".amazonaws.com"@),
        is_header_text("aws-sdk-js/1.0.27 KiroIDE-"@),
        is_header_text("aws-sdk-js/1.0.27 ua/2.1 os/"@),
        is_header_text(" lang/js md/nodejs#"@),
        is_header_text(" api/codewhispererstreaming#1.0.27 m/E KiroIDE-"@),
{
    reveal_strlit("application/json");
    reveal_strlit("true");
    reveal_strlit("vibe");
    reveal_strlit("spectask");
    reveal_strlit("attempt=1; max=3");
    reveal_strlit("Bearer ");
    reveal_strlit("-");
    reveal_strlit("q.");
    reveal_strlit(".amazonaws.com");
    reveal_strlit("aws-sdk-js/1.0.27 KiroIDE-");
    reveal_strlit("aws-sdk-js/1.0.27 ua/2.1 os/");
    reveal_strlit(" lang/js md/nodejs#");
    reveal_strlit(" api/codewhispererstreaming#1.0.27 m/E KiroIDE-");
}

/// How requests name the client and the machine.
pub open spec fn client_tag(kiro_version: Seq<char>, machine_id: Seq<char>) -> Seq<char> {
    kiro_version + "-"@ + machine_id
}

/// The value of the header `x-amz-user-agent`.
pub open spec fn sdk_agent_of(config: Config, machine_id: Seq<char>) -> Seq<char> {
    "aws-sdk-js/1.0.27 KiroIDE-"@ + client_tag(config.kiro_version@, machine_id)
}

/// The value of the header `user-agent`.
pub open spec fn user_agent_of(config: Config, machine_id: Seq<char>) -> Seq<char> {
    "aws-sdk-js/1.0.27 ua/2.1 os/"@ + config.system_version@ + " lang/js md/nodejs#"@
        + config.node_version@ + " api/codewhispererstreaming#1.0.27 m/E KiroIDE-"@ + client_tag(
        config.kiro_version@,
        machine_id,
    )
}

/// The headers of a request to the assistant, in their order.
pub open spec fn api_header_list(
    config: Config,
    ctx: CallContext,
    machine_id: Seq<char>,
    mode: Seq<char>,
    invocation_id: Seq<char>,
) -> Seq<(Seq<char>, Seq<char>)> {
    seq![
        ("content-type"@, "application/json"@),
        ("x-amzn-codewhisperer-optout"@, "true"@),
        ("x-amzn-kiro-agent-mode"@, mode),
        ("x-amz-user-agent"@, sdk_agent_of(config, machine_id)),
        ("user-agent"@, user_agent_of(config, machine_id)),
        ("host"@, domain_of(ctx.api_region@)),
        ("amz-sdk-invocation-id"@, invocation_id),
        ("amz-sdk-request"@, "attempt=1; max=3"@),
        ("authorization"@, "Bearer "@ + ctx.token@),
    ]
}

/// The headers of a request to a tool, in their order.
pub open spec fn mcp_header_list(
    config: Config,
    ctx: CallContext,
    machine_id: Seq<char>,
    invocation_id: Seq<char>,
) -> Seq<(Seq<char>, Seq<char>)> {
    seq![
        ("content-type"@, "application/json"@),
        ("x-amz-user-agent"@, sdk_agent_of(config, machine_id)),
        ("user-agent"@, user_agent_of(config, machine_id)),
        ("host"@, domain_of(ctx.api_region@)),
        ("amz-sdk-invocation-id"@, invocation_id),
        ("amz-sdk-request"@, "attempt=1; max=3"@),
        ("authorization"@, "Bearer "@ + ctx.token@),
    ]
}

/// Whether everything that goes into the headers of a request of this account can stand in a
/// header. Without a machine there are no headers for anything to go into.
pub open spec fn header_ready(config: Config, ctx: CallContext) -> bool {
    ctx.machine_id matches Some(machine_id) ==> {
        &&& is_header_text(machine_id@)
        &&& is_header_text(config.kiro_version@)
        &&& is_header_text(config.system_version@)
        &&& is_header_text(config.node_version@)
        &&& is_header_text(ctx.api_region@)
        &&& is_header_text(ctx.token@)
    }
}

/// Two texts that can stand in a header can do so one after the other.
broadcast proof fn lemma_header_text_joins(a: Seq<char>, b: Seq<char>)
    requires
        is_header_text(a),
        is_header_text(b),
    ensures
        #[trigger] is_header_text(a + b),
{
    assert forall|i: int| 0 <= i < (a + b).len() implies is_header_char(#[trigger] (a + b)[i]) by {
        if i < a.len() {
            assert((a + b)[i] == a[i]);
        } else {
            assert((a + b)[i] == b[i - a.len()]);
        }
    }
}

/// The value of the header `x-amz-user-agent`.
fn sdk_agent(config: &Config, machine_id: &str) -> (text: String)
    requires
        is_header_text(config.kiro_version@),
        is_header_text(machine_id@),
    ensures
        text@ == sdk_agent_of(*config, machine_id@),
        is_header_text(text@),
{
    broadcast use lemma_header_text_joins;

    proof {
        lemma_fixed_texts();
    }
    let mut text = "aws-sdk-js/1.0.27 KiroIDE-".to_owned();
    text.append(config.kiro_version.as_str());
    text.append("-");
    text.append(machine_id);
    assert(text@ =~= sdk_agent_of(*config, machine_id@));
    text
}

/// The value of the header `user-agent`.
fn user_agent(config: &Config, machine_id: &str) -> (text: String)
    requires
        is_header_text(config.kiro_version@),
        is_header_text(config.system_version@),
        is_header_text(config.node_version@),
        is_header_text(machine_id@),
    ensures
        text@ == user_agent_of(*config, machine_id@),
        is_header_text(text@),
{
    broadcast use lemma_header_text_joins;

    proof {
        lemma_fixed_texts();
    }
    let mut text = "aws-sdk-js/1.0.27 ua/2.1 os/".to_owned();
    text.append(config.system_version.as_str());
    text.append(" lang/js md/nodejs#");
    text.append(config.node_version.as_str());
    text.append(" api/codewhispererstreaming#1.0.27 m/E KiroIDE-");
    text.append(config.kiro_version.as_str());
    text.append("-");
    text.append(machine_id);
    assert(text@ =~= user_agent_of(*config, machine_id@));
    text
}

/// Why the headers of a request could not be built.
#[derive(Debug, Clone, Copy, PartialEq, Eq, Structural)]
pub enum HeaderError {
    /// No machine could be made up for the account.
    MissingMachineId,
}

impl HeaderError {
    /// The message of the error.
    pub fn message(&self) -> (message: &'static str)
        ensures
            message@ == "无法生成 machine_id，请检查凭证配置"@,
    {
        "无法生成 machine_id，请检查凭证配置"
    }
}

/// The headers of a request to the assistant, with the agent mode and the number of the invocation
/// given.
pub fn api_headers(config: &Config, ctx: &CallContext, mode: &str, invocation_id: &str) -> (built:
    Result<HeaderMap, HeaderError>)
    requires
        header_ready(*config, *ctx),
        is_header_text(mode@),
        is_header_text(invocation_id@),
    ensures
        match built {
            Ok(headers) => ctx.machine_id matches Some(machine_id) && header_entries(headers)
                == api_header_list(*config, *ctx, machine_id@, mode@, invocation_id@),
            Err(error) => ctx.machine_id is None && error == HeaderError::MissingMachineId,
        },
{
    broadcast use lemma_header_text_joins;

    proof {
        lemma_names();
        lemma_fixed_texts();
    }
    let machine_id = match &ctx.machine_id {
        Some(machine_id) => machine_id,
        None => return Err(HeaderError::MissingMachineId),
    };
    let mut authorization = "Bearer ".to_owned();
    authorization.append(ctx.token.as_str());
    let mut headers = no_headers();
    add_header(&mut headers, "content-type", "application/json");
    add_header(&mut headers, "x-amzn-codewhisperer-optout", "true");
    add_header(&mut headers, "x-amzn-kiro-agent-mode", mode);
    add_header(&mut headers, "x-amz-user-agent", sdk_agent(config, machine_id).as_str());
    add_header(&mut headers, "user-agent", user_agent(config, machine_id).as_str());
    add_header(&mut headers, "host", domain(ctx.api_region.as_str()).as_str());
    add_header(&mut headers, "amz-sdk-invocation-id", invocation_id);
    add_header(&mut headers, "amz-sdk-request", "attempt=1; max=3");
    add_header(&mut headers, "authorization", authorization.as_str());
    assert(header_entries(headers) =~= api_header_list(
        *config,
        *ctx,
        machine_id@,
        mode@,
        invocation_id@,
    ));
    Ok(headers)
}

/// The headers of a request to a tool, with the number of the invocation given.
pub fn mcp_headers(config: &Config, ctx: &CallContext, invocation_id: &str) -> (built: Result<
    HeaderMap,
    HeaderError,
>)
    requires
        header_ready(*config, *ctx),
        is_header_text(invocation_id@),
    ensures
        match built {
            Ok(headers) => ctx.machine_id matches Some(machine_id) && header_entries(headers)
                == mcp_header_list(*config, *ctx, machine_id@, invocation_id@),
            Err(error) => ctx.machine_id is None && error == HeaderError::MissingMachineId,
        },
{
    broadcast use lemma_header_text_joins;

    proof {
        lemma_names();
        lemma_fixed_texts();
    }
    let machine_id = match &ctx.machine_id {
        Some(machine_id) => machine_id,
        None => return Err(HeaderError::MissingMachineId),
    };
    let mut authorization = "Bearer ".to_owned();
    authorization.append(ctx.token.as_str());
    let mut headers = no_headers();
    add_header(&mut headers, "content-type", "application/json");
    add_header(&mut headers, "x-amz-user-agent", sdk_agent(config, machine_id).as_str());
    add_header(&mut headers, "user-agent", user_agent(config, machine_id).as_str());
    add_header(&mut headers, "host", domain(ctx.api_region.as_str()).as_str());
    add_header(&mut headers, "amz-sdk-invocation-id", invocation_id);
    add_header(&mut headers, "amz-sdk-request", "attempt=1; max=3");
    add_header(&mut headers, "authorization", authorization.as_str());
    assert(header_entries(headers) =~= mcp_header_list(
        *config,
        *ctx,
        machine_id@,
        invocation_id@,
    ));
    Ok(headers)
}

/// Whether `c` is a hexadecimal digit in lower case.
pub open spec fn is_hex_digit(c: char) -> bool {
    '0' as u32 <= c as u32 <= '9' as u32 || 'a' as u32 <= c as u32 <= 'f' as u32
}

/// Whether `text` is a random UUID: 36 characters, hyphens at the four places where they belong,
/// hexadecimal digits in lower case at the others, of version 4 and of the standard variant.
pub open spec fn is_random_uuid(text: Seq<char>) -> bool {
    &&& text.len() == 36
    &&& forall|i: int|
        0 <= i < 36 ==> if i == 8 || i == 13 || i == 18 || i == 23 {
            #[trigger] text[i] == '-'
        } else {
            is_hex_digit(text[i])
        }
    &&& text[14] == '4'
    &&& text[19] == '8' || text[19] == '9' || text[19] == 'a' || text[19] == 'b'
}

/// Calls `Uuid::new_v4` and displays the result. The contract claims the form of the text; which
/// UUID it is, is left to chance.
#[verifier::external_body]
pub(crate) fn random_uuid() -> (text: String)
    ensures
        is_random_uuid(text@),
{
    uuid::Uuid::new_v4().to_string()
}

/// Whether `text` is a UUID that was drawn at random.
pub closed spec fn is_drawn_uuid(text: Seq<char>) -> bool {
    exists|drawn: String| #[trigger] call_ensures(random_uuid, (), drawn) && drawn@ == text
}

/// Draws a UUID.
fn draw_uuid() -> (text: String)
    ensures
        is_random_uuid(text@),
        is_drawn_uuid(text@),
{
    let draw = random_uuid;
    let text = draw();
    assert(call_ensures(random_uuid, (), text));
    text
}

impl KiroProvider {
    /// Whether everything that goes into the headers of a request of this account can stand in a
    /// header. Without a machine there are no headers for anything to go into.
    pub fn can_build_headers(&self, ctx: &CallContext) -> (can: bool)
        ensures
            can == header_ready(self.config, *ctx),
    {
        match &ctx.machine_id {
            Some(machine_id) => fits_header(machine_id.as_str()) && fits_header(
                self.config.kiro_version.as_str(),
            ) && fits_header(self.config.system_version.as_str()) && fits_header(
                self.config.node_version.as_str(),
            ) && fits_header(ctx.api_region.as_str()) && fits_header(ctx.token.as_str()),
            None => true,
        }
    }

    /// The headers of a request to the assistant. Each gets a new random number as its
    /// invocation's.
    pub fn build_headers(&self, ctx: &CallContext, request_body: &str) -> (built: Result<
        HeaderMap,
        HeaderError,
    >)
        requires
            header_ready(self.config, *ctx),
        ensures
            match built {
                Ok(headers) => ctx.machine_id matches Some(machine_id) && exists|id: Seq<char>| #[trigger]
                    is_random_uuid(id) && is_drawn_uuid(id) && header_entries(headers) == api_header_list(
                        self.config,
                        *ctx,
                        machine_id@,
                        agent_mode_of(request_body@),
                        id,
                    ),
                Err(error) => ctx.machine_id is None && error == HeaderError::MissingMachineId,
            },
    {
        proof {
            lemma_fixed_texts();
        }
        let mode = Self::extract_agent_task_type_from_request(request_body);
        let id = draw_uuid();
        api_headers(&self.config, ctx, mode, id.as_str())
    }

    /// The headers of a request to a tool. Each gets a new random number as its invocation's.
    pub fn build_mcp_headers(&self, ctx: &CallContext) -> (built: Result<HeaderMap, HeaderError>)
        requires
            header_ready(self.config, *ctx),
        ensures
            match built {
                Ok(headers) => ctx.machine_id matches Some(machine_id) && exists|id: Seq<char>| #[trigger]
                    is_random_uuid(id) && is_drawn_uuid(id) && header_entries(headers) == mcp_header_list(
                        self.config,
                        *ctx,
                        machine_id@,
                        id,
                    ),
                Err(error) => ctx.machine_id is None && error == HeaderError::MissingMachineId,
            },
    {
        let id = draw_uuid();
        mcp_headers(&self.config, ctx, id.as_str())
    }
}

/// The headers of a request of that kind, in their order.
pub open spec fn header_list(
    kind: CallKind,
    config: Config,
    ctx: CallContext,
    machine_id: Seq<char>,
    request_body: Seq<char>,
    invocation_id: Seq<char>,
) -> Seq<(Seq<char>, Seq<char>)> {
    match kind {
        CallKind::Api { .. } => api_header_list(
            config,
            ctx,
            machine_id,
            agent_mode_of(request_body),
            invocation_id,
        ),
        CallKind::Mcp => mcp_header_list(config, ctx, machine_id, invocation_id),
    }
}

impl KiroProvider {
    /// The headers of a request of that kind. Each gets a new random number as its invocation's.
    pub fn request_headers(&self, kind: CallKind, ctx: &CallContext, request_body: &str) -> (built:
        Result<HeaderMap, HeaderError>)
        requires
            header_ready(self.config, *ctx),
        ensures
            match built {
                Ok(headers) => ctx.machine_id matches Some(machine_id) && exists|id: Seq<char>| #[trigger]
                    is_random_uuid(id) && is_drawn_uuid(id) && header_entries(headers) == header_list(
                        kind,
                        self.config,
                        *ctx,
                        machine_id@,
                        request_body@,
                        id,
                    ),
                Err(error) => ctx.machine_id is None && error == HeaderError::MissingMachineId,
            },
    {
        match kind {
            CallKind::Api { .. } => self.build_headers(ctx, request_body),
            CallKind::Mcp => self.build_mcp_headers(ctx),
        }
    }
}

/// Whatever the account and the request, no header asks for the connection to be closed: it is kept
/// for the next request.
pub proof fn law_connections_are_kept(
    config: Config,
    ctx: CallContext,
    machine_id: Seq<char>,
    mode: Seq<char>,
    invocation_id: Seq<char>,
)
    ensures
        !has_header(
            api_header_list(config, ctx, machine_id, mode, invocation_id),
            "connection"@,
        ),
        !has_header(mcp_header_list(config, ctx, machine_id, invocation_id), "connection"@),
{
    lemma_names();
    reveal_strlit("connection");
    reveal_strlit("user-agent");
    assert("connection"@[0] != "user-agent"@[0]);
}

/// Requests to tools have the headers of requests to the assistant, in the same order, but for the
/// two that only the assistant reads.
pub proof fn law_tools_get_the_same_headers(
    config: Config,
    ctx: CallContext,
    machine_id: Seq<char>,
    mode: Seq<char>,
    invocation_id: Seq<char>,
)
    ensures
        api_header_list(config, ctx, machine_id, mode, invocation_id) == mcp_header_list(
            config,
            ctx,
            machine_id,
            invocation_id,
        ).insert(1, ("x-amzn-codewhisperer-optout"@, "true"@)).insert(
            2,
            ("x-amzn-kiro-agent-mode"@, mode),
        ),
{
    assert(api_header_list(config, ctx, machine_id, mode, invocation_id) =~= mcp_header_list(
        config,
        ctx,
        machine_id,
        invocation_id,
    ).insert(1, ("x-amzn-codewhisperer-optout"@, "true"@)).insert(
        2,
        ("x-amzn-kiro-agent-mode"@, mode),
    ));
}

/// The host that a request names is the one that it is sent to: it is the domain of the account's
/// region, and the address of the request is made of it. No other header is named `host`.
pub proof fn law_hosts_are_where_requests_go(
    kind: CallKind,
    config: Config,
    ctx: CallContext,
    machine_id: Seq<char>,
    request_body: Seq<char>,
    invocation_id: Seq<char>,
    i: int,
)
    requires
        0 <= i < header_list(kind, config, ctx, machine_id, request_body, invocation_id).len(),
    ensures
        ({
            let list = header_list(kind, config, ctx, machine_id, request_body, invocation_id);
            &&& has_header(list, "host"@)
            &&& list[i].0 == "host"@ ==> {
                &&& list[i].1 == "q."@ + ctx.api_region@ + ".amazonaws.com"@
                &&& kind is Api ==> assistant_url_of(ctx.api_region@) == "https://"@ + list[i].1
                    + "/generateAssistantResponse"@
                &&& kind is Mcp ==> mcp_url_of(ctx.api_region@) == "https://"@ + list[i].1
                    + "/mcp"@
            }
        }),
{
    let list = header_list(kind, config, ctx, machine_id, request_body, invocation_id);
    lemma_names();
    law_services_share_the_domain(ctx.api_region@);
    if kind is Api {
        assert(list[5].0 == "host"@);
    } else {
        assert(list[3].0 == "host"@);
    }
}

/// Headers do not depend on the region of the configuration: two configurations that name the same
/// versions give the same headers for an account.
pub proof fn law_headers_are_the_accounts(
    kind: CallKind,
    config: Config,
    other: Config,
    ctx: CallContext,
    machine_id: Seq<char>,
    request_body: Seq<char>,
    invocation_id: Seq<char>,
)
    requires
        config.kiro_version@ == other.kiro_version@,
        config.system_version@ == other.system_version@,
        config.node_version@ == other.node_version@,
    ensures
        header_list(kind, config, ctx, machine_id, request_body, invocation_id) == header_list(
            kind,
            other,
            ctx,
            machine_id,
            request_body,
            invocation_id,
        ),
{
}

/// What requests say of themselves: that they carry JSON, who makes them with which versions, and
/// on whose behalf. Requests to the assistant say the mode that their body declares.
pub proof fn law_headers_say_who_asks(
    config: Config,
    ctx: CallContext,
    machine_id: Seq<char>,
    request_body: Seq<char>,
    invocation_id: Seq<char>,
)
    ensures
        ({
            let api = CallKind::Api { streaming: true };
            let plain = CallKind::Api { streaming: false };
            let list = header_list(api, config, ctx, machine_id, request_body, invocation_id);
            let tool = header_list(
                CallKind::Mcp,
                config,
                ctx,
                machine_id,
                request_body,
                invocation_id,
            );
            let declared = document_text_at(
                request_body,
                seq!["conversationState"@, "agentTaskType"@],
            );
            let client = "KiroIDE-"@ + config.kiro_version@ + "-"@ + machine_id;
            &&& list.len() == 9
            &&& tool.len() == 7
            &&& header_list(plain, config, ctx, machine_id, request_body, invocation_id) == list
            &&& list[0] == ("content-type"@, "application/json"@)
            &&& list[1] == ("x-amzn-codewhisperer-optout"@, "true"@)
            &&& list[2].0 == "x-amzn-kiro-agent-mode"@
            &&& list[2].1 == if declared == Some("spectask"@) {
                "spectask"@
            } else {
                "vibe"@
            }
            &&& list[3] == ("x-amz-user-agent"@, "aws-sdk-js/1.0.27 "@ + client)
            &&& list[4] == (
                "user-agent"@,
                "aws-sdk-js/1.0.27 ua/2.1 os/"@ + config.system_version@ + " lang/js md/nodejs#"@
                    + config.node_version@ + " api/codewhispererstreaming#1.0.27 m/E "@ + client,
            )
            &&& list[5].0 == "host"@
            &&& list[6] == ("amz-sdk-invocation-id"@, invocation_id)
            &&& list[7] == ("amz-sdk-request"@, "attempt=1; max=3"@)
            &&& list[8] == ("authorization"@, "Bearer "@ + ctx.token@)
            &&& tool[0] == list[0]
            &&& forall|i: int| 1 <= i < 7 ==> #[trigger] tool[i] == list[i + 2]
        }),
{
    reveal_strlit("KiroIDE-");
    reveal_strlit("aws-sdk-js/1.0.27 ");
    reveal_strlit("aws-sdk-js/1.0.27 KiroIDE-");
    reveal_strlit(" api/codewhispererstreaming#1.0.27 m/E ");
    reveal_strlit(" api/codewhispererstreaming#1.0.27 m/E KiroIDE-");
    assert("aws-sdk-js/1.0.27 KiroIDE-"@ =~= "aws-sdk-js/1.0.27 "@ + "KiroIDE-"@);
    assert(" api/codewhispererstreaming#1.0.27 m/E KiroIDE-"@
        =~= " api/codewhispererstreaming#1.0.27 m/E "@ + "KiroIDE-"@);
    let client = "KiroIDE-"@ + config.kiro_version@ + "-"@ + machine_id;
    assert(sdk_agent_of(config, machine_id) =~= "aws-sdk-js/1.0.27 "@ + client);
    assert(user_agent_of(config, machine_id) =~= "aws-sdk-js/1.0.27 ua/2.1 os/"@
        + config.system_version@ + " lang/js md/nodejs#"@ + config.node_version@
        + " api/codewhispererstreaming#1.0.27 m/E "@ + client);
}

/// The mode is sent as it is given, whatever it is, and changes no other header; so is the number of
/// the invocation.
pub proof fn law_modes_are_sent_as_given(
    config: Config,
    ctx: CallContext,
    machine_id: Seq<char>,
    mode: Seq<char>,
    other_mode: Seq<char>,
    invocation_id: Seq<char>,
    other_id: Seq<char>,
)
    ensures
        api_header_list(config, ctx, machine_id, mode, invocation_id) == api_header_list(
            config,
            ctx,
            machine_id,
            other_mode,
            other_id,
        ).update(2, ("x-amzn-kiro-agent-mode"@, mode)).update(
            6,
            ("amz-sdk-invocation-id"@, invocation_id),
        ),
{
    assert(api_header_list(config, ctx, machine_id, mode, invocation_id) =~= api_header_list(
        config,
        ctx,
        machine_id,
        other_mode,
        other_id,
    ).update(2, ("x-amzn-kiro-agent-mode"@, mode)).update(
        6,
        ("amz-sdk-invocation-id"@, invocation_id),
    ));
}

/// A character can stand in a header unless it is a control character other than the tab.
pub proof fn law_header_characters(c: char)
    ensures
        is_header_char(c) <==> !((c as u32) < 9 || 9 < (c as u32) < 32 || c as u32 == 127),
{
}

/// A text can stand in a header exactly where each of its characters can.
pub proof fn law_header_texts(text: Seq<char>, c: char)
    ensures
        is_header_text(Seq::empty()),
        is_header_text(text.push(c)) <==> is_header_text(text) && is_header_char(c),
{
    let longer = text.push(c);
    if is_header_text(longer) {
        assert(is_header_char(longer[text.len() as int]));
        assert forall|i: int| 0 <= i < text.len() implies is_header_char(#[trigger] text[i]) by {
            assert(is_header_char(longer[i]));
        }
    }
}

/// Headers can be built exactly where each of the six texts that go into them can stand in one, and
/// where there is no machine: then there is nothing to build.
pub proof fn law_texts_that_fit_make_headers(config: Config, ctx: CallContext)
    ensures
        header_ready(config, ctx) <==> match ctx.machine_id {
            Some(machine_id) => is_header_text(machine_id@) && is_header_text(config.kiro_version@)
                && is_header_text(config.system_version@) && is_header_text(config.node_version@)
                && is_header_text(ctx.api_region@) && is_header_text(ctx.token@),
            None => true,
        },
{
}

/// What is drawn as a UUID is what `random_uuid` gives.
pub(crate) proof fn law_drawn_uuids_are_random(text: Seq<char>)
    ensures
        is_drawn_uuid(text) <==> exists|drawn: String| #[trigger]
            call_ensures(random_uuid, (), drawn) && drawn@ == text,
        is_drawn_uuid(text) ==> is_random_uuid(text),
{
}

} // verus!
