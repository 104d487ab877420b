//! The provider: what it knows of its configuration and its accounts, and the calls that it
//! begins.
use crate::clients::{after_need, client_in, ClientCache};
use crate::concurrency::{
    lemma_slots_after_joined, rest_of, slots_after, ConcurrencyController, ConcurrencyMonitor,
    ConcurrencySnapshot, SlotStep, Slots, MAX_PERMITS,
};
use crate::endpoint::{
    assistant_url, assistant_url_of, domain, domain_of, mcp_url, mcp_url_of,
};
use crate::json::document_text_at;
use crate::request::{continuation_path, model_path};
use crate::retry::{retry_budget, retry_budget_of, Action, CallKind, UpstreamCall};
use crate::settings::{concurrency_setting, initial_concurrency_config};
use crate::text::{optional_string, optional_text};
use reqwest::Client;
use vstd::prelude::*;

verus! {

/// What the provider needs of the configuration.
pub struct Config {
    /// The region of the upstream, where an account has none of its own.
    pub api_region: String,
    /// The version of the client that requests name.
    pub kiro_version: String,
    /// The operating system that requests name.
    pub system_version: String,
    /// The version of the runtime that requests name.
    pub node_version: String,
}

/// The account that a request is made for.
pub struct CallContext {
    /// The number of the account.
    pub id: u64,
    /// The region of the upstream for the account.
    pub api_region: String,
    /// The machine that requests of the account name, if one could be made up for it.
    pub machine_id: Option<String>,
    /// The access token of the account.
    pub token: String,
}

/// A call that has begun, and what accounts are selected for it by.
pub struct PlannedCall {
    /// The model that the request names. Calls of tools are for no model.
    pub model: Option<String>,
    /// The conversation that the request continues.
    pub continuation_id: Option<String>,
    /// The call.
    pub call: UpstreamCall,
    /// The actions that the call asks for to begin with.
    pub actions: Vec<Action>,
}

impl PlannedCall {
    /// Whether this is a call of that kind for a request, with so many accounts.
    pub open spec fn is_for(
        self,
        kind: CallKind,
        request_body: Seq<char>,
        total_credentials: nat,
        tracks_rpm: bool,
    ) -> bool {
        &&& optional_string(self.model) == match kind {
            CallKind::Api { .. } => document_text_at(request_body, model_path()),
            CallKind::Mcp => None,
        }
        &&& optional_string(self.continuation_id) == document_text_at(
            request_body,
            continuation_path(),
        )
        &&& (self.call, self.actions@) == UpstreamCall::begun(
            kind,
            retry_budget_of(total_credentials) as usize,
            tracks_rpm,
        )
    }
}

/// The provider of upstream calls.
pub struct KiroProvider {
    /// The configuration.
    pub config: Config,
    /// The proxy of accounts that have none of their own.
    pub global_proxy: Option<String>,
    /// The clients that have been built.
    pub clients: ClientCache,
    /// Who may send requests at once.
    pub concurrency: ConcurrencyController,
    /// Whether the requests served are counted for their accounts.
    pub tracks_rpm: bool,
}

impl KiroProvider {
    /// A provider without a proxy. `client` goes through none; the last two arguments are the
    /// values of the variables `KIRO_CONCURRENT_PER_ACCOUNT` and `KIRO_MAX_CONCURRENT`.
    pub fn new(
        config: Config,
        client: Client,
        account_count: usize,
        per_account: Option<&str>,
        absolute: Option<&str>,
    ) -> (provider: Self)
        requires
            concurrency_setting(
                account_count as nat,
                optional_text(per_account),
                optional_text(absolute),
            ).0 <= MAX_PERMITS,
        ensures
            provider.is_new(
                config,
                None,
                client,
                concurrency_setting(
                    account_count as nat,
                    optional_text(per_account),
                    optional_text(absolute),
                ),
            ),
    {
        Self::with_proxy(config, None, client, account_count, per_account, absolute)
    }

    /// Whether this is a new provider, given the limit on requests in flight, whether it is fixed,
    /// and the limit for each account.
    pub open spec fn is_new(
        self,
        config: Config,
        proxy: Option<Seq<char>>,
        client: Client,
        limits: (nat, bool, nat),
    ) -> bool {
        &&& self.config == config
        &&& optional_string(self.global_proxy) == proxy
        &&& self.clients@ == Map::<Option<Seq<char>>, Client>::empty().insert(proxy, client)
        &&& self.concurrency.wf()
        &&& self.concurrency@ == (Slots {
            max: limits.0,
            in_flight: 0,
            waiting: 0,
            per_account: limits.2 as usize,
            absolute_lock: limits.1,
        })
        &&& !self.tracks_rpm
    }

    /// A provider with a proxy for the accounts that have none of their own. `client` goes through
    /// it; the last two arguments are the values of the variables `KIRO_CONCURRENT_PER_ACCOUNT`
    /// and `KIRO_MAX_CONCURRENT`.
    pub fn with_proxy(
        config: Config,
        proxy: Option<String>,
        client: Client,
        account_count: usize,
        per_account: Option<&str>,
        absolute: Option<&str>,
    ) -> (provider: Self)
        requires
            concurrency_setting(
                account_count as nat,
                optional_text(per_account),
                optional_text(absolute),
            ).0 <= MAX_PERMITS,
        ensures
            provider.is_new(
                config,
                optional_string(proxy),
                client,
                concurrency_setting(
                    account_count as nat,
                    optional_text(per_account),
                    optional_text(absolute),
                ),
            ),
    {
        let (max, locked, per) = initial_concurrency_config(account_count, per_account, absolute);
        let mut clients = ClientCache::new();
        clients.insert(proxy.clone(), client);
        KiroProvider {
            config,
            global_proxy: proxy,
            clients,
            concurrency: ConcurrencyController::new(max, per, locked),
            tracks_rpm: false,
        }
    }

    /// The provider, with the requests served counted for their accounts.
    pub fn with_rpm_tracker(self) -> (provider: Self)
        ensures
            provider == (KiroProvider { tracks_rpm: true, ..self }),
    {
        let mut provider = self;
        provider.track_rpm();
        provider
    }

    /// From now on, has the requests served counted for their accounts.
    pub fn track_rpm(&mut self)
        ensures
            *final(self) == (KiroProvider { tracks_rpm: true, ..*old(self) }),
    {
        self.tracks_rpm = true;
    }

    /// The provider once a handle is given up that left the controller as it is given.
    pub open spec fn handed_back(self, controller: ConcurrencyController) -> KiroProvider {
        KiroProvider { concurrency: controller, ..self }
    }

    /// A handle on who may send requests at once.
    pub fn concurrency_monitor(&mut self) -> (monitor: ConcurrencyMonitor<'_>)
        ensures
            *monitor.controller == old(self).concurrency,
            *final(self) == old(self).handed_back(*final(monitor.controller)),
    {
        ConcurrencyMonitor::on(&mut self.concurrency)
    }

    /// A reading of how many requests are in flight and waiting.
    pub fn concurrency_snapshot(&self) -> (snapshot: ConcurrencySnapshot)
        requires
            self.concurrency.wf(),
        ensures
            snapshot.max == self.concurrency@.max,
            snapshot.available == self.concurrency@.available(),
            snapshot.in_use == rest_of(self.concurrency@.max, self.concurrency@.available()),
            snapshot.waiting == self.concurrency@.waiting,
    {
        self.concurrency.snapshot()
    }

    /// The client for accounts with that proxy, if one has been built.
    pub fn client_for(&self, proxy: &Option<String>) -> (client: Option<&Client>)
        ensures
            match client {
                Some(c) => client_in(self.clients@, optional_string(*proxy)) == Some(*c),
                None => client_in(self.clients@, optional_string(*proxy)) is None,
            },
    {
        self.clients.get(proxy)
    }

    /// Keeps a client that was built for accounts with that proxy, unless one has been kept already.
    pub fn keep_client(&mut self, proxy: Option<String>, client: Client)
        ensures
            final(self).clients@ == after_need(
                old(self).clients@,
                optional_string(proxy),
                Some(client),
            ),
            *final(self) == (KiroProvider { clients: final(self).clients, ..*old(self) }),
    {
        if self.clients.get(&proxy).is_none() {
            self.clients.insert(proxy, client);
        }
    }

    /// The address of the assistant.
    pub fn base_url(&self) -> (url: String)
        ensures
            url@ == assistant_url_of(self.config.api_region@),
    {
        assistant_url(self.config.api_region.as_str())
    }

    /// The address of the tools.
    pub fn mcp_url(&self) -> (url: String)
        ensures
            url@ == mcp_url_of(self.config.api_region@),
    {
        mcp_url(self.config.api_region.as_str())
    }

    /// The domain of the upstream.
    pub fn base_domain(&self) -> (name: String)
        ensures
            name@ == domain_of(self.config.api_region@),
    {
        domain(self.config.api_region.as_str())
    }

    /// The address of the assistant for an account.
    pub fn base_url_for(ctx: &CallContext) -> (url: String)
        ensures
            url@ == assistant_url_of(ctx.api_region@),
    {
        assistant_url(ctx.api_region.as_str())
    }

    /// The address of the tools for an account.
    pub fn mcp_url_for(ctx: &CallContext) -> (url: String)
        ensures
            url@ == mcp_url_of(ctx.api_region@),
    {
        mcp_url(ctx.api_region.as_str())
    }

    /// The domain of the upstream for an account.
    pub fn base_domain_for(ctx: &CallContext) -> (name: String)
        ensures
            name@ == domain_of(ctx.api_region@),
    {
        domain(ctx.api_region.as_str())
    }

    /// The address that a call of that kind goes to, for an account.
    pub fn request_url(kind: CallKind, ctx: &CallContext) -> (url: String)
        ensures
            url@ == match kind {
                CallKind::Api { .. } => assistant_url_of(ctx.api_region@),
                CallKind::Mcp => mcp_url_of(ctx.api_region@),
            },
    {
        match kind {
            CallKind::Api { .. } => Self::base_url_for(ctx),
            CallKind::Mcp => Self::mcp_url_for(ctx),
        }
    }

    /// Begins a call of the assistant with a plain response.
    pub fn call_api(&self, request_body: &str, total_credentials: usize) -> (planned: PlannedCall)
        ensures
            planned.is_for(
                CallKind::Api { streaming: false },
                request_body@,
                total_credentials as nat,
                self.tracks_rpm,
            ),
    {
        self.call_api_with_retry(request_body, false, total_credentials)
    }

    /// Begins a call of the assistant with a streamed response.
    pub fn call_api_stream(&self, request_body: &str, total_credentials: usize) -> (planned:
        PlannedCall)
        ensures
            planned.is_for(
                CallKind::Api { streaming: true },
                request_body@,
                total_credentials as nat,
                self.tracks_rpm,
            ),
    {
        self.call_api_with_retry(request_body, true, total_credentials)
    }

    /// Begins a call of a tool.
    pub fn call_mcp(&self, request_body: &str, total_credentials: usize) -> (planned: PlannedCall)
        ensures
            planned.is_for(
                CallKind::Mcp,
                request_body@,
                total_credentials as nat,
                self.tracks_rpm,
            ),
    {
        self.call_mcp_with_retry(request_body, total_credentials)
    }

    /// Begins a call of the assistant.
    pub fn call_api_with_retry(
        &self,
        request_body: &str,
        is_stream: bool,
        total_credentials: usize,
    ) -> (planned: PlannedCall)
        ensures
            planned.is_for(
                CallKind::Api { streaming: is_stream },
                request_body@,
                total_credentials as nat,
                self.tracks_rpm,
            ),
    {
        let (call, actions) = UpstreamCall::begin(
            CallKind::Api { streaming: is_stream },
            retry_budget(total_credentials),
            self.tracks_rpm,
        );
        PlannedCall {
            model: Self::extract_model_from_request(request_body),
            continuation_id: Self::extract_continuation_id_from_request(request_body),
            call,
            actions,
        }
    }

    /// Begins a call of a tool.
    pub fn call_mcp_with_retry(&self, request_body: &str, total_credentials: usize) -> (planned:
        PlannedCall)
        ensures
            planned.is_for(
                CallKind::Mcp,
                request_body@,
                total_credentials as nat,
                self.tracks_rpm,
            ),
    {
        let (call, actions) = UpstreamCall::begin(
            CallKind::Mcp,
            retry_budget(total_credentials),
            self.tracks_rpm,
        );
        PlannedCall {
            model: None,
            continuation_id: Self::extract_continuation_id_from_request(request_body),
            call,
            actions,
        }
    }
}

/// The provider after a number of handles on it, given how each left the controller.
pub open spec fn after_handles(
    provider: KiroProvider,
    left: Seq<ConcurrencyController>,
) -> KiroProvider
    decreases left.len(),
{
    if left.len() == 0 {
        provider
    } else {
        after_handles(provider, left.drop_last()).handed_back(left.last())
    }
}

/// All handles share one state with the provider. Each finds the controller as the one before it
/// left it, and the first finds the provider's own; the provider goes on with what the last one
/// left. A handle that changes nothing on the controller changes nothing at all, and none changes
/// anything else of the provider.
pub proof fn law_handles_share_one_state(
    provider: KiroProvider,
    left: Seq<ConcurrencyController>,
    n: int,
)
    requires
        0 <= n <= left.len(),
    ensures
        after_handles(provider, left.take(n)).concurrency == if n == 0 {
            provider.concurrency
        } else {
            left[n - 1]
        },
        after_handles(provider, left.take(n)).handed_back(
            after_handles(provider, left.take(n)).concurrency,
        ) == after_handles(provider, left.take(n)),
        after_handles(provider, left.take(n)) == (KiroProvider {
            concurrency: after_handles(provider, left.take(n)).concurrency,
            ..provider
        }),
    decreases n,
{
    if n > 0 {
        assert(left.take(n).drop_last() =~= left.take(n - 1));
        law_handles_share_one_state(provider, left, n - 1);
    }
}

/// The steps of several histories, one history after another.
pub open spec fn joined(histories: Seq<Seq<SlotStep>>) -> Seq<SlotStep>
    decreases histories.len(),
{
    if histories.len() == 0 {
        Seq::empty()
    } else {
        joined(histories.drop_last()) + histories.last()
    }
}

/// What is done through several handles, and by the provider between them, comes to what would be
/// done through one: the slots that the provider gives out follow all of it.
pub proof fn law_handles_act_as_one(
    provider: KiroProvider,
    left: Seq<ConcurrencyController>,
    histories: Seq<Seq<SlotStep>>,
)
    requires
        left.len() == histories.len(),
        forall|i: int|
            0 <= i < left.len() ==> (#[trigger] left[i])@ == slots_after(
                after_handles(provider, left.take(i)).concurrency@,
                histories[i],
            ),
    ensures
        after_handles(provider, left).concurrency@ == slots_after(
            provider.concurrency@,
            joined(histories),
        ),
    decreases left.len(),
{
    if left.len() > 0 {
        let init = left.drop_last();
        let last = left.len() - 1;
        assert(left.take(last) =~= init);
        assert forall|i: int| 0 <= i < init.len() implies (#[trigger] init[i])@ == slots_after(
            after_handles(provider, init.take(i)).concurrency@,
            histories.drop_last()[i],
        ) by {
            assert(init[i] == left[i]);
            assert(init.take(i) =~= left.take(i));
        }
        law_handles_act_as_one(provider, init, histories.drop_last());
        assert(left[last] == left.last());
        lemma_slots_after_joined(
            provider.concurrency@,
            joined(histories.drop_last()),
            histories.last(),
        );
    }
}

/// How calls are planned: a call of the assistant, streamed or not, is for the model that its body
/// names, and a call of a tool for none; each is for the conversation that its body continues. It
/// has three attempts for each account and at most nine, and nothing of it has happened yet.
pub proof fn law_calls_are_planned_by_their_bodies(
    planned: PlannedCall,
    kind: CallKind,
    request_body: Seq<char>,
    total_credentials: nat,
    tracks_rpm: bool,
)
    requires
        planned.is_for(kind, request_body, total_credentials, tracks_rpm),
    ensures
        kind is Api ==> optional_string(planned.model) == document_text_at(
            request_body,
            seq!["conversationState"@, "currentMessage"@, "userInputMessage"@, "modelId"@],
        ),
        kind is Mcp ==> planned.model is None,
        optional_string(planned.continuation_id) == document_text_at(
            request_body,
            seq!["conversationState"@, "agentContinuationId"@],
        ),
        planned.call.kind == kind,
        planned.call.tracks_rpm == tracks_rpm,
        planned.call.attempt == 0,
        total_credentials <= 3 ==> planned.call.max_retries == 3 * total_credentials,
        total_credentials > 3 ==> planned.call.max_retries == 9,
        total_credentials > 0 ==> planned.actions@ == seq![Action::Attempt],
{
}

/// A new provider has its configuration and proxy, one client for that proxy and no other, no
/// request in flight or waiting, and the limits that it was given. It counts no requests.
pub proof fn law_new_providers(
    provider: KiroProvider,
    config: Config,
    proxy: Option<Seq<char>>,
    client: Client,
    limits: (nat, bool, nat),
    other: Option<Seq<char>>,
)
    requires
        provider.is_new(config, proxy, client, limits),
        limits.2 <= usize::MAX,
        other != proxy,
    ensures
        provider.config == config,
        optional_string(provider.global_proxy) == proxy,
        client_in(provider.clients@, proxy) == Some(client),
        client_in(provider.clients@, other) is None,
        provider.concurrency.wf(),
        provider.concurrency@.max == limits.0,
        provider.concurrency@.absolute_lock == limits.1,
        provider.concurrency@.per_account == limits.2,
        provider.concurrency@.in_flight == 0,
        provider.concurrency@.waiting == 0,
        provider.concurrency@.available() == limits.0,
        !provider.tracks_rpm,
{
}

} // verus!
