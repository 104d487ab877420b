//! The HTTP clients, one for each proxy.
use crate::text::{optional_string, same_text};
use reqwest::Client;
use vstd::prelude::*;

verus! {

/// An HTTP client, of `reqwest`.
#[verifier::external_type_specification]
#[verifier::external_body]
pub struct ExClient(reqwest::Client);

/// The clients that have been built, by the proxy that they go through.
///
/// Accounts with the same proxy share a client; accounts with different proxies do not. No proxy
/// stands in the cache twice.
pub struct ClientCache {
    entries: Vec<(Option<String>, Client)>,
}

/// The proxy of an entry.
spec fn proxy_of(entry: (Option<String>, Client)) -> Option<Seq<char>> {
    optional_string(entry.0)
}

/// Whether no two entries are for the same proxy.
spec fn has_each_proxy_once(entries: Seq<(Option<String>, Client)>) -> bool {
    forall|i: int, j: int|
        0 <= i < j < entries.len() ==> proxy_of(#[trigger] entries[i]) != proxy_of(
            #[trigger] entries[j],
        )
}

/// The index of the entry for a proxy.
spec fn index_of(entries: Seq<(Option<String>, Client)>, proxy: Option<Seq<char>>) -> int {
    choose|i: int| 0 <= i < entries.len() && proxy_of(#[trigger] entries[i]) == proxy
}

/// Whether there is an entry for a proxy.
spec fn has_proxy(entries: Seq<(Option<String>, Client)>, proxy: Option<Seq<char>>) -> bool {
    exists|i: int| 0 <= i < entries.len() && proxy_of(#[trigger] entries[i]) == proxy
}

/// The clients in a list of entries.
spec fn clients_in(entries: Seq<(Option<String>, Client)>) -> Map<Option<Seq<char>>, Client> {
    Map::new(
        |proxy: Option<Seq<char>>| has_proxy(entries, proxy),
        |proxy: Option<Seq<char>>| entries[index_of(entries, proxy)].1,
    )
}

/// The client that goes through a proxy, if there is one among the clients.
pub open spec fn client_in(
    clients: Map<Option<Seq<char>>, Client>,
    proxy: Option<Seq<char>>,
) -> Option<Client> {
    if clients.contains_key(proxy) {
        Some(clients[proxy])
    } else {
        None
    }
}

/// The clients after an account with a proxy needed one. Where there is none for the proxy, one is
/// built, and kept if it could be built: `built` is what building gives.
pub open spec fn after_need(
    clients: Map<Option<Seq<char>>, Client>,
    proxy: Option<Seq<char>>,
    built: Option<Client>,
) -> Map<Option<Seq<char>>, Client> {
    match (client_in(clients, proxy), built) {
        (None, Some(client)) => clients.insert(proxy, client),
        _ => clients,
    }
}

/// Whether two proxies are the same.
fn same_proxy(a: &Option<String>, b: &Option<String>) -> (same: bool)
    ensures
        same == (optional_string(*a) == optional_string(*b)),
{
    match (a, b) {
        (Some(x), Some(y)) => same_text(x.as_str(), y.as_str()),
        (None, None) => true,
        _ => false,
    }
}

impl View for ClientCache {
    type V = Map<Option<Seq<char>>, Client>;

    closed spec fn view(&self) -> Map<Option<Seq<char>>, Client> {
        clients_in(self.entries@)
    }
}

impl ClientCache {
    #[verifier::type_invariant]
    spec fn no_proxy_is_there_twice(self) -> bool {
        has_each_proxy_once(self.entries@)
    }

    /// A cache without a client.
    pub fn new() -> (cache: Self)
        ensures
            cache@ == Map::<Option<Seq<char>>, Client>::empty(),
    {
        let cache = ClientCache { entries: Vec::new() };
        assert(cache@ =~= Map::<Option<Seq<char>>, Client>::empty());
        cache
    }

    /// Where the entry for a proxy stands, if there is one.
    fn position(&self, proxy: &Option<String>) -> (found: Option<usize>)
        ensures
            match found {
                Some(at) => at < self.entries.len() && proxy_of(self.entries@[at as int])
                    == optional_string(*proxy),
                None => !has_proxy(self.entries@, optional_string(*proxy)),
            },
    {
        for at in 0..self.entries.len()
            invariant
                forall|i: int|
                    0 <= i < at ==> proxy_of(#[trigger] self.entries@[i]) != optional_string(
                        *proxy,
                    ),
        {
            if same_proxy(&self.entries[at].0, proxy) {
                return Some(at);
            }
        }
        None
    }

    /// The client that goes through a proxy, if one has been built.
    pub fn get(&self, proxy: &Option<String>) -> (client: Option<&Client>)
        ensures
            match client {
                Some(c) => client_in(self@, optional_string(*proxy)) == Some(*c),
                None => client_in(self@, optional_string(*proxy)) is None,
            },
    {
        proof {
            use_type_invariant(self);
        }
        match self.position(proxy) {
            Some(at) => {
                proof {
                    lemma_index_of(self.entries@, at as int);
                }
                Some(&self.entries[at].1)
            },
            None => None,
        }
    }

    /// Keeps the client that goes through a proxy, in place of the one kept before if there is one.
    pub fn insert(&mut self, proxy: Option<String>, client: Client)
        ensures
            final(self)@ == old(self)@.insert(optional_string(proxy), client),
    {
        proof {
            use_type_invariant(&*self);
        }
        let at = self.position(&proxy);
        let mut entries: Vec<(Option<String>, Client)> = Vec::new();
        std::mem::swap(&mut entries, &mut self.entries);
        let ghost before = entries@;
        let ghost entry = (proxy, client);
        match at {
            Some(i) => {
                entries.set(i, (proxy, client));
                proof {
                    lemma_replaced(before, i as int, entry);
                }
            },
            None => {
                entries.push((proxy, client));
                proof {
                    lemma_added(before, entry);
                }
            },
        }
        self.entries = entries;
    }
}

/// The entry for a proxy is the only one.
proof fn lemma_index_of(entries: Seq<(Option<String>, Client)>, at: int)
    requires
        has_each_proxy_once(entries),
        0 <= at < entries.len(),
    ensures
        has_proxy(entries, proxy_of(entries[at])),
        index_of(entries, proxy_of(entries[at])) == at,
{
    let found = index_of(entries, proxy_of(entries[at]));
    assert(proxy_of(entries[found]) == proxy_of(entries[at]));
}

/// An entry in the place of another one for the same proxy.
proof fn lemma_replaced(
    entries: Seq<(Option<String>, Client)>,
    at: int,
    entry: (Option<String>, Client),
)
    requires
        has_each_proxy_once(entries),
        0 <= at < entries.len(),
        proxy_of(entries[at]) == proxy_of(entry),
    ensures
        has_each_proxy_once(entries.update(at, entry)),
        clients_in(entries.update(at, entry)) == clients_in(entries).insert(
            proxy_of(entry),
            entry.1,
        ),
{
    let after = entries.update(at, entry);
    assert forall|i: int| 0 <= i < after.len() implies proxy_of(#[trigger] after[i]) == proxy_of(
        entries[i],
    ) by {}
    assert forall|i: int, j: int| 0 <= i < j < after.len() implies proxy_of(#[trigger] after[i])
        != proxy_of(#[trigger] after[j]) by {
        assert(proxy_of(entries[i]) != proxy_of(entries[j]));
    }
    lemma_index_of(after, at);
    assert forall|proxy: Option<Seq<char>>|
        has_proxy(after, proxy) == (has_proxy(entries, proxy) || proxy == proxy_of(entry)) by {
        if has_proxy(entries, proxy) {
            let i = index_of(entries, proxy);
            assert(proxy_of(after[i]) == proxy);
        }
        if has_proxy(after, proxy) {
            let i = index_of(after, proxy);
            assert(proxy_of(entries[i]) == proxy);
        }
    }
    assert forall|proxy: Option<Seq<char>>|
        has_proxy(entries, proxy) && proxy != proxy_of(entry) implies #[trigger] clients_in(
        after,
    )[proxy] == clients_in(entries)[proxy] by {
        let i = index_of(entries, proxy);
        assert(proxy_of(entries[i]) == proxy);
        assert(proxy_of(after[i]) == proxy);
        lemma_index_of(after, i);
    }
    assert(clients_in(after) =~= clients_in(entries).insert(proxy_of(entry), entry.1));
}

/// An entry for a proxy that had none.
proof fn lemma_added(entries: Seq<(Option<String>, Client)>, entry: (Option<String>, Client))
    requires
        has_each_proxy_once(entries),
        !has_proxy(entries, proxy_of(entry)),
    ensures
        has_each_proxy_once(entries.push(entry)),
        clients_in(entries.push(entry)) == clients_in(entries).insert(proxy_of(entry), entry.1),
{
    let after = entries.push(entry);
    assert forall|i: int, j: int| 0 <= i < j < after.len() implies proxy_of(#[trigger] after[i])
        != proxy_of(#[trigger] after[j]) by {
        assert(after[i] == entries[i]);
        if j < entries.len() {
            assert(after[j] == entries[j]);
        }
    }
    lemma_index_of(after, entries.len() as int);
    assert forall|proxy: Option<Seq<char>>|
        has_proxy(after, proxy) == (has_proxy(entries, proxy) || proxy == proxy_of(entry)) by {
        if has_proxy(entries, proxy) {
            let i = index_of(entries, proxy);
            assert(after[i] == entries[i]);
        }
        if has_proxy(after, proxy) && proxy != proxy_of(entry) {
            let i = index_of(after, proxy);
            assert(after[i] == entries[i]);
        }
    }
    assert forall|proxy: Option<Seq<char>>|
        has_proxy(entries, proxy) && proxy != proxy_of(entry) implies #[trigger] clients_in(
        after,
    )[proxy] == clients_in(entries)[proxy] by {
        let i = index_of(entries, proxy);
        assert(after[i] == entries[i]);
        lemma_index_of(after, i);
    }
    assert(clients_in(after) =~= clients_in(entries).insert(proxy_of(entry), entry.1));
}

/// An account with a proxy that needs a client, and what building one gives if it comes to that.
pub ghost struct Need {
    pub proxy: Option<Seq<char>>,
    pub built: Option<Client>,
}

/// The clients after a history of needs.
pub open spec fn clients_after(
    clients: Map<Option<Seq<char>>, Client>,
    needs: Seq<Need>,
) -> Map<Option<Seq<char>>, Client>
    decreases needs.len(),
{
    if needs.len() == 0 {
        clients
    } else {
        after_need(
            clients_after(clients, needs.drop_last()),
            needs.last().proxy,
            needs.last().built,
        )
    }
}

/// How many clients were built and kept for a proxy over a history of needs.
pub open spec fn clients_built(
    clients: Map<Option<Seq<char>>, Client>,
    needs: Seq<Need>,
    proxy: Option<Seq<char>>,
) -> nat
    decreases needs.len(),
{
    if needs.len() == 0 {
        0
    } else {
        let earlier = clients_built(clients, needs.drop_last(), proxy);
        if needs.last().proxy == proxy && needs.last().built is Some && client_in(
            clients_after(clients, needs.drop_last()),
            proxy,
        ) is None {
            earlier + 1
        } else {
            earlier
        }
    }
}

/// Over any history, at most one client is built for each proxy, and none where there was one to
/// begin with. Who needs a client gets that one: it was built for the very proxy, or it was there
/// to begin with.
pub proof fn law_one_client_for_each_proxy(
    clients: Map<Option<Seq<char>>, Client>,
    needs: Seq<Need>,
    proxy: Option<Seq<char>>,
)
    ensures
        clients_built(clients, needs, proxy) == if client_in(clients, proxy) is None && client_in(
            clients_after(clients, needs),
            proxy,
        ) is Some {
            1nat
        } else {
            0nat
        },
        client_in(clients, proxy) is Some ==> client_in(clients_after(clients, needs), proxy)
            == client_in(clients, proxy),
        client_in(clients, proxy) is None ==> match client_in(
            clients_after(clients, needs),
            proxy,
        ) {
            Some(client) => exists|i: int|
                0 <= i < needs.len() && (#[trigger] needs[i]).proxy == proxy && needs[i].built
                    == Some(client),
            None => forall|i: int|
                0 <= i < needs.len() && (#[trigger] needs[i]).proxy == proxy ==> needs[i].built
                    is None,
        },
    decreases needs.len(),
{
    if needs.len() > 0 {
        let init = needs.drop_last();
        law_one_client_for_each_proxy(clients, init, proxy);
        if client_in(clients, proxy) is None {
            match client_in(clients_after(clients, init), proxy) {
                Some(client) => {
                    let i = choose|i: int|
                        0 <= i < init.len() && (#[trigger] init[i]).proxy == proxy && init[i].built
                            == Some(client);
                    assert(needs[i] == init[i]);
                },
                None => {
                    assert(needs[needs.len() - 1] == needs.last());
                    assert forall|i: int|
                        0 <= i < needs.len() - 1 && (
                        #[trigger] needs[i]).proxy == proxy implies needs[i].built is None by {
                        assert(needs[i] == init[i]);
                    }
                },
            }
        }
    }
}

/// A client is kept for good: whoever needs one for its proxy later gets the same.
pub proof fn law_clients_are_kept_for_good(
    clients: Map<Option<Seq<char>>, Client>,
    earlier: Seq<Need>,
    later: Seq<Need>,
    proxy: Option<Seq<char>>,
)
    requires
        client_in(clients_after(clients, earlier), proxy) is Some,
    ensures
        client_in(clients_after(clients_after(clients, earlier), later), proxy) == client_in(
            clients_after(clients, earlier),
            proxy,
        ),
{
    law_one_client_for_each_proxy(clients_after(clients, earlier), later, proxy);
}

/// A client that could not be built leaves the clients as they were, so that the next account with
/// the proxy has one built again. A need for one proxy changes nothing for another.
pub proof fn law_clients_are_shared_by_proxy(
    clients: Map<Option<Seq<char>>, Client>,
    proxy: Option<Seq<char>>,
    built: Option<Client>,
    other: Option<Seq<char>>,
)
    requires
        other != proxy,
    ensures
        after_need(clients, proxy, None) == clients,
        client_in(clients, proxy) is None ==> client_in(after_need(clients, proxy, built), proxy)
            == built,
        client_in(after_need(clients, proxy, built), other) == client_in(clients, other),
{
}

/// A client is found for a proxy exactly where one is kept for it, and it is that one.
pub proof fn law_clients_are_found_by_proxy(
    clients: Map<Option<Seq<char>>, Client>,
    proxy: Option<Seq<char>>,
)
    ensures
        client_in(clients, proxy) is Some <==> clients.dom().contains(proxy),
        client_in(clients, proxy) matches Some(client) ==> client == clients[proxy],
{
}

} // verus!
