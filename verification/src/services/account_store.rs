//! The account store: one account per client, created on first touch and
//! never destroyed, listed in ascending order of client id.

use crate::domain::user_account::UserAccount;
use dashmap::DashMap;
use vstd::prelude::*;
use vstd::seq_lib::to_multiset_contains;

verus! {

/// Declares `dashmap::DashMap` to the verifier as a type whose inside it
/// does not see.
#[verifier::external_type_specification]
#[verifier::external_body]
#[verifier::reject_recursive_types(K)]
#[verifier::reject_recursive_types(V)]
#[verifier::reject_recursive_types(S)]
pub struct ExDashMap<K, V, S>(DashMap<K, V, S>);

/// The key-value pairs a `DashMap` holds. The store never shares its map, so
/// the pairs change only through the calls below.
pub uninterp spec fn dash_map_entries(map: DashMap<u16, UserAccount>) -> Map<u16, UserAccount>;

/// The store before any client has been seen.
pub open spec fn no_accounts() -> Map<u16, UserAccount> {
    Map::empty()
}

/// The account stored under the key.
pub open spec fn account_of(entries: Map<u16, UserAccount>, client: u16) -> Option<UserAccount> {
    if entries.contains_key(client) {
        Some(entries[client])
    } else {
        None
    }
}

/// The entries once the client has an account: as they were where it had
/// one, with a fresh account added where it had none.
pub open spec fn opened(entries: Map<u16, UserAccount>, client: u16) -> Map<u16, UserAccount> {
    if entries.contains_key(client) {
        entries
    } else {
        entries.insert(client, UserAccount::spec_new(client))
    }
}

/// Every account is stored under its own client id.
pub open spec fn keyed_by_client(entries: Map<u16, UserAccount>) -> bool {
    forall|client: u16| #[trigger]
        entries.contains_key(client) ==> entries[client].client == client
}

/// The accounts of the store, each once, in strictly ascending order of
/// client id. There is exactly one such list: see
/// [`lemma_lists_accounts_unique`].
pub open spec fn lists_accounts(accounts: Seq<UserAccount>, entries: Map<u16, UserAccount>) -> bool {
    &&& forall|i: int, j: int|
        0 <= i < j < accounts.len() ==> (#[trigger] accounts[i]).client < (
        #[trigger] accounts[j]).client
    &&& forall|i: int|
        0 <= i < accounts.len() ==> entries.contains_pair(
            (#[trigger] accounts[i]).client,
            accounts[i],
        )
    &&& forall|client: u16| #[trigger]
        entries.contains_key(client) ==> exists|i: int|
            0 <= i < accounts.len() && (#[trigger] accounts[i]).client == client
}

/// Creates an empty map with `DashMap::new`.
#[verifier::external_body]
fn dash_map_new() -> (map: DashMap<u16, UserAccount>)
    ensures
        dash_map_entries(map) == no_accounts(),
{
    DashMap::new()
}

/// `DashMap::get`: the value stored for the key, if it is present.
#[verifier::external_body]
fn dash_map_get(map: &DashMap<u16, UserAccount>, client: u16) -> (account: Option<UserAccount>)
    ensures
        account == account_of(dash_map_entries(*map), client),
{
    map.get(&client).map(|entry| *entry)
}

/// `DashMap::entry` followed by `Entry::or_insert_with`: the value stored
/// for the key, after a fresh account has been stored for it where it had
/// none. It does not panic.
#[verifier::external_body]
fn dash_map_entry_or_insert_with(map: &mut DashMap<u16, UserAccount>, client: u16) -> (account:
    UserAccount)
    ensures
        dash_map_entries(*final(map)) == opened(dash_map_entries(*old(map)), client),
        account == dash_map_entries(*final(map))[client],
    no_unwind
{
    *map.entry(client).or_insert_with(|| UserAccount::new(client))
}

/// `DashMap::insert`: stores the value for the key and returns the value it
/// replaces, if any. It does not panic.
#[verifier::external_body]
fn dash_map_insert(map: &mut DashMap<u16, UserAccount>, client: u16, account: UserAccount) -> (replaced:
    Option<UserAccount>)
    ensures
        dash_map_entries(*final(map)) == dash_map_entries(*old(map)).insert(client, account),
        replaced == account_of(dash_map_entries(*old(map)), client),
    no_unwind
{
    map.insert(client, account)
}

/// `DashMap::iter`, collected: every pair of the map once, in an order that
/// the map does not promise.
#[verifier::external_body]
fn dash_map_iter(map: &DashMap<u16, UserAccount>) -> (pairs: Vec<(u16, UserAccount)>)
    ensures
        forall|i: int, j: int|
            0 <= i < j < pairs@.len() ==> (#[trigger] pairs@[i]).0 != (#[trigger] pairs@[j]).0,
        forall|i: int|
            0 <= i < pairs@.len() ==> dash_map_entries(*map).contains_pair(
                (#[trigger] pairs@[i]).0,
                pairs@[i].1,
            ),
        forall|client: u16| #[trigger]
            dash_map_entries(*map).contains_key(client) ==> exists|i: int|
                0 <= i < pairs@.len() && (#[trigger] pairs@[i]).0 == client,
{
    map.iter().map(|entry| (*entry.key(), *entry.value())).collect()
}

/// `sort_by_key` of slices, with the client id as the key: the same accounts,
/// ordered by client id.
#[verifier::external_body]
fn sort_by_client(accounts: &mut Vec<UserAccount>)
    ensures
        final(accounts)@.to_multiset() == old(accounts)@.to_multiset(),
        forall|i: int, j: int|
            0 <= i < j < final(accounts)@.len() ==> (#[trigger] final(accounts)@[i]).client <= (
            #[trigger] final(accounts)@[j]).client,
{
    accounts.sort_by_key(|account| account.client);
}

/// The account store. Its view is the map from client id to account.
pub struct AccountStore {
    accounts: DashMap<u16, UserAccount>,
}

impl View for AccountStore {
    type V = Map<u16, UserAccount>;

    closed spec fn view(&self) -> Map<u16, UserAccount> {
        dash_map_entries(self.accounts)
    }
}

impl AccountStore {
    /// What holds of every store: each account sits under its own client id.
    #[verifier::type_invariant]
    pub open spec fn wf(&self) -> bool {
        keyed_by_client(self@)
    }

    /// A store without accounts.
    pub fn new() -> (store: Self)
        ensures
            store@ == no_accounts(),
            store.wf(),
    {
        AccountStore { accounts: dash_map_new() }
    }

    /// The client's account, if it has one.
    pub fn get(&self, client: u16) -> (account: Option<UserAccount>)
        ensures
            account == account_of(self@, client),
            account matches Some(a) ==> a.client == client,
    {
        proof {
            use_type_invariant(self);
        }
        dash_map_get(&self.accounts, client)
    }

    /// The client's account, created empty where the client had none.
    pub fn get_or_create(&mut self, client: u16) -> (account: UserAccount)
        ensures
            final(self)@ == opened(old(self)@, client),
            account == final(self)@[client],
            account.client == client,
            final(self).wf(),
        no_unwind
    {
        proof {
            use_type_invariant(&*self);
        }
        dash_map_entry_or_insert_with(&mut self.accounts, client)
    }

    /// Stores the account under its client id, in place of what was there.
    pub fn put(&mut self, account: UserAccount)
        ensures
            final(self)@ == old(self)@.insert(account.client, account),
            final(self).wf(),
        no_unwind
    {
        proof {
            use_type_invariant(&*self);
        }
        let _ = dash_map_insert(&mut self.accounts, account.client, account);
    }

    /// All accounts, in strictly ascending order of client id.
    pub fn snapshot(&self) -> (accounts: Vec<UserAccount>)
        ensures
            lists_accounts(accounts@, self@),
    {
        proof {
            use_type_invariant(self);
        }
        let pairs = dash_map_iter(&self.accounts);
        let mut accounts: Vec<UserAccount> = Vec::new();
        let mut i: usize = 0;
        while i < pairs.len()
            invariant
                i <= pairs@.len(),
                accounts@.len() == i,
                forall|k: int| 0 <= k < i ==> (#[trigger] accounts@[k]) == pairs@[k].1,
            decreases pairs@.len() - i,
        {
            accounts.push(pairs[i].1);
            i += 1;
        }
        let ghost unsorted = accounts@;
        sort_by_client(&mut accounts);
        proof {
            assert forall|k: int| 0 <= k < unsorted.len() implies (#[trigger] unsorted[k]).client
                == pairs@[k].0 by {
                assert(self@.contains_pair(pairs@[k].0, pairs@[k].1));
            }
            lemma_sorted_lists_accounts(unsorted, accounts@, pairs@, self@);
        }
        accounts
    }
}

/// A list ordered by client id that holds the same accounts as a walk of the
/// store lists the store's accounts.
proof fn lemma_sorted_lists_accounts(
    unsorted: Seq<UserAccount>,
    sorted: Seq<UserAccount>,
    pairs: Seq<(u16, UserAccount)>,
    entries: Map<u16, UserAccount>,
)
    requires
        unsorted.len() == pairs.len(),
        forall|k: int| 0 <= k < pairs.len() ==> (#[trigger] unsorted[k]) == pairs[k].1,
        forall|k: int| 0 <= k < pairs.len() ==> (#[trigger] unsorted[k]).client == pairs[k].0,
        forall|i: int, j: int|
            0 <= i < j < pairs.len() ==> (#[trigger] pairs[i]).0 != (#[trigger] pairs[j]).0,
        forall|i: int|
            0 <= i < pairs.len() ==> entries.contains_pair((#[trigger] pairs[i]).0, pairs[i].1),
        forall|client: u16| #[trigger]
            entries.contains_key(client) ==> exists|i: int|
                0 <= i < pairs.len() && (#[trigger] pairs[i]).0 == client,
        sorted.to_multiset() == unsorted.to_multiset(),
        forall|i: int, j: int|
            0 <= i < j < sorted.len() ==> (#[trigger] sorted[i]).client <= (
            #[trigger] sorted[j]).client,
    ensures
        lists_accounts(sorted, entries),
{
    broadcast use to_multiset_contains;

    assert(unsorted.no_duplicates()) by {
        assert forall|i: int, j: int|
            0 <= i < unsorted.len() && 0 <= j < unsorted.len() && i != j implies unsorted[i]
            != unsorted[j] by {
            if i < j {
                assert(pairs[i].0 != pairs[j].0);
            } else {
                assert(pairs[j].0 != pairs[i].0);
            }
        }
    }
    unsorted.lemma_multiset_has_no_duplicates();
    sorted.lemma_multiset_has_no_duplicates_conv();
    // Every account of the sorted list stands somewhere in the walk.
    assert forall|i: int| 0 <= i < sorted.len() implies exists|k: int|
        0 <= k < unsorted.len() && unsorted[k] == #[trigger] sorted[i] by {
        assert(sorted.contains(sorted[i]));
        assert(sorted.to_multiset().count(sorted[i]) > 0);
        assert(unsorted.contains(sorted[i]));
    }
    assert forall|i: int, j: int| 0 <= i < j < sorted.len() implies (#[trigger] sorted[i]).client
        < (#[trigger] sorted[j]).client by {
        if sorted[i].client == sorted[j].client {
            let a = choose|k: int| 0 <= k < unsorted.len() && unsorted[k] == sorted[i];
            let b = choose|k: int| 0 <= k < unsorted.len() && unsorted[k] == sorted[j];
            if a < b {
                assert(pairs[a].0 != pairs[b].0);
            } else if b < a {
                assert(pairs[b].0 != pairs[a].0);
            }
            assert(sorted[i] == sorted[j]);
        }
    }
    assert forall|i: int| 0 <= i < sorted.len() implies entries.contains_pair(
        (#[trigger] sorted[i]).client,
        sorted[i],
    ) by {
        let a = choose|k: int| 0 <= k < unsorted.len() && unsorted[k] == sorted[i];
        assert(entries.contains_pair(pairs[a].0, pairs[a].1));
    }
    assert forall|client: u16| #[trigger] entries.contains_key(client) implies exists|i: int|
        0 <= i < sorted.len() && (#[trigger] sorted[i]).client == client by {
        let a = choose|i: int| 0 <= i < pairs.len() && (#[trigger] pairs[i]).0 == client;
        assert(unsorted.contains(unsorted[a]));
        assert(unsorted.to_multiset().count(unsorted[a]) > 0);
        assert(sorted.contains(unsorted[a]));
        let i = choose|i: int| 0 <= i < sorted.len() && sorted[i] == unsorted[a];
        assert(sorted[i].client == client);
    }
}

/// Two lists of the accounts of one store are the same list.
pub proof fn lemma_lists_accounts_unique(
    first: Seq<UserAccount>,
    second: Seq<UserAccount>,
    entries: Map<u16, UserAccount>,
)
    requires
        lists_accounts(first, entries),
        lists_accounts(second, entries),
    ensures
        first == second,
    decreases first.len(),
{
    if first.len() == 0 {
        if second.len() > 0 {
            assert(entries.contains_pair(second[0].client, second[0]));
            let i = choose|i: int| 0 <= i < first.len() && (#[trigger] first[i]).client
                == second[0].client;
        }
        assert(first =~= second);
    } else {
        let x = first.last();
        assert(entries.contains_pair(x.client, x));
        let at = choose|i: int| 0 <= i < second.len() && (#[trigger] second[i]).client == x.client;
        let y = second.last();
        assert(entries.contains_pair(y.client, y));
        let back = choose|i: int| 0 <= i < first.len() && (#[trigger] first[i]).client == y.client;
        // Each list ends in the account of the greatest client id.
        assert(x.client == y.client) by {
            if at < second.len() - 1 {
                assert(second[at].client < y.client);
            }
            if back < first.len() - 1 {
                assert(first[back].client < x.client);
            }
        }
        let rest = entries.remove(x.client);
        let f = first.drop_last();
        let g = second.drop_last();
        assert(lists_accounts(f, rest)) by {
            assert forall|i: int| 0 <= i < f.len() implies rest.contains_pair(
                (#[trigger] f[i]).client,
                f[i],
            ) by {
                assert(f[i] == first[i]);
                assert(first[i].client < first[first.len() - 1].client);
                assert(entries.contains_pair(first[i].client, first[i]));
            }
            assert forall|client: u16| #[trigger] rest.contains_key(client) implies exists|i: int|
                0 <= i < f.len() && (#[trigger] f[i]).client == client by {
                assert(entries.contains_key(client));
                let i = choose|i: int| 0 <= i < first.len() && (#[trigger] first[i]).client
                    == client;
                assert(f[i] == first[i]);
            }
            assert forall|i: int, j: int| 0 <= i < j < f.len() implies (#[trigger] f[i]).client < (
            #[trigger] f[j]).client by {
                assert(f[i] == first[i] && f[j] == first[j]);
            }
        }
        assert(lists_accounts(g, rest)) by {
            assert forall|i: int| 0 <= i < g.len() implies rest.contains_pair(
                (#[trigger] g[i]).client,
                g[i],
            ) by {
                assert(g[i] == second[i]);
                assert(second[i].client < second[second.len() - 1].client);
                assert(entries.contains_pair(second[i].client, second[i]));
            }
            assert forall|client: u16| #[trigger] rest.contains_key(client) implies exists|i: int|
                0 <= i < g.len() && (#[trigger] g[i]).client == client by {
                assert(entries.contains_key(client));
                let i = choose|i: int| 0 <= i < second.len() && (#[trigger] second[i]).client
                    == client;
                assert(g[i] == second[i]);
            }
            assert forall|i: int, j: int| 0 <= i < j < g.len() implies (#[trigger] g[i]).client < (
            #[trigger] g[j]).client by {
                assert(g[i] == second[i] && g[j] == second[j]);
            }
        }
        lemma_lists_accounts_unique(f, g, rest);
        assert(first =~= f.push(x));
        assert(second =~= g.push(y));
    }
}

} // verus!
