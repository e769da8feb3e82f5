//! The ledger (client id to account) and the transaction history
//! (transaction id to retained record), both backed by hash maps.

use vstd::prelude::*;
use crate::{ClientId, TxId};
use std::collections::HashMap;
use crate::account::{Account, spec_zero_account, zero_account};
use crate::records::HistEntry;

verus! {

broadcast use vstd::std_specs::hash::group_hash_axioms;

/// The full set of client accounts. Beside the map it keeps the list of
/// client ids in order of first appearance, so the final state can be
/// walked without any claim on the hash map's own iteration order.
pub struct Ledger {
    ids: Vec<ClientId>,
    accounts: HashMap<ClientId, Account>,
}

/// The ledger after a client has been brought into existence: unchanged
/// if the client already has an account, else extended with the zeroed
/// one.
pub open spec fn ensure_client(l: Map<ClientId, Account>, c: ClientId) -> Map<ClientId, Account> {
    if l.contains_key(c) {
        l
    } else {
        l.insert(c, spec_zero_account(c))
    }
}

impl View for Ledger {
    type V = Map<ClientId, Account>;

    closed spec fn view(&self) -> Map<ClientId, Account> {
        self.accounts@
    }
}

impl Ledger {
    /// The client ids the ledger holds, in order of first appearance.
    pub closed spec fn clients(&self) -> Seq<ClientId> {
        self.ids@
    }

    /// Internal consistency: the id list names exactly the keys of the
    /// map, once each, and every account records the client it is keyed
    /// under.
    pub open spec fn wf(&self) -> bool {
        &&& self.clients().no_duplicates()
        &&& forall|c: ClientId|
            #![trigger self.clients().contains(c)]
            #![trigger self@.contains_key(c)]
            self.clients().contains(c) <==> self@.contains_key(c)
        &&& forall|c: ClientId| #[trigger] self@.contains_key(c) ==> self@[c].client == c
    }

    /// An empty ledger: no clients at all.
    pub fn new() -> (l: Ledger)
        ensures
            l@ == Map::<ClientId, Account>::empty(),
            l.clients() == Seq::<ClientId>::empty(),
            l.wf(),
    {
        let l = Ledger { ids: Vec::new(), accounts: HashMap::new() };
        assert(forall|c: ClientId| !l.clients().contains(c));
        l
    }

    /// The account of the given client, if it has one.
    pub fn get(&self, c: ClientId) -> (r: Option<Account>)
        ensures
            match r {
                Some(a) => self@.contains_key(c) && a == self@[c],
                None => !self@.contains_key(c),
            },
    {
        match self.accounts.get(&c) {
            Some(a) => Some(*a),
            None => None,
        }
    }

    /// The account of the given client, creating a zeroed unlocked one
    /// first if the client has none yet.
    pub fn get_or_create(&mut self, c: ClientId) -> (a: Account)
        requires
            old(self).wf(),
        ensures
            final(self).wf(),
            final(self)@ == ensure_client(old(self)@, c),
            final(self)@.contains_key(c),
            a == final(self)@[c],
            a.client == c,
            final(self).clients() == if old(self)@.contains_key(c) {
                old(self).clients()
            } else {
                old(self).clients().push(c)
            },
    {
        let existing = self.get(c);
        match existing {
            Some(a) => a,
            None => {
                let z = zero_account(c);
                self.accounts.insert(c, z);
                self.ids.push(c);
                proof {
                    let ids0 = old(self).clients();
                    assert(!ids0.contains(c));
                    assert forall|x: ClientId|
                        #![trigger self.clients().contains(x)]
                        #![trigger self@.contains_key(x)]
                        self.clients().contains(x) <==> self@.contains_key(x) by {
                        if x == c {
                            assert(self.clients()[ids0.len() as int] == c);
                            assert(self.clients().contains(c));
                        } else {
                            if self.clients().contains(x) {
                                let i = choose|i: int|
                                    0 <= i < self.clients().len() && self.clients()[i] == x;
                                assert(ids0[i] == x);
                                assert(ids0.contains(x));
                            }
                            if ids0.contains(x) {
                                let i = choose|i: int| 0 <= i < ids0.len() && ids0[i] == x;
                                assert(self.clients()[i] == x);
                            }
                        }
                    }
                    assert(self.clients().no_duplicates());
                }
                z
            }
        }
    }

    /// Replaces the account of a client that already has one.
    pub fn put(&mut self, c: ClientId, a: Account)
        requires
            old(self).wf(),
            old(self)@.contains_key(c),
            a.client == c,
        ensures
            final(self).wf(),
            final(self)@ == old(self)@.insert(c, a),
            final(self).clients() == old(self).clients(),
    {
        self.accounts.insert(c, a);
    }

    /// How many clients the ledger holds.
    pub fn len(&self) -> (n: usize)
        requires
            self.wf(),
        ensures
            n == self.clients().len(),
            n == self@.dom().len(),
    {
        proof {
            self.clients().unique_seq_to_set();
            assert(self.clients().to_set() =~= self@.dom());
        }
        self.ids.len()
    }

    /// The client ids in order of first appearance.
    pub fn clients_vec(&self) -> (v: Vec<ClientId>)
        ensures
            v@ == self.clients(),
    {
        let mut v: Vec<ClientId> = Vec::new();
        let n = self.ids.len();
        let mut i: usize = 0;
        while i < n
            invariant
                n == self.ids@.len(),
                i <= n,
                v@ == self.ids@.subrange(0, i as int),
            decreases n - i,
        {
            v.push(self.ids[i]);
            proof {
                assert(v@ =~= self.ids@.subrange(0, i + 1));
            }
            i += 1;
        }
        proof {
            assert(v@ =~= self.ids@);
        }
        v
    }

    /// The final state of every account, one snapshot per client, in
    /// order of first appearance.
    pub fn snapshot(&self) -> (v: Vec<Account>)
        requires
            self.wf(),
        ensures
            v@.len() == self.clients().len(),
            forall|i: int|
                0 <= i < v@.len() ==> #[trigger] v@[i] == self@[self.clients()[i]]
                    && v@[i].client == self.clients()[i],
            forall|c: ClientId|
                #[trigger] self@.contains_key(c) ==> exists|i: int|
                    0 <= i < v@.len() && v@[i].client == c,
    {
        let mut v: Vec<Account> = Vec::new();
        let n = self.ids.len();
        let mut i: usize = 0;
        while i < n
            invariant
                self.wf(),
                n == self.clients().len(),
                i <= n,
                v@.len() == i,
                forall|j: int|
                    0 <= j < i ==> #[trigger] v@[j] == self@[self.clients()[j]]
                        && v@[j].client == self.clients()[j],
            decreases n - i,
        {
            let c = self.ids[i];
            proof {
                assert(self.clients().contains(self.clients()[i as int]));
            }
            match self.get(c) {
                Some(a) => v.push(a),
                None => {
                    proof {
                        assert(false);
                    }
                }
            }
            i += 1;
        }
        proof {
            assert forall|c: ClientId| #[trigger] self@.contains_key(c) implies exists|j: int|
                0 <= j < v@.len() && v@[j].client == c by {
                assert(self.clients().contains(c));
                let j = choose|j: int| 0 <= j < self.clients().len() && self.clients()[j] == c;
                assert(v@[j].client == c);
            }
        }
        v
    }
}

/// The retained record of accepted deposits and withdrawals, keyed by
/// transaction id. Only transactions it holds can be disputed, resolved
/// or charged back.
pub struct History {
    map: HashMap<TxId, HistEntry>,
}

impl View for History {
    type V = Map<TxId, HistEntry>;

    closed spec fn view(&self) -> Map<TxId, HistEntry> {
        self.map@
    }
}

impl History {
    /// An empty history.
    pub fn new() -> (h: History)
        ensures
            h@ == Map::<TxId, HistEntry>::empty(),
    {
        History { map: HashMap::new() }
    }

    /// Stores (or overwrites) the entry for `e.tx`.
    pub fn record(&mut self, e: HistEntry)
        ensures
            final(self)@ == old(self)@.insert(e.tx, e),
    {
        self.map.insert(e.tx, e);
    }

    /// The retained entry for a transaction id, if any; absence is an
    /// ordinary outcome, not an error.
    pub fn lookup(&self, tx: TxId) -> (r: Option<HistEntry>)
        ensures
            match r {
                Some(e) => self@.contains_key(tx) && e == self@[tx],
                None => !self@.contains_key(tx),
            },
    {
        match self.map.get(&tx) {
            Some(e) => Some(*e),
            None => None,
        }
    }

    /// Takes the entry for a transaction id out of the history.
    pub fn remove(&mut self, tx: TxId) -> (r: Option<HistEntry>)
        ensures
            final(self)@ == old(self)@.remove(tx),
            match r {
                Some(e) => old(self)@.contains_key(tx) && e == old(self)@[tx],
                None => !old(self)@.contains_key(tx),
            },
    {
        self.map.remove(&tx)
    }
}

} // verus!
