//! The connection registry: the table of live connections, each with the
//! handle that writes to it and the session token it last authenticated with.
//!
//! The registry is a plain value. Whoever shares it between tasks guards it
//! with one lock and calls one method per critical section.

use vstd::prelude::*;

verus! {

/// The remote address of a connection: the key of its registry entry. An
/// IPv4 address is held in its IPv6-mapped form.
#[derive(Debug, Clone, Copy, PartialEq, Eq, Hash, Structural)]
pub struct Address {
    pub ip: u128,
    pub port: u16,
}

/// What the registry keeps of a connected client: the handle of type `W`
/// that writes to it, and its current token, empty until it authenticates.
#[derive(Debug)]
pub struct Client<W> {
    pub writer: W,
    pub token: String,
}

impl<W> Client<W> {
    /// A client with the given handle and token.
    pub fn new(writer: W, token: String) -> (client: Self)
        ensures
            client == (Client { writer, token }),
    {
        Client { writer, token }
    }
}

/// One row of the registry.
#[derive(Debug)]
pub struct Entry<W> {
    pub address: Address,
    pub client: Client<W>,
}

/// The mathematical value of an [`Entry`].
pub struct EntryView<W> {
    pub address: Address,
    pub writer: W,
    pub token: Seq<char>,
}

impl<W> View for Entry<W> {
    type V = EntryView<W>;

    open spec fn view(&self) -> EntryView<W> {
        EntryView { address: self.address, writer: self.client.writer, token: self.client.token@ }
    }
}

/// No address occurs in two rows.
pub open spec fn distinct_addresses<W>(s: Seq<EntryView<W>>) -> bool {
    forall|i: int, j: int| 0 <= i < j < s.len() ==> s[i].address != s[j].address
}

/// Some row has the address.
pub open spec fn has_address<W>(s: Seq<EntryView<W>>, address: Address) -> bool {
    exists|i: int| 0 <= i < s.len() && s[i].address == address
}

/// The index of a row with the address, where there is one.
pub open spec fn position<W>(s: Seq<EntryView<W>>, address: Address) -> int {
    choose|i: int| 0 <= i < s.len() && s[i].address == address
}

/// The token recorded for the address, if the address is registered.
pub open spec fn token_of<W>(s: Seq<EntryView<W>>, address: Address) -> Option<Seq<char>> {
    if has_address(s, address) {
        Some(s[position(s, address)].token)
    } else {
        None
    }
}

/// The table after `entry` was registered: it takes the place of the row
/// with its address, or goes to the end where there is none.
pub open spec fn inserted<W>(s: Seq<EntryView<W>>, entry: EntryView<W>) -> Seq<EntryView<W>> {
    if has_address(s, entry.address) {
        s.update(position(s, entry.address), entry)
    } else {
        s.push(entry)
    }
}

/// The table after the address got a new token; unchanged where the address
/// is not registered.
pub open spec fn with_token<W>(s: Seq<EntryView<W>>, address: Address, token: Seq<char>) -> Seq<
    EntryView<W>,
> {
    if has_address(s, address) {
        let i = position(s, address);
        s.update(i, EntryView { address, writer: s[i].writer, token })
    } else {
        s
    }
}

/// The table without the row of the address; unchanged where the address is
/// not registered.
pub open spec fn removed<W>(s: Seq<EntryView<W>>, address: Address) -> Seq<EntryView<W>> {
    if has_address(s, address) {
        s.remove(position(s, address))
    } else {
        s
    }
}

/// In a table without repeated addresses a row is found by its address.
pub proof fn lemma_position_unique<W>(s: Seq<EntryView<W>>, address: Address, i: int)
    requires
        distinct_addresses(s),
        0 <= i < s.len(),
        s[i].address == address,
    ensures
        has_address(s, address),
        position(s, address) == i,
{
    let j = position(s, address);
    assert(0 <= j < s.len() && s[j].address == address);
    if j < i {
        assert(s[j].address != s[i].address);
    } else if i < j {
        assert(s[i].address != s[j].address);
    }
}

/// Registering keeps addresses unique and makes the address registered.
pub proof fn lemma_inserted_distinct<W>(s: Seq<EntryView<W>>, entry: EntryView<W>)
    requires
        distinct_addresses(s),
    ensures
        distinct_addresses(inserted(s, entry)),
        has_address(inserted(s, entry), entry.address),
        token_of(inserted(s, entry), entry.address) == Some(entry.token),
{
    let t = inserted(s, entry);
    if has_address(s, entry.address) {
        let p = position(s, entry.address);
        assert(0 <= p < s.len() && s[p].address == entry.address);
        assert forall|i: int, j: int| 0 <= i < j < t.len() implies t[i].address != t[j].address by {
            assert(t[i].address == s[i].address);
            assert(t[j].address == s[j].address);
        }
        assert(t[p].address == entry.address);
        lemma_position_unique(t, entry.address, p);
    } else {
        assert forall|i: int, j: int| 0 <= i < j < t.len() implies t[i].address != t[j].address by {
            if j == s.len() {
                assert(t[i] == s[i]);
            } else {
                assert(t[i] == s[i] && t[j] == s[j]);
            }
        }
        assert(t[s.len() as int].address == entry.address);
        lemma_position_unique(t, entry.address, s.len() as int);
    }
}

/// Setting a token keeps addresses unique, and nothing but that token changes.
pub proof fn lemma_with_token_distinct<W>(s: Seq<EntryView<W>>, address: Address, token: Seq<char>)
    requires
        distinct_addresses(s),
    ensures
        distinct_addresses(with_token(s, address, token)),
        with_token(s, address, token).len() == s.len(),
        has_address(s, address) ==> token_of(with_token(s, address, token), address) == Some(
            token,
        ),
        forall|other: Address|
            has_address(with_token(s, address, token), other) <==> has_address(s, other),
        forall|other: Address|
            other != address ==> token_of(with_token(s, address, token), other) == token_of(
                s,
                other,
            ),
{
    let t = with_token(s, address, token);
    if has_address(s, address) {
        let p = position(s, address);
        assert(0 <= p < s.len() && s[p].address == address);
        assert forall|i: int| 0 <= i < s.len() implies #[trigger] t[i].address == s[i].address by {}
        assert(distinct_addresses(t));
        lemma_position_unique(t, address, p);
        assert forall|other: Address| has_address(t, other) <==> has_address(s, other) by {
            if has_address(t, other) {
                let i = position(t, other);
                assert(s[i].address == other);
            }
            if has_address(s, other) {
                let i = position(s, other);
                assert(t[i].address == other);
            }
        }
        assert forall|other: Address| other != address implies token_of(t, other) == token_of(
            s,
            other,
        ) by {
            if has_address(s, other) {
                let i = position(s, other);
                assert(0 <= i < s.len() && s[i].address == other);
                assert(t[i] == s[i]);
                lemma_position_unique(t, other, i);
            }
        }
    }
}

/// Removing keeps addresses unique, takes the address out and leaves the
/// other rows as they were.
pub proof fn lemma_removed_distinct<W>(s: Seq<EntryView<W>>, address: Address)
    requires
        distinct_addresses(s),
    ensures
        distinct_addresses(removed(s, address)),
        !has_address(removed(s, address), address),
        forall|other: Address|
            other != address ==> (has_address(removed(s, address), other) <==> has_address(
                s,
                other,
            )),
        forall|other: Address|
            other != address ==> token_of(removed(s, address), other) == token_of(s, other),
{
    let t = removed(s, address);
    if has_address(s, address) {
        let p = position(s, address);
        assert(0 <= p < s.len() && s[p].address == address);
        assert forall|i: int| 0 <= i < t.len() implies #[trigger] t[i] == s[if i < p {
            i
        } else {
            i + 1
        }] by {}
        assert forall|i: int, j: int| 0 <= i < j < t.len() implies t[i].address != t[j].address by {
            let si = if i < p { i } else { i + 1 };
            let sj = if j < p { j } else { j + 1 };
            assert(t[i] == s[si] && t[j] == s[sj]);
            assert(s[si].address != s[sj].address);
        }
        if has_address(t, address) {
            let i = position(t, address);
            let si = if i < p { i } else { i + 1 };
            assert(t[i] == s[si]);
            if si < p {
                assert(s[si].address != s[p].address);
            } else {
                assert(s[p].address != s[si].address);
            }
        }
        assert forall|other: Address| other != address implies (has_address(t, other)
            <==> has_address(s, other)) && token_of(t, other) == token_of(s, other) by {
            if has_address(t, other) {
                let i = position(t, other);
                let si = if i < p { i } else { i + 1 };
                assert(t[i] == s[si]);
                assert(s[si].address == other);
            }
            if has_address(s, other) {
                let si = position(s, other);
                assert(0 <= si < s.len() && s[si].address == other);
                let i = if si < p { si } else { si - 1 };
                assert(t[i] == s[si]);
                lemma_position_unique(t, other, i);
                lemma_position_unique(s, other, si);
            }
        }
    } else {
        assert(t == s);
    }
}

/// The table as a map from each registered address to its row.
pub open spec fn as_map<W>(s: Seq<EntryView<W>>) -> Map<Address, EntryView<W>> {
    Map::new(|address: Address| has_address(s, address), |address: Address| s[position(s, address)])
}

/// The registry is a map keyed by address: registering puts the row under
/// its address, setting a token replaces the token in the row under the
/// address, and removing takes the address out. The order of the rows has
/// no part in which rows there are.
pub proof fn lemma_table_is_a_map<W>(
    s: Seq<EntryView<W>>,
    entry: EntryView<W>,
    address: Address,
    token: Seq<char>,
)
    requires
        distinct_addresses(s),
    ensures
        as_map(inserted(s, entry)) == as_map(s).insert(entry.address, entry),
        as_map(removed(s, address)) == as_map(s).remove(address),
        has_address(s, address) ==> as_map(with_token(s, address, token)) == as_map(s).insert(
            address,
            (EntryView { address, writer: as_map(s)[address].writer, token }),
        ),
        !has_address(s, address) ==> as_map(with_token(s, address, token)) == as_map(s),
{
    lemma_inserted_distinct(s, entry);
    let t = inserted(s, entry);
    assert forall|a: Address| has_address(t, a) <==> (a == entry.address || has_address(s, a)) by {
        if has_address(t, a) {
            let i = position(t, a);
            if has_address(s, entry.address) {
                let p = position(s, entry.address);
                if i != p {
                    assert(s[i].address == a);
                }
            } else {
                if i < s.len() {
                    assert(s[i].address == a);
                }
            }
        }
        if has_address(s, a) && a != entry.address {
            let i = position(s, a);
            assert(t[i].address == a);
        }
    }
    assert forall|a: Address| has_address(t, a) && a != entry.address implies t[position(t, a)]
        == s[position(s, a)] by {
        let i = position(s, a);
        assert(0 <= i < s.len() && s[i].address == a);
        assert(t[i] == s[i]);
        lemma_position_unique(t, a, i);
    }
    assert(t[position(t, entry.address)] == entry) by {
        let i = position(t, entry.address);
        assert(0 <= i < t.len() && t[i].address == entry.address);
        if has_address(s, entry.address) {
            let p = position(s, entry.address);
            assert(0 <= p < s.len() && s[p].address == entry.address);
            assert(t[p] == entry);
            lemma_position_unique(t, entry.address, p);
        } else {
            assert(t[s.len() as int] == entry);
            lemma_position_unique(t, entry.address, s.len() as int);
        }
    }
    assert(as_map(t) =~= as_map(s).insert(entry.address, entry));

    lemma_removed_distinct(s, address);
    let r = removed(s, address);
    assert forall|a: Address| a != address && has_address(s, a) implies r[position(r, a)]
        == s[position(s, a)] by {
        let i = position(s, a);
        assert(0 <= i < s.len() && s[i].address == a);
        if has_address(s, address) {
            let p = position(s, address);
            assert(0 <= p < s.len() && s[p].address == address);
            let j = if i < p { i } else { i - 1 };
            assert(r[j] == s[i]);
            lemma_position_unique(r, a, j);
        }
    }
    assert(as_map(r) =~= as_map(s).remove(address));

    lemma_with_token_distinct(s, address, token);
    let w = with_token(s, address, token);
    if has_address(s, address) {
        let p = position(s, address);
        assert(0 <= p < s.len() && s[p].address == address);
        let row = EntryView { address, writer: s[p].writer, token };
        assert(w[p] == row);
        lemma_position_unique(w, address, p);
        assert forall|a: Address| a != address && has_address(s, a) implies w[position(w, a)]
            == s[position(s, a)] by {
            let i = position(s, a);
            assert(0 <= i < s.len() && s[i].address == a);
            assert(w[i] == s[i]);
            lemma_position_unique(w, a, i);
        }
        assert(as_map(w) =~= as_map(s).insert(address, row));
    }
}

/// The table of live connections. No address is registered twice.
pub struct Registry<W> {
    entries: Vec<Entry<W>>,
}

impl<W> View for Registry<W> {
    type V = Seq<EntryView<W>>;

    closed spec fn view(&self) -> Seq<EntryView<W>> {
        rows(self.entries@)
    }
}

/// The rows of a vector of entries.
pub open spec fn rows<W>(entries: Seq<Entry<W>>) -> Seq<EntryView<W>> {
    Seq::new(entries.len(), |i: int| entries[i]@)
}

/// The addresses of the rows, in order.
pub open spec fn addresses_of<W>(s: Seq<EntryView<W>>) -> Seq<Address> {
    Seq::new(s.len(), |i: int| s[i].address)
}

/// Looks for the row of `address`.
fn find<W>(entries: &Vec<Entry<W>>, address: Address) -> (r: Option<usize>)
    ensures
        match r {
            Some(i) => i < entries@.len() && rows(entries@)[i as int].address == address,
            None => !has_address(rows(entries@), address),
        },
{
    let mut i: usize = 0;
    while i < entries.len()
        invariant
            i <= entries@.len(),
            forall|k: int| 0 <= k < i ==> rows(entries@)[k].address != address,
        decreases entries@.len() - i,
    {
        if entries[i].address == address {
            return Some(i);
        }
        i = i + 1;
    }
    None
}

impl<W> Registry<W> {
    #[verifier::type_invariant]
    spec fn well_formed(self) -> bool {
        distinct_addresses(rows(self.entries@))
    }

    /// An empty registry.
    pub fn new() -> (registry: Self)
        ensures
            registry@ == Seq::<EntryView<W>>::empty(),
    {
        let registry = Registry { entries: Vec::new() };
        assert(registry@ =~= Seq::<EntryView<W>>::empty());
        registry
    }

    /// The number of registered connections.
    pub fn len(&self) -> (n: usize)
        ensures
            n == self@.len(),
            distinct_addresses(self@),
    {
        proof {
            use_type_invariant(&*self);
        }
        self.entries.len()
    }

    /// Whether `address` is registered.
    pub fn contains(&self, address: Address) -> (found: bool)
        ensures
            found == has_address(self@, address),
    {
        find(&self.entries, address).is_some()
    }

    /// The row at `index`, in registration order.
    pub fn get(&self, index: usize) -> (entry: &Entry<W>)
        requires
            index < self@.len(),
        ensures
            entry@ == self@[index as int],
    {
        &self.entries[index]
    }

    /// The client registered under `address`, if there is one.
    pub fn client(&self, address: Address) -> (r: Option<&Client<W>>)
        ensures
            match r {
                Some(client) => has_address(self@, address) && self@[position(self@, address)]
                    == (EntryView { address, writer: client.writer, token: client.token@ }),
                None => !has_address(self@, address),
            },
    {
        proof {
            use_type_invariant(&*self);
        }
        match find(&self.entries, address) {
            Some(i) => {
                proof {
                    lemma_position_unique(self@, address, i as int);
                }
                Some(&self.entries[i].client)
            },
            None => None,
        }
    }

    /// Registers a connection that has not authenticated yet. A connection
    /// already registered under the address is replaced.
    pub fn insert(&mut self, address: Address, writer: W)
        ensures
            final(self)@ == inserted(
                old(self)@,
                (EntryView { address, writer, token: Seq::<char>::empty() }),
            ),
            distinct_addresses(final(self)@),
    {
        proof {
            use_type_invariant(&*self);
        }
        let ghost before = self@;
        let ghost row = EntryView { address, writer, token: Seq::<char>::empty() };
        let mut entries: Vec<Entry<W>> = Vec::new();
        std::mem::swap(&mut entries, &mut self.entries);
        assert(rows(entries@) == before);
        let entry = Entry { address, client: Client::new(writer, String::new()) };
        match find(&entries, address) {
            Some(i) => {
                proof {
                    lemma_position_unique(before, address, i as int);
                }
                entries.set(i, entry);
                assert(rows(entries@) =~= before.update(i as int, row));
            },
            None => {
                entries.push(entry);
                assert(rows(entries@) =~= before.push(row));
            },
        }
        proof {
            lemma_inserted_distinct(before, row);
        }
        self.entries = entries;
    }

    /// Records `token` as the current token of `address`. Returns whether the
    /// address is registered; where it is not, nothing changes.
    pub fn set_token(&mut self, address: Address, token: String) -> (found: bool)
        ensures
            found == has_address(old(self)@, address),
            final(self)@ == with_token(old(self)@, address, token@),
            distinct_addresses(final(self)@),
    {
        proof {
            use_type_invariant(&*self);
        }
        let ghost before = self@;
        let mut entries: Vec<Entry<W>> = Vec::new();
        std::mem::swap(&mut entries, &mut self.entries);
        assert(rows(entries@) == before);
        proof {
            lemma_with_token_distinct(before, address, token@);
        }
        match find(&entries, address) {
            Some(i) => {
                proof {
                    lemma_position_unique(before, address, i as int);
                }
                let previous = entries.remove(i);
                let entry = Entry {
                    address,
                    client: Client::new(previous.client.writer, token),
                };
                entries.insert(i, entry);
                assert(rows(entries@) =~= with_token(before, address, token@));
                self.entries = entries;
                true
            },
            None => {
                self.entries = entries;
                false
            },
        }
    }

    /// Takes the connection under `address` out of the registry and returns
    /// what was kept of it. Where the address is not registered, nothing
    /// changes.
    pub fn remove(&mut self, address: Address) -> (r: Option<Client<W>>)
        ensures
            final(self)@ == removed(old(self)@, address),
            distinct_addresses(final(self)@),
            match r {
                Some(client) => has_address(old(self)@, address) && old(self)@[position(
                    old(self)@,
                    address,
                )] == (EntryView { address, writer: client.writer, token: client.token@ }),
                None => !has_address(old(self)@, address),
            },
    {
        proof {
            use_type_invariant(&*self);
        }
        let ghost before = self@;
        let mut entries: Vec<Entry<W>> = Vec::new();
        std::mem::swap(&mut entries, &mut self.entries);
        assert(rows(entries@) == before);
        proof {
            lemma_removed_distinct(before, address);
        }
        match find(&entries, address) {
            Some(i) => {
                proof {
                    lemma_position_unique(before, address, i as int);
                }
                let previous = entries.remove(i);
                assert(rows(entries@) =~= before.remove(i as int));
                self.entries = entries;
                Some(previous.client)
            },
            None => {
                self.entries = entries;
                None
            },
        }
    }

    /// The registered addresses, in registration order.
    pub fn addresses(&self) -> (r: Vec<Address>)
        ensures
            r@ == addresses_of(self@),
            distinct_addresses(self@),
    {
        proof {
            use_type_invariant(&*self);
        }
        let mut out: Vec<Address> = Vec::new();
        let mut i: usize = 0;
        while i < self.entries.len()
            invariant
                i <= self.entries@.len(),
                out@.len() == i,
                forall|k: int| 0 <= k < i ==> out@[k] == self@[k].address,
            decreases self.entries@.len() - i,
        {
            out.push(self.entries[i].address);
            i = i + 1;
        }
        assert(out@ =~= addresses_of(self@));
        out
    }
}

} // verus!
