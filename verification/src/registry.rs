//! The registry of live connections.
//!
//! A connection enters the registry only with a client that has passed a
//! handshake with its endpoint, and leaves it on disconnect. Each gets an id
//! that no other connection of this registry has or ever had.

use crate::text::{chars_of, same};
use vstd::prelude::*;
use vstd::string::StringExecFns;

verus! {

/// The decimal digit of `d`, for `d` below ten.
pub open spec fn digit(d: nat) -> char {
    if d == 0 {
        '0'
    } else if d == 1 {
        '1'
    } else if d == 2 {
        '2'
    } else if d == 3 {
        '3'
    } else if d == 4 {
        '4'
    } else if d == 5 {
        '5'
    } else if d == 6 {
        '6'
    } else if d == 7 {
        '7'
    } else if d == 8 {
        '8'
    } else {
        '9'
    }
}

/// The decimal numeral of `n`.
pub open spec fn decimal(n: nat) -> Seq<char>
    decreases n,
{
    if n < 10 {
        seq![digit(n)]
    } else {
        decimal(n / 10).push(digit(n % 10))
    }
}

/// Different numbers have different numerals.
pub proof fn lemma_decimal_injective(a: nat, b: nat)
    requires
        decimal(a) == decimal(b),
    ensures
        a == b,
    decreases a,
{
    if a < 10 && b < 10 {
        assert(decimal(a)[0] == digit(a));
    } else if a < 10 {
        lemma_decimal_len(b / 10);
    } else if b < 10 {
        assert(decimal(a).len() == decimal(a / 10).len() + 1);
        lemma_decimal_len(a / 10);
    } else {
        assert(decimal(a).drop_last() =~= decimal(a / 10));
        assert(decimal(b).drop_last() =~= decimal(b / 10));
        assert(decimal(a).last() == digit(a % 10));
        lemma_decimal_injective(a / 10, b / 10);
    }
}

/// A numeral has at least one digit.
pub proof fn lemma_decimal_len(n: nat)
    ensures
        decimal(n).len() >= 1,
    decreases n,
{
    if n >= 10 {
        lemma_decimal_len(n / 10);
    }
}

/// The digit of `d` as a text.
fn digit_text(d: u64) -> (r: &'static str)
    requires
        d < 10,
    ensures
        r@ == seq![digit(d as nat)],
{
    proof {
        reveal_strlit("0");
        reveal_strlit("1");
        reveal_strlit("2");
        reveal_strlit("3");
        reveal_strlit("4");
        reveal_strlit("5");
        reveal_strlit("6");
        reveal_strlit("7");
        reveal_strlit("8");
        reveal_strlit("9");
    }
    let r = if d == 0 {
        "0"
    } else if d == 1 {
        "1"
    } else if d == 2 {
        "2"
    } else if d == 3 {
        "3"
    } else if d == 4 {
        "4"
    } else if d == 5 {
        "5"
    } else if d == 6 {
        "6"
    } else if d == 7 {
        "7"
    } else if d == 8 {
        "8"
    } else {
        "9"
    };
    r
}

/// Writes `n` as a decimal numeral.
pub fn decimal_text(n: u64) -> (r: String)
    ensures
        r@ == decimal(n as nat),
    decreases n,
{
    if n < 10 {
        String::from_str(digit_text(n))
    } else {
        let mut text = decimal_text(n / 10);
        text.append(digit_text(n % 10));
        text
    }
}

/// What is known of a live connection.
#[derive(Debug, PartialEq, Eq)]
pub struct Connection {
    pub id: String,
    pub endpoint: String,
    pub region: String,
    /// The bucket that calls without a bucket of their own go to.
    pub default_bucket: Option<String>,
    /// The name under which the credentials are kept; never the credentials.
    pub credential: String,
}

/// What a [`Connection`] stands for.
pub struct ConnectionView {
    pub id: Seq<char>,
    pub endpoint: Seq<char>,
    pub region: Seq<char>,
    pub default_bucket: Option<Seq<char>>,
    pub credential: Seq<char>,
}

impl View for Connection {
    type V = ConnectionView;

    open spec fn view(&self) -> ConnectionView {
        ConnectionView {
            id: self.id@,
            endpoint: self.endpoint@,
            region: self.region@,
            default_bucket: match self.default_bucket {
                Some(b) => Some(b@),
                None => None,
            },
            credential: self.credential@,
        }
    }
}

/// How the handshake with an endpoint ended.
#[derive(Debug, PartialEq, Eq)]
pub enum Handshake<C> {
    /// The endpoint accepted the credentials; this client is bound to it.
    Accepted(C),
    /// The endpoint rejected the credentials.
    Rejected(String),
    /// The endpoint could not be reached.
    Unreachable(String),
}

/// Why no connection was made.
#[derive(Debug, PartialEq, Eq)]
pub enum AuthError {
    /// The endpoint rejected the credentials.
    Rejected(String),
    /// The endpoint could not be reached.
    Unreachable(String),
}

/// What an [`AuthError`] stands for.
pub enum AuthErrorView {
    Rejected(Seq<char>),
    Unreachable(Seq<char>),
}

impl View for AuthError {
    type V = AuthErrorView;

    open spec fn view(&self) -> AuthErrorView {
        match self {
            AuthError::Rejected(why) => AuthErrorView::Rejected(why@),
            AuthError::Unreachable(why) => AuthErrorView::Unreachable(why@),
        }
    }
}

/// An endpoint that a connection is asked for.
#[derive(Debug, PartialEq, Eq)]
pub struct Endpoint {
    pub endpoint: String,
    pub region: String,
    pub default_bucket: Option<String>,
    pub credential: String,
}

impl Endpoint {
    /// The connection to this endpoint that has the id `id`.
    pub open spec fn named(self, id: Seq<char>) -> ConnectionView {
        ConnectionView {
            id,
            endpoint: self.endpoint@,
            region: self.region@,
            default_bucket: match self.default_bucket {
                Some(b) => Some(b@),
                None => None,
            },
            credential: self.credential@,
        }
    }
}

/// One live connection with its client.
struct Entry<C> {
    serial: u64,
    connection: Connection,
    client: C,
}

/// The live connections, each with its client, by id.
pub struct Registry<C> {
    entries: Vec<Entry<C>>,
    issued: u64,
}

impl<C> Registry<C> {
    /// Some entry has the id `id`.
    spec fn known(&self, id: Seq<char>) -> bool {
        exists|i: int| 0 <= i < self.entries.len() && (#[trigger] self.entries[i]).connection.id@ == id
    }

    /// The index of the entry with the id `id`.
    spec fn index_of(&self, id: Seq<char>) -> int {
        choose|i: int| 0 <= i < self.entries.len() && (#[trigger] self.entries[i]).connection.id@ == id
    }

    /// The live connections: what is known of each, and its client, by id.
    pub closed spec fn view(&self) -> Map<Seq<char>, (ConnectionView, C)> {
        Map::new(
            |id: Seq<char>| self.known(id),
            |id: Seq<char>|
                (self.entries[self.index_of(id)].connection@, self.entries[self.index_of(id)].client),
        )
    }

    /// The registry is in a state that its own steps have led to: every id
    /// is the numeral of a serial number that was issued, and no serial
    /// number is used twice.
    pub closed spec fn wf(&self) -> bool {
        &&& forall|i: int|
            0 <= i < self.entries.len() ==> (#[trigger] self.entries[i]).serial < self.issued
                && self.entries[i].connection.id@ == decimal(self.entries[i].serial as nat)
        &&& forall|i: int, j: int|
            0 <= i < j < self.entries.len() ==> (#[trigger] self.entries[i]).serial != (
            #[trigger] self.entries[j]).serial
    }

    /// The registry has an id left to give.
    pub closed spec fn can_issue(&self) -> bool {
        self.issued < u64::MAX
    }

    /// Under each id stands the connection of that id.
    pub proof fn lemma_ids(&self)
        requires
            self.wf(),
        ensures
            forall|id: Seq<char>| #[trigger] self@.dom().contains(id) ==> self@[id].0.id == id,
    {
    }

    /// In a well-formed registry an id names one entry only.
    proof fn lemma_index(&self, i: int)
        requires
            self.wf(),
            0 <= i < self.entries.len(),
        ensures
            self.known(self.entries[i].connection.id@),
            self.index_of(self.entries[i].connection.id@) == i,
    {
        let id = self.entries[i].connection.id@;
        let k = self.index_of(id);
        if k != i {
            lemma_decimal_injective(self.entries[k].serial as nat, self.entries[i].serial as nat);
        }
    }

    /// A registry without connections.
    pub fn new() -> (r: Registry<C>)
        ensures
            r.wf(),
            r.can_issue(),
            r@ == Map::<Seq<char>, (ConnectionView, C)>::empty(),
    {
        let r = Registry { entries: Vec::new(), issued: 0 };
        r
    }

    /// Tells whether the registry has an id left to give.
    pub fn can_connect(&self) -> (r: bool)
        ensures
            r == self.can_issue(),
    {
        self.issued < u64::MAX
    }

    /// The number of live connections.
    pub fn len(&self) -> (r: usize)
        requires
            self.wf(),
        ensures
            r == self@.dom().len(),
            self@.dom().finite(),
    {
        proof {
            self.lemma_dom_len();
        }
        self.entries.len()
    }

    /// There are as many ids as entries.
    proof fn lemma_dom_len(&self)
        requires
            self.wf(),
        ensures
            self@.dom().finite(),
            self@.dom().len() == self.entries.len(),
    {
        let ids = Seq::new(self.entries.len() as nat, |i: int| self.entries[i].connection.id@);
        assert forall|i: int, j: int| 0 <= i < ids.len() && 0 <= j < ids.len() && i != j implies ids[i]
            != ids[j] by {
            if ids[i] == ids[j] {
                self.lemma_index(i);
                self.lemma_index(j);
            }
        }
        ids.unique_seq_to_set();
        assert(ids.to_set() =~= self@.dom()) by {
            assert forall|id: Seq<char>| ids.to_set().contains(id) <==> self@.dom().contains(id) by {
                if ids.to_set().contains(id) {
                    let i = choose|i: int| 0 <= i < ids.len() && ids[i] == id;
                }
                if self.known(id) {
                    let i = self.index_of(id);
                    assert(ids[i] == id);
                }
            }
        }
    }

    /// The index of the entry with the id `id`.
    fn find(&self, id: &str) -> (r: Option<usize>)
        requires
            self.wf(),
        ensures
            match r {
                Some(i) => i < self.entries.len() && self.known(id@) && self.index_of(id@) == i,
                None => !self.known(id@),
            },
    {
        let mut i: usize = 0;
        while i < self.entries.len()
            invariant
                self.wf(),
                i <= self.entries.len(),
                forall|j: int| 0 <= j < i ==> (#[trigger] self.entries[j]).connection.id@ != id@,
            decreases self.entries.len() - i,
        {
            if same(
                &chars_of(self.entries[i].connection.id.as_str()),
                &chars_of(id),
            ) {
                proof {
                    self.lemma_index(i as int);
                }
                return Some(i);
            }
            i += 1;
        }
        None
    }

    /// Registers the connection to `endpoint` whose handshake ended as
    /// `handshake` says.
    ///
    /// After an accepted handshake the client is registered under a new id,
    /// which is returned. After any other the registry is as it was, and the
    /// error says how the handshake failed.
    pub fn connect(&mut self, endpoint: Endpoint, handshake: Handshake<C>) -> (r: Result<
        String,
        AuthError,
    >)
        requires
            old(self).wf(),
            old(self).can_issue(),
        ensures
            final(self).wf(),
            match handshake {
                Handshake::Accepted(client) => {
                    &&& r matches Ok(id) && !old(self)@.dom().contains(id@) && final(self)@ == old(
                        self,
                    )@.insert(id@, (endpoint.named(id@), client))
                },
                Handshake::Rejected(why) => {
                    &&& r matches Err(e) && e@ == AuthErrorView::Rejected(why@)
                    &&& final(self)@ == old(self)@
                },
                Handshake::Unreachable(why) => {
                    &&& r matches Err(e) && e@ == AuthErrorView::Unreachable(why@)
                    &&& final(self)@ == old(self)@
                },
            },
    {
        match handshake {
            Handshake::Rejected(why) => Err(AuthError::Rejected(why)),
            Handshake::Unreachable(why) => Err(AuthError::Unreachable(why)),
            Handshake::Accepted(client) => {
                let ghost before = *self;
                let serial = self.issued;
                let id = decimal_text(serial);
                let connection = Connection {
                    id: id.clone(),
                    endpoint: endpoint.endpoint,
                    region: endpoint.region,
                    default_bucket: endpoint.default_bucket,
                    credential: endpoint.credential,
                };
                proof {
                    if before.known(id@) {
                        let k = before.index_of(id@);
                        lemma_decimal_injective(before.entries[k].serial as nat, serial as nat);
                    }
                }
                self.entries.push(Entry { serial, connection, client });
                self.issued = serial + 1;
                proof {
                    let n = before.entries.len() as int;
                    let wanted = before@.insert(id@, (endpoint.named(id@), client));
                    assert forall|key: Seq<char>| self@.dom().contains(key) <==> wanted.dom().contains(
                        key,
                    ) by {
                        if self.known(key) {
                            let i = self.index_of(key);
                        }
                        if before.known(key) {
                            let i = before.index_of(key);
                            assert(self.entries[i].connection.id@ == key);
                        }
                        if key == id@ {
                            assert(self.entries[n].connection.id@ == key);
                        }
                    }
                    assert forall|key: Seq<char>| self@.dom().contains(key) implies self@[key]
                        == wanted[key] by {
                        let i = self.index_of(key);
                        self.lemma_index(i);
                        if i < n {
                            before.lemma_index(i);
                        }
                    }
                }
                Ok(id)
            },
        }
    }

    /// The client of the connection `id`; `None` where no such connection
    /// lives.
    pub fn get(&self, id: &str) -> (r: Option<&C>)
        requires
            self.wf(),
        ensures
            match r {
                Some(client) => self@.dom().contains(id@) && *client == self@[id@].1,
                None => !self@.dom().contains(id@),
            },
    {
        match self.find(id) {
            Some(i) => Some(&self.entries[i].client),
            None => None,
        }
    }

    /// What is known of the connection `id`; `None` where no such connection
    /// lives.
    pub fn connection(&self, id: &str) -> (r: Option<&Connection>)
        requires
            self.wf(),
        ensures
            match r {
                Some(connection) => self@.dom().contains(id@) && connection@ == self@[id@].0,
                None => !self@.dom().contains(id@),
            },
    {
        match self.find(id) {
            Some(i) => Some(&self.entries[i].connection),
            None => None,
        }
    }

    /// Ends the connection `id` and hands out its client. The other
    /// connections stay; where no such connection lives nothing changes.
    pub fn disconnect(&mut self, id: &str) -> (r: Option<C>)
        requires
            old(self).wf(),
        ensures
            final(self).wf(),
            final(self).can_issue() == old(self).can_issue(),
            final(self)@ == old(self)@.remove(id@),
            match r {
                Some(client) => old(self)@.dom().contains(id@) && client == old(self)@[id@].1,
                None => !old(self)@.dom().contains(id@),
            },
    {
        let ghost before = *self;
        match self.find(id) {
            None => {
                None
            },
            Some(at) => {
                let entry = self.entries.remove(at);
                proof {
                    assert forall|i: int| 0 <= i < self.entries.len() implies #[trigger] self.entries[i]
                        == before.entries[if i < at {
                        i
                    } else {
                        i + 1
                    }] by {}
                    assert(self.wf()) by {
                        assert forall|i: int, j: int| 0 <= i < j < self.entries.len() implies (
                        #[trigger] self.entries[i]).serial != (#[trigger] self.entries[j]).serial by {
                            let a = if i < at { i } else { i + 1 };
                            let b = if j < at { j } else { j + 1 };
                            assert(before.entries[a].serial != before.entries[b].serial);
                        }
                    }
                    let wanted = before@.remove(id@);
                    assert forall|key: Seq<char>| self@.dom().contains(key) <==> wanted.dom().contains(
                        key,
                    ) by {
                        if self.known(key) {
                            let i = self.index_of(key);
                            let a = if i < at { i } else { i + 1 };
                            before.lemma_index(a);
                        }
                        if before.known(key) && key != id@ {
                            let a = before.index_of(key);
                            let i = if a < at { a } else { a - 1 };
                            assert(self.entries[i].connection.id@ == key);
                        }
                    }
                    assert forall|key: Seq<char>| self@.dom().contains(key) implies self@[key]
                        == wanted[key] by {
                        let i = self.index_of(key);
                        let a = if i < at { i } else { i + 1 };
                        before.lemma_index(a);
                    }
                }
                Some(entry.client)
            },
        }
    }
}

} // verus!
