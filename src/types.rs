use vstd::prelude::*;

verus! {

/// The IP part of a server address.
#[derive(Debug, Clone, Copy, PartialEq, Eq, Structural)]
pub enum IpAddress {
    /// An IPv4 address as its four octets, in network order.
    V4(u8, u8, u8, u8),
    /// An IPv6 address as its 128 bits, in network order.
    V6(u128),
}

/// An already-resolved server endpoint: IP address and UDP port.
#[derive(Debug, Clone, Copy, PartialEq, Eq, Structural)]
pub struct ServerAddr {
    pub ip: IpAddress,
    pub port: u16,
}

/// Answer to an information query.
#[derive(Debug, Clone)]
pub struct ServerInfo {
    /// Whether the server has a password.
    pub password: bool,
    /// Current number of players on the server.
    pub players: u16,
    /// Maximum number of players the server can hold.
    pub max_players: u16,
    /// Server hostname.
    pub hostname: String,
    /// Current gamemode.
    pub gamemode: String,
    /// Server language.
    pub language: String,
}

impl View for ServerInfo {
    type V = (bool, u16, u16, Seq<char>, Seq<char>, Seq<char>);

    open spec fn view(&self) -> Self::V {
        (self.password, self.players, self.max_players, self.hostname@, self.gamemode@, self.language@)
    }
}

/// A player as listed by a client-list query.
#[derive(Debug, Clone)]
pub struct Player {
    /// Player's nickname.
    pub name: String,
    /// Player's score.
    pub score: i32,
}

impl View for Player {
    type V = (Seq<char>, i32);

    open spec fn view(&self) -> Self::V {
        (self.name@, self.score)
    }
}

/// A player as listed by a detailed-player query.
#[derive(Debug, Clone)]
pub struct DetailedPlayer {
    /// Player's id.
    pub id: u8,
    /// Player's nickname.
    pub name: String,
    /// Player's score.
    pub score: i32,
    /// Player's ping.
    pub ping: u32,
}

impl View for DetailedPlayer {
    type V = (u8, Seq<char>, i32, u32);

    open spec fn view(&self) -> Self::V {
        (self.id, self.name@, self.score, self.ping)
    }
}

/// Answer to a client-list query, in the order the server sent it.
#[derive(Debug, Clone)]
pub struct PlayerList {
    pub players: Vec<Player>,
}

impl View for PlayerList {
    type V = Seq<(Seq<char>, i32)>;

    open spec fn view(&self) -> Self::V {
        self.players@.map_values(|p: Player| p@)
    }
}

/// Answer to a detailed-player query, in the order the server sent it.
#[derive(Debug, Clone)]
pub struct DetailedPlayerList {
    pub players: Vec<DetailedPlayer>,
}

impl View for DetailedPlayerList {
    type V = Seq<(u8, Seq<char>, i32, u32)>;

    open spec fn view(&self) -> Self::V {
        self.players@.map_values(|p: DetailedPlayer| p@)
    }
}

/// Answer to an RCON command.
#[derive(Debug, Clone)]
pub struct RconResponse {
    /// Response message.
    pub message: String,
}

/// Answer to a ping query.
#[derive(Debug, Clone, Copy, PartialEq, Eq, Structural)]
pub struct PingInfo {
    /// Round-trip time in milliseconds.
    pub ping_ms: u64,
}

/// The mapping that a list of name/value pairs describes, where a later pair
/// overwrites an earlier one with the same name.
pub open spec fn rules_map(s: Seq<(Seq<char>, Seq<char>)>) -> Map<Seq<char>, Seq<char>>
    decreases s.len(),
{
    if s.len() == 0 {
        Map::empty()
    } else {
        rules_map(s.drop_last()).insert(s.last().0, s.last().1)
    }
}

/// No two pairs share a name.
pub open spec fn names_unique(s: Seq<(Seq<char>, Seq<char>)>) -> bool {
    forall|i: int, j: int| 0 <= i < j < s.len() ==> s[i].0 != s[j].0
}

proof fn lemma_rules_map_absent(s: Seq<(Seq<char>, Seq<char>)>, k: Seq<char>)
    requires
        forall|i: int| 0 <= i < s.len() ==> s[i].0 != k,
    ensures
        !rules_map(s).contains_key(k),
    decreases s.len(),
{
    if s.len() > 0 {
        lemma_rules_map_absent(s.drop_last(), k);
    }
}

proof fn lemma_rules_map_at(s: Seq<(Seq<char>, Seq<char>)>, i: int)
    requires
        names_unique(s),
        0 <= i < s.len(),
    ensures
        rules_map(s).contains_key(s[i].0),
        rules_map(s)[s[i].0] == s[i].1,
    decreases s.len(),
{
    if i < s.len() - 1 {
        lemma_rules_map_at(s.drop_last(), i);
    }
}

proof fn lemma_rules_map_len(s: Seq<(Seq<char>, Seq<char>)>)
    requires
        names_unique(s),
    ensures
        rules_map(s).dom().finite(),
        rules_map(s).dom().len() == s.len(),
    decreases s.len(),
{
    if s.len() > 0 {
        let d = s.drop_last();
        lemma_rules_map_len(d);
        lemma_rules_map_absent(d, s.last().0);
    }
}

proof fn lemma_rules_map_update(s: Seq<(Seq<char>, Seq<char>)>, i: int, v: Seq<char>)
    requires
        names_unique(s),
        0 <= i < s.len(),
    ensures
        rules_map(s.update(i, (s[i].0, v))) == rules_map(s).insert(s[i].0, v),
    decreases s.len(),
{
    let k = s[i].0;
    let u = s.update(i, (k, v));
    let d = s.drop_last();
    if i == s.len() - 1 {
        assert(u.drop_last() =~= d);
        assert(rules_map(u) =~= rules_map(s).insert(k, v));
    } else {
        assert(u.drop_last() =~= d.update(i, (k, v)));
        lemma_rules_map_update(d, i, v);
        assert(rules_map(u) =~= rules_map(s).insert(k, v));
    }
}

/// Answer to a rules query: a mapping from rule name to value.
#[derive(Debug, Clone)]
pub struct ServerRules {
    rules: Vec<(String, String)>,
}

impl ServerRules {
    /// The stored pairs, as text.
    pub closed spec fn pairs(&self) -> Seq<(Seq<char>, Seq<char>)> {
        self.rules@.map_values(|p: (String, String)| (p.0@, p.1@))
    }

    /// Stored names never repeat.
    pub closed spec fn wf(&self) -> bool {
        names_unique(self.pairs())
    }

    /// The mapping from rule name to value.
    pub closed spec fn view(&self) -> Map<Seq<char>, Seq<char>> {
        rules_map(self.pairs())
    }

    /// A rule set with no rules.
    pub fn new() -> (r: ServerRules)
        ensures
            r.wf(),
            r.view() == Map::<Seq<char>, Seq<char>>::empty(),
    {
        let r = ServerRules { rules: Vec::new() };
        assert(r.pairs() =~= Seq::empty());
        r
    }

    /// Sets rule `name` to `value`, replacing any value it had.
    pub fn insert(&mut self, name: String, value: String)
        requires
            old(self).wf(),
        ensures
            final(self).wf(),
            final(self).view() == old(self).view().insert(name@, value@),
    {
        let ghost s = self.pairs();
        let n = self.rules.len();
        let mut i: usize = 0;
        while i < n
            invariant
                n == self.rules.len(),
                s == self.pairs(),
                s == old(self).pairs(),
                names_unique(s),
                0 <= i <= n,
                forall|j: int| 0 <= j < i ==> s[j].0 != name@,
            decreases n - i,
        {
            if self.rules[i].0 == name {
                proof {
                    lemma_rules_map_update(s, i as int, value@);
                }
                let ghost k = s[i as int].0;
                assert(k == name@);
                self.rules.set(i, (name, value));
                assert(self.pairs() =~= s.update(i as int, (k, value@)));
                assert(names_unique(self.pairs()));
                return;
            }
            i = i + 1;
        }
        proof {
            lemma_rules_map_absent(s, name@);
        }
        self.rules.push((name, value));
        assert(self.pairs() =~= s.push((name@, value@)));
        assert(self.pairs().drop_last() =~= s);
        assert(names_unique(self.pairs()));
    }

    /// The value of rule `name`, if the server sent one.
    pub fn get(&self, name: &String) -> (r: Option<&String>)
        requires
            self.wf(),
        ensures
            r is Some <==> self.view().contains_key(name@),
            r matches Some(v) ==> v@ == self.view()[name@],
    {
        let ghost s = self.pairs();
        let mut i: usize = 0;
        while i < self.rules.len()
            invariant
                s == self.pairs(),
                names_unique(s),
                0 <= i <= self.rules.len(),
                forall|j: int| 0 <= j < i ==> s[j].0 != name@,
            decreases self.rules.len() - i,
        {
            if self.rules[i].0 == *name {
                proof {
                    lemma_rules_map_at(s, i as int);
                }
                return Some(&self.rules[i].1);
            }
            i = i + 1;
        }
        proof {
            lemma_rules_map_absent(s, name@);
        }
        None
    }

    /// Number of distinct rules.
    pub fn len(&self) -> (r: usize)
        requires
            self.wf(),
        ensures
            r == self.view().dom().len(),
    {
        proof {
            lemma_rules_map_len(self.pairs());
        }
        self.rules.len()
    }

    /// The rules as name/value pairs, each name once, in the order first received.
    pub fn entries(&self) -> (r: &Vec<(String, String)>)
        requires
            self.wf(),
        ensures
            r@.len() == self.view().dom().len(),
            forall|i: int|
                0 <= i < r@.len() ==> #[trigger] self.view().contains_key(r@[i].0@)
                    && self.view()[r@[i].0@] == r@[i].1@,
    {
        proof {
            lemma_rules_map_len(self.pairs());
            assert forall|i: int| 0 <= i < self.rules@.len() implies #[trigger] self.view().contains_key(self.rules@[i].0@)
                && self.view()[self.rules@[i].0@] == self.rules@[i].1@ by {
                lemma_rules_map_at(self.pairs(), i);
            }
        }
        &self.rules
    }
}

} // verus!
