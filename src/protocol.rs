use vstd::prelude::*;

verus! {

/// Size of the header that starts every request and response datagram.
pub const HEADER_SIZE: usize = 11;

/// Largest datagram the client receives, and the largest accepted string length.
pub const MAX_PACKET_SIZE: usize = 2048;

/// Per-attempt receive deadline used when no configuration is given.
pub const DEFAULT_TIMEOUT_MS: u64 = 1000;

/// Number of send attempts used when no configuration is given.
pub const MAX_RETRIES: usize = 3;

/// The four-byte tag `S`, `A`, `M`, `P` that opens every datagram.
pub open spec fn magic() -> Seq<u8> {
    seq![0x53u8, 0x41u8, 0x4du8, 0x50u8]
}

/// The kinds of query the protocol knows, one opcode byte each.
#[derive(Debug, Clone, Copy, PartialEq, Eq, Hash, Structural)]
pub enum QueryType {
    /// Server identity: hostname, player counts, gamemode, language (opcode `i`).
    Information,
    /// Server rules as name/value pairs (opcode `r`).
    Rules,
    /// Player names and scores (opcode `c`).
    ClientList,
    /// Player ids, names, scores and pings (opcode `d`).
    DetailedPlayerInfo,
    /// Liveness probe carrying a four-byte nonce (opcode `p`).
    Ping,
    /// Remote console command (opcode `x`).
    Rcon,
}

/// The opcode byte of each kind: the ASCII code of its letter.
pub open spec fn opcode_of(k: QueryType) -> u8 {
    match k {
        QueryType::Information => 0x69,  // 'i'
        QueryType::Rules => 0x72,  // 'r'
        QueryType::ClientList => 0x63,  // 'c'
        QueryType::DetailedPlayerInfo => 0x64,  // 'd'
        QueryType::Ping => 0x70,  // 'p'
        QueryType::Rcon => 0x78,  // 'x'
    }
}

/// The kind whose opcode is `b`, if any.
pub open spec fn kind_of(b: u8) -> Option<QueryType> {
    if b == 0x69 {
        Some(QueryType::Information)
    } else if b == 0x72 {
        Some(QueryType::Rules)
    } else if b == 0x63 {
        Some(QueryType::ClientList)
    } else if b == 0x64 {
        Some(QueryType::DetailedPlayerInfo)
    } else if b == 0x70 {
        Some(QueryType::Ping)
    } else if b == 0x78 {
        Some(QueryType::Rcon)
    } else {
        None
    }
}

/// Human-readable name of each kind.
pub open spec fn name_of(k: QueryType) -> Seq<char> {
    match k {
        QueryType::Information => "Information"@,
        QueryType::Rules => "Rules"@,
        QueryType::ClientList => "Client List"@,
        QueryType::DetailedPlayerInfo => "Detailed Player Info"@,
        QueryType::Ping => "Ping"@,
        QueryType::Rcon => "RCON"@,
    }
}

impl QueryType {
    /// The opcode byte sent at offset 10 of a request for this kind.
    pub fn opcode(&self) -> (r: u8)
        ensures
            r == opcode_of(*self),
    {
        match self {
            QueryType::Information => 0x69,
            QueryType::Rules => 0x72,
            QueryType::ClientList => 0x63,
            QueryType::DetailedPlayerInfo => 0x64,
            QueryType::Ping => 0x70,
            QueryType::Rcon => 0x78,
        }
    }

    /// The opcode as a character.
    pub fn opcode_char(&self) -> (r: char)
        ensures
            r as u32 == opcode_of(*self) as u32,
    {
        match self {
            QueryType::Information => 'i',
            QueryType::Rules => 'r',
            QueryType::ClientList => 'c',
            QueryType::DetailedPlayerInfo => 'd',
            QueryType::Ping => 'p',
            QueryType::Rcon => 'x',
        }
    }

    /// The kind announced by an opcode byte; `None` for a byte no kind uses.
    pub fn from_opcode(opcode: u8) -> (r: Option<QueryType>)
        ensures
            r == kind_of(opcode),
            r matches Some(k) ==> opcode_of(k) == opcode,
            r is None <==> (forall|k: QueryType| opcode_of(k) != opcode),
    {
        proof {
            if kind_of(opcode) is None {
                assert forall|k: QueryType| opcode_of(k) != opcode by {
                    match k {
                        QueryType::Information => {},
                        QueryType::Rules => {},
                        QueryType::ClientList => {},
                        QueryType::DetailedPlayerInfo => {},
                        QueryType::Ping => {},
                        QueryType::Rcon => {},
                    }
                }
            } else {
                assert(opcode_of(kind_of(opcode).unwrap()) == opcode);
            }
        }
        if opcode == 0x69 {
            Some(QueryType::Information)
        } else if opcode == 0x72 {
            Some(QueryType::Rules)
        } else if opcode == 0x63 {
            Some(QueryType::ClientList)
        } else if opcode == 0x64 {
            Some(QueryType::DetailedPlayerInfo)
        } else if opcode == 0x70 {
            Some(QueryType::Ping)
        } else if opcode == 0x78 {
            Some(QueryType::Rcon)
        } else {
            None
        }
    }

    /// Human-readable name of the kind, as shown to users.
    pub fn name(&self) -> (r: &'static str)
        ensures
            r@ == name_of(*self),
    {
        proof {
            reveal_strlit("Information");
            reveal_strlit("Rules");
            reveal_strlit("Client List");
            reveal_strlit("Detailed Player Info");
            reveal_strlit("Ping");
            reveal_strlit("RCON");
        }
        match self {
            QueryType::Information => "Information",
            QueryType::Rules => "Rules",
            QueryType::ClientList => "Client List",
            QueryType::DetailedPlayerInfo => "Detailed Player Info",
            QueryType::Ping => "Ping",
            QueryType::Rcon => "RCON",
        }
    }
}

/// Reading back the opcode of a kind gives that kind again.
pub proof fn lemma_opcode_round_trip(k: QueryType)
    ensures
        kind_of(opcode_of(k)) == Some(k),
{
}

/// No two kinds share an opcode.
pub proof fn lemma_opcodes_distinct(k1: QueryType, k2: QueryType)
    ensures
        opcode_of(k1) == opcode_of(k2) <==> k1 == k2,
{
}

} // verus!
