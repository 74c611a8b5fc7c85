use vstd::prelude::*;
use vstd::utf8::*;

use crate::error::{Error, ResponseFault};
use crate::reader::{
    read_i32_le, read_str_u32_le, read_str_u8, read_u16_le, read_u32_le, read_u8, take_i32,
    take_str, take_u16, take_u32, take_u8, utf8_text,
};
use crate::types::{
    rules_map, DetailedPlayer, DetailedPlayerList, Player, PlayerList, RconResponse, ServerInfo,
    ServerRules,
};

verus! {

/// What an information payload holds:
/// password flag, players, max players, hostname, gamemode, language.
pub open spec fn parse_info(b: Seq<u8>) -> Result<(bool, u16, u16, Seq<char>, Seq<char>, Seq<char>), Error> {
    match take_u8(b, 0) {
        Err(e) => Err(e),
        Ok((pw, p1)) => match take_u16(b, p1) {
            Err(e) => Err(e),
            Ok((players, p2)) => match take_u16(b, p2) {
                Err(e) => Err(e),
                Ok((max, p3)) => match take_str(b, p3, 4) {
                    Err(e) => Err(e),
                    Ok((host, p4)) => match take_str(b, p4, 4) {
                        Err(e) => Err(e),
                        Ok((mode, p5)) => match take_str(b, p5, 4) {
                            Err(e) => Err(e),
                            Ok((lang, _)) => Ok((pw != 0, players, max, host, mode, lang)),
                        },
                    },
                },
            },
        },
    }
}

/// The first `n` name/value pairs from `p` on, and the position after them.
pub open spec fn parse_pairs(b: Seq<u8>, p: int, n: nat) -> Result<(Seq<(Seq<char>, Seq<char>)>, int), Error>
    decreases n,
{
    if n == 0 {
        Ok((seq![], p))
    } else {
        match parse_pairs(b, p, (n - 1) as nat) {
            Err(e) => Err(e),
            Ok((s, q)) => match take_str(b, q, 1) {
                Err(e) => Err(e),
                Ok((k, q2)) => match take_str(b, q2, 1) {
                    Err(e) => Err(e),
                    Ok((v, q3)) => Ok((s.push((k, v)), q3)),
                },
            },
        }
    }
}

/// The first `n` (name, score) entries from `p` on, and the position after them.
pub open spec fn parse_players(b: Seq<u8>, p: int, n: nat) -> Result<(Seq<(Seq<char>, i32)>, int), Error>
    decreases n,
{
    if n == 0 {
        Ok((seq![], p))
    } else {
        match parse_players(b, p, (n - 1) as nat) {
            Err(e) => Err(e),
            Ok((s, q)) => match take_str(b, q, 1) {
                Err(e) => Err(e),
                Ok((name, q2)) => match take_i32(b, q2) {
                    Err(e) => Err(e),
                    Ok((score, q3)) => Ok((s.push((name, score)), q3)),
                },
            },
        }
    }
}

/// The first `n` (id, name, score, ping) entries from `p` on, and the position after them.
pub open spec fn parse_detailed(b: Seq<u8>, p: int, n: nat) -> Result<(Seq<(u8, Seq<char>, i32, u32)>, int), Error>
    decreases n,
{
    if n == 0 {
        Ok((seq![], p))
    } else {
        match parse_detailed(b, p, (n - 1) as nat) {
            Err(e) => Err(e),
            Ok((s, q)) => match take_u8(b, q) {
                Err(e) => Err(e),
                Ok((id, q1)) => match take_str(b, q1, 1) {
                    Err(e) => Err(e),
                    Ok((name, q2)) => match take_i32(b, q2) {
                        Err(e) => Err(e),
                        Ok((score, q3)) => match take_u32(b, q3) {
                            Err(e) => Err(e),
                            Ok((ping, q4)) => Ok((s.push((id, name, score, ping)), q4)),
                        },
                    },
                },
            },
        }
    }
}

/// What a rules payload holds: a count, then that many pairs.
pub open spec fn parse_rules(b: Seq<u8>) -> Result<Map<Seq<char>, Seq<char>>, Error> {
    match take_u16(b, 0) {
        Err(e) => Err(e),
        Ok((n, p)) => match parse_pairs(b, p, n as nat) {
            Err(e) => Err(e),
            Ok((s, _)) => Ok(rules_map(s)),
        },
    }
}

/// What a client-list payload holds: a count, then that many players.
pub open spec fn parse_client_list(b: Seq<u8>) -> Result<Seq<(Seq<char>, i32)>, Error> {
    match take_u16(b, 0) {
        Err(e) => Err(e),
        Ok((n, p)) => match parse_players(b, p, n as nat) {
            Err(e) => Err(e),
            Ok((s, _)) => Ok(s),
        },
    }
}

/// What a detailed-player payload holds: a count, then that many players.
pub open spec fn parse_detailed_list(b: Seq<u8>) -> Result<Seq<(u8, Seq<char>, i32, u32)>, Error> {
    match take_u16(b, 0) {
        Err(e) => Err(e),
        Ok((n, p)) => match parse_detailed(b, p, n as nat) {
            Err(e) => Err(e),
            Ok((s, _)) => Ok(s),
        },
    }
}

/// What an RCON reply holds: its whole payload as text; an empty one means
/// the password was refused.
pub open spec fn parse_rcon(b: Seq<u8>) -> Result<Seq<char>, Error> {
    if b.len() == 0 {
        Err(Error::RconAuthFailed)
    } else if !valid_utf8(b) {
        Err(Error::InvalidUtf8)
    } else {
        Ok(decode_utf8(b))
    }
}

/// A ping reply echoes the nonce in its first four bytes.
pub open spec fn echoes_nonce(b: Seq<u8>, nonce: Seq<u8>) -> bool {
    b.len() >= 4 && b.subrange(0, 4) == nonce
}

proof fn lemma_pairs_err_stays(b: Seq<u8>, p: int, i: nat, n: nat)
    requires
        i <= n,
        parse_pairs(b, p, i) is Err,
    ensures
        parse_pairs(b, p, n) == parse_pairs(b, p, i),
    decreases n,
{
    if i < n {
        lemma_pairs_err_stays(b, p, i, (n - 1) as nat);
    }
}

proof fn lemma_players_err_stays(b: Seq<u8>, p: int, i: nat, n: nat)
    requires
        i <= n,
        parse_players(b, p, i) is Err,
    ensures
        parse_players(b, p, n) == parse_players(b, p, i),
    decreases n,
{
    if i < n {
        lemma_players_err_stays(b, p, i, (n - 1) as nat);
    }
}

proof fn lemma_detailed_err_stays(b: Seq<u8>, p: int, i: nat, n: nat)
    requires
        i <= n,
        parse_detailed(b, p, i) is Err,
    ensures
        parse_detailed(b, p, n) == parse_detailed(b, p, i),
    decreases n,
{
    if i < n {
        lemma_detailed_err_stays(b, p, i, (n - 1) as nat);
    }
}

/// Decodes an information payload.
pub fn decode_info(payload: &[u8]) -> (r: Result<ServerInfo, Error>)
    ensures
        match parse_info(payload@) {
            Ok(v) => r matches Ok(info) && info@ == v,
            Err(e) => r == Err::<ServerInfo, Error>(e),
        },
{
    let (pw, p1) = match read_u8(payload, 0) {
        Ok(x) => x,
        Err(e) => return Err(e),
    };
    let (players, p2) = match read_u16_le(payload, p1) {
        Ok(x) => x,
        Err(e) => return Err(e),
    };
    let (max_players, p3) = match read_u16_le(payload, p2) {
        Ok(x) => x,
        Err(e) => return Err(e),
    };
    let (hostname, p4) = match read_str_u32_le(payload, p3) {
        Ok(x) => x,
        Err(e) => return Err(e),
    };
    let (gamemode, p5) = match read_str_u32_le(payload, p4) {
        Ok(x) => x,
        Err(e) => return Err(e),
    };
    let (language, _) = match read_str_u32_le(payload, p5) {
        Ok(x) => x,
        Err(e) => return Err(e),
    };
    Ok(ServerInfo { password: pw != 0, players, max_players, hostname, gamemode, language })
}

/// Decodes a rules payload. A later rule with the same name overwrites an
/// earlier one; bytes after the last rule are ignored.
pub fn decode_rules(payload: &[u8]) -> (r: Result<ServerRules, Error>)
    ensures
        match parse_rules(payload@) {
            Ok(m) => r matches Ok(rules) && rules.wf() && rules.view() == m,
            Err(e) => r == Err::<ServerRules, Error>(e),
        },
{
    let (n, p0) = match read_u16_le(payload, 0) {
        Ok(x) => x,
        Err(e) => return Err(e),
    };
    let mut rules = ServerRules::new();
    let mut pos: usize = p0;
    let ghost mut s: Seq<(Seq<char>, Seq<char>)> = seq![];
    let mut i: u16 = 0;
    while i < n
        invariant
            take_u16(payload@, 0) == Ok::<(u16, int), Error>((n, p0 as int)),
            0 <= i <= n,
            parse_pairs(payload@, p0 as int, i as nat) == Ok::<(Seq<(Seq<char>, Seq<char>)>, int), Error>((s, pos as int)),
            rules.wf(),
            rules.view() == rules_map(s),
        decreases n - i,
    {
        let (name, p1) = match read_str_u8(payload, pos) {
            Ok(x) => x,
            Err(e) => {
                proof {
                    lemma_pairs_err_stays(payload@, p0 as int, (i + 1) as nat, n as nat);
                }
                return Err(e);
            },
        };
        let (value, p2) = match read_str_u8(payload, p1) {
            Ok(x) => x,
            Err(e) => {
                proof {
                    lemma_pairs_err_stays(payload@, p0 as int, (i + 1) as nat, n as nat);
                }
                return Err(e);
            },
        };
        proof {
            let t = s.push((name@, value@));
            assert(t.drop_last() =~= s);
            s = t;
        }
        rules.insert(name, value);
        pos = p2;
        i = i + 1;
    }
    Ok(rules)
}

/// Decodes a client-list payload, keeping the server's order.
pub fn decode_client_list(payload: &[u8]) -> (r: Result<PlayerList, Error>)
    ensures
        match parse_client_list(payload@) {
            Ok(v) => r matches Ok(list) && list@ == v,
            Err(e) => r == Err::<PlayerList, Error>(e),
        },
{
    let (n, p0) = match read_u16_le(payload, 0) {
        Ok(x) => x,
        Err(e) => return Err(e),
    };
    let mut players: Vec<Player> = Vec::new();
    assert(players@.map_values(|p: Player| p@) =~= Seq::<(Seq<char>, i32)>::empty());
    let mut pos: usize = p0;
    let mut i: u16 = 0;
    while i < n
        invariant
            take_u16(payload@, 0) == Ok::<(u16, int), Error>((n, p0 as int)),
            0 <= i <= n,
            parse_players(payload@, p0 as int, i as nat) == Ok::<(Seq<(Seq<char>, i32)>, int), Error>((players@.map_values(|p: Player| p@), pos as int)),
        decreases n - i,
    {
        let (name, p1) = match read_str_u8(payload, pos) {
            Ok(x) => x,
            Err(e) => {
                proof {
                    lemma_players_err_stays(payload@, p0 as int, (i + 1) as nat, n as nat);
                }
                return Err(e);
            },
        };
        let (score, p2) = match read_i32_le(payload, p1) {
            Ok(x) => x,
            Err(e) => {
                proof {
                    lemma_players_err_stays(payload@, p0 as int, (i + 1) as nat, n as nat);
                }
                return Err(e);
            },
        };
        let ghost before = players@;
        players.push(Player { name, score });
        assert(players@.map_values(|p: Player| p@) =~= before.map_values(|p: Player| p@).push((name@, score)));
        pos = p2;
        i = i + 1;
    }
    Ok(PlayerList { players })
}

/// Decodes a detailed-player payload, keeping the server's order.
pub fn decode_detailed_player_info(payload: &[u8]) -> (r: Result<DetailedPlayerList, Error>)
    ensures
        match parse_detailed_list(payload@) {
            Ok(v) => r matches Ok(list) && list@ == v,
            Err(e) => r == Err::<DetailedPlayerList, Error>(e),
        },
{
    let (n, p0) = match read_u16_le(payload, 0) {
        Ok(x) => x,
        Err(e) => return Err(e),
    };
    let mut players: Vec<DetailedPlayer> = Vec::new();
    assert(players@.map_values(|p: DetailedPlayer| p@) =~= Seq::<(u8, Seq<char>, i32, u32)>::empty());
    let mut pos: usize = p0;
    let mut i: u16 = 0;
    while i < n
        invariant
            take_u16(payload@, 0) == Ok::<(u16, int), Error>((n, p0 as int)),
            0 <= i <= n,
            parse_detailed(payload@, p0 as int, i as nat) == Ok::<(Seq<(u8, Seq<char>, i32, u32)>, int), Error>((players@.map_values(|p: DetailedPlayer| p@), pos as int)),
        decreases n - i,
    {
        let (id, p1) = match read_u8(payload, pos) {
            Ok(x) => x,
            Err(e) => {
                proof {
                    lemma_detailed_err_stays(payload@, p0 as int, (i + 1) as nat, n as nat);
                }
                return Err(e);
            },
        };
        let (name, p2) = match read_str_u8(payload, p1) {
            Ok(x) => x,
            Err(e) => {
                proof {
                    lemma_detailed_err_stays(payload@, p0 as int, (i + 1) as nat, n as nat);
                }
                return Err(e);
            },
        };
        let (score, p3) = match read_i32_le(payload, p2) {
            Ok(x) => x,
            Err(e) => {
                proof {
                    lemma_detailed_err_stays(payload@, p0 as int, (i + 1) as nat, n as nat);
                }
                return Err(e);
            },
        };
        let (ping, p4) = match read_u32_le(payload, p3) {
            Ok(x) => x,
            Err(e) => {
                proof {
                    lemma_detailed_err_stays(payload@, p0 as int, (i + 1) as nat, n as nat);
                }
                return Err(e);
            },
        };
        let ghost before = players@;
        players.push(DetailedPlayer { id, name, score, ping });
        assert(players@.map_values(|p: DetailedPlayer| p@) =~= before.map_values(|p: DetailedPlayer| p@).push((id, name@, score, ping)));
        pos = p4;
        i = i + 1;
    }
    Ok(DetailedPlayerList { players })
}

/// Checks that a ping payload echoes `nonce` in its first four bytes.
pub fn check_ping(payload: &[u8], nonce: &[u8; 4]) -> (r: Result<(), Error>)
    ensures
        r is Ok <==> echoes_nonce(payload@, nonce@),
        r matches Err(e) ==> e == Error::InvalidResponse(ResponseFault::PingMismatch),
{
    if payload.len() < 4 || payload[0] != nonce[0] || payload[1] != nonce[1] || payload[2] != nonce[2]
        || payload[3] != nonce[3] {
        proof {
            if echoes_nonce(payload@, nonce@) {
                assert(payload@.subrange(0, 4)[0] == payload@[0]);
                assert(payload@.subrange(0, 4)[1] == payload@[1]);
                assert(payload@.subrange(0, 4)[2] == payload@[2]);
                assert(payload@.subrange(0, 4)[3] == payload@[3]);
            }
        }
        return Err(Error::InvalidResponse(ResponseFault::PingMismatch));
    }
    assert(payload@.subrange(0, 4) =~= nonce@);
    Ok(())
}

/// Decodes an RCON reply: the whole payload as text.
pub fn decode_rcon(payload: &[u8]) -> (r: Result<RconResponse, Error>)
    ensures
        match parse_rcon(payload@) {
            Ok(m) => r matches Ok(resp) && resp.message@ == m,
            Err(e) => r == Err::<RconResponse, Error>(e),
        },
{
    if payload.len() == 0 {
        return Err(Error::RconAuthFailed);
    }
    match utf8_text(payload) {
        Ok(message) => Ok(RconResponse { message }),
        Err(e) => Err(e),
    }
}

} // verus!
