//! Turning the replies of the SA-MP query protocol into the records that the
//! frontend receives: single-server info, batch results and player lists.

use vstd::prelude::*;

use crate::decimal::{decimal, u64_to_decimal};
use crate::rules::{pairs_map, rule_views, RuleEntry, RuleMap};
use crate::text::push_char;

verus! {

/// Seconds that a single-server query waits for a reply.
pub const QUERY_TIMEOUT_SECS: u64 = 2;

/// Seconds that a batch query waits for each reply.
pub const BATCH_TIMEOUT_SECS: u64 = 2;

/// Retries of a batch query for a server that does not answer.
pub const BATCH_RETRIES: u64 = 1;

/// Packets per second that a batch query sends at most.
pub const BATCH_PACKETS_PER_SECOND: u64 = 5000;

/// Threads that resolve host names during a batch query.
pub const BATCH_DNS_THREADS: u64 = 4;

/// Live information about one server, as handed to the frontend.
#[derive(Debug)]
pub struct ServerInfo {
    pub target: Option<String>,
    pub hostname: String,
    pub players: u32,
    pub max_players: u32,
    pub gamemode: String,
    pub language: String,
    pub password: bool,
    pub ping_ms: u32,
    pub rules: Option<RuleMap>,
    pub error: Option<String>,
}

/// One player of a server, as handed to the frontend.
#[derive(Debug)]
pub struct ClientResponse {
    pub id: u8,
    pub name: String,
    pub score: i32,
    pub ping: Option<u32>,
}

/// The information packet of a server's reply.
#[derive(Debug)]
pub struct InfoReply {
    pub hostname: String,
    pub players: u32,
    pub max_players: u32,
    pub gamemode: String,
    pub mapname: String,
    pub password: bool,
}

/// One entry of a batch query's outcome.
#[derive(Debug)]
pub struct BatchReply {
    /// The target as it was given.
    pub original_input: String,
    /// The information packet, or the error's text.
    pub result: Result<InfoReply, String>,
    /// Round-trip time in milliseconds.
    pub rtt_ms: u128,
}

/// One player of the detailed player list.
#[derive(Debug)]
pub struct DetailedClient {
    pub player_id: u8,
    pub name: String,
    pub score: i32,
    pub ping: u32,
}

/// One player of the basic player list.
#[derive(Debug)]
pub struct BasicClient {
    pub name: String,
    pub score: i32,
}

/// The query address `ip:port`.
pub open spec fn spec_target(ip: Seq<char>, port: u16) -> Seq<char> {
    ip + seq![':'] + decimal(port as nat)
}

/// The query address of a server, `ip:port`.
pub fn server_target(ip: &str, port: u16) -> (res: String)
    ensures
        res@ == spec_target(ip@, port),
{
    let mut res = ip.to_owned();
    push_char(&mut res, ':');
    let p = u64_to_decimal(port as u64);
    res.append(p.as_str());
    res
}

/// The reply's information packet is carried over into `s`.
pub open spec fn carries_info(s: ServerInfo, i: InfoReply) -> bool {
    &&& s.hostname == i.hostname
    &&& s.players == i.players
    &&& s.max_players == i.max_players
    &&& s.gamemode == i.gamemode
    &&& s.language == i.mapname
    &&& s.password == i.password
}

/// The ping reported for an optional round-trip time in milliseconds:
/// the time cut to 32 bits, or 0 when the ping query failed.
pub open spec fn spec_ping_ms(ping_ms: Option<u128>) -> u32 {
    match ping_ms {
        Some(ms) => ms as u32,
        None => 0,
    }
}

/// The rules reported: those of the reply inserted in order, or none when
/// the rules query failed.
pub open spec fn spec_rules(rules: Option<Vec<RuleEntry>>) -> Map<Seq<char>, Seq<char>> {
    match rules {
        Some(rs) => pairs_map(rule_views(rs@)),
        None => Map::empty(),
    }
}

/// The information about one server, from the replies to its queries:
/// the information packet, the ping (if it came) and the rules (if they came).
pub fn server_info_from_replies(
    target: String,
    info: InfoReply,
    ping_ms: Option<u128>,
    rules: Option<Vec<RuleEntry>>,
) -> (res: ServerInfo)
    ensures
        res.target == Some(target),
        carries_info(res, info),
        res.ping_ms == spec_ping_ms(ping_ms),
        res.rules matches Some(m) && m@ == spec_rules(rules),
        res.error is None,
{
    let ping: u32 = match ping_ms {
        Some(ms) => ms as u32,
        None => 0,
    };
    let map = match rules {
        Some(rs) => RuleMap::from_rules(&rs),
        None => RuleMap::new(),
    };
    ServerInfo {
        target: Some(target),
        hostname: info.hostname,
        players: info.players,
        max_players: info.max_players,
        gamemode: info.gamemode,
        language: info.mapname,
        password: info.password,
        ping_ms: ping,
        rules: Some(map),
        error: None,
    }
}

/// `s` is the report of batch entry `r`.
pub open spec fn reports_batch_entry(s: ServerInfo, r: BatchReply) -> bool {
    &&& s.target == Some(r.original_input)
    &&& s.rules is None
    &&& match r.result {
        Ok(i) => {
            &&& carries_info(s, i)
            &&& s.ping_ms == r.rtt_ms as u32
            &&& s.error is None
        },
        Err(e) => {
            &&& s.hostname@ == Seq::<char>::empty()
            &&& s.players == 0
            &&& s.max_players == 0
            &&& s.gamemode@ == Seq::<char>::empty()
            &&& s.language@ == Seq::<char>::empty()
            &&& !s.password
            &&& s.ping_ms == 0
            &&& s.error == Some(e)
        },
    }
}

/// The report of one batch entry.
pub fn server_info_from_batch_reply(r: BatchReply) -> (res: ServerInfo)
    ensures
        reports_batch_entry(res, r),
{
    match r.result {
        Ok(info) => ServerInfo {
            target: Some(r.original_input),
            hostname: info.hostname,
            players: info.players,
            max_players: info.max_players,
            gamemode: info.gamemode,
            language: info.mapname,
            password: info.password,
            ping_ms: r.rtt_ms as u32,
            rules: None,
            error: None,
        },
        Err(e) => ServerInfo {
            target: Some(r.original_input),
            hostname: String::new(),
            players: 0,
            max_players: 0,
            gamemode: String::new(),
            language: String::new(),
            password: false,
            ping_ms: 0,
            rules: None,
            error: Some(e),
        },
    }
}

/// The reports of a batch query, one per entry and in the same order.
pub fn server_infos_from_batch(replies: Vec<BatchReply>) -> (res: Vec<ServerInfo>)
    ensures
        res.len() == replies.len(),
        forall|k: int| 0 <= k < res.len() ==> reports_batch_entry(#[trigger] res[k], replies[k]),
{
    let ghost input = replies@;
    let mut res: Vec<ServerInfo> = Vec::new();
    for r in it: replies.into_iter()
        invariant
            it.seq() == input,
            res.len() == it.index(),
            forall|k: int| 0 <= k < res.len() ==> reports_batch_entry(#[trigger] res[k], input[k]),
    {
        res.push(server_info_from_batch_reply(r));
    }
    res
}

/// The ping of a player, or `None` for the values that servers send when
/// they do not know it (65535 and 4294967295).
pub open spec fn spec_client_ping(raw: u32) -> Option<u32> {
    if raw == 4294967295 || raw == 65535 {
        None
    } else {
        Some(raw)
    }
}

/// The ping of a player as reported to the frontend.
pub fn client_ping(raw: u32) -> (res: Option<u32>)
    ensures
        res == spec_client_ping(raw),
{
    if raw == 4294967295 || raw == 65535 {
        None
    } else {
        Some(raw)
    }
}

/// `c` reports detailed player `d`.
pub open spec fn reports_detailed(c: ClientResponse, d: DetailedClient) -> bool {
    &&& c.id == d.player_id
    &&& c.name == d.name
    &&& c.score == d.score
    &&& c.ping == spec_client_ping(d.ping)
}

/// `c` reports basic player `b`: no id (0) and no ping.
pub open spec fn reports_basic(c: ClientResponse, b: BasicClient) -> bool {
    &&& c.id == 0
    &&& c.name == b.name
    &&& c.score == b.score
    &&& c.ping is None
}

/// The players of a detailed list, in order.
pub fn clients_from_detailed(list: Vec<DetailedClient>) -> (res: Vec<ClientResponse>)
    ensures
        res.len() == list.len(),
        forall|k: int| 0 <= k < res.len() ==> reports_detailed(#[trigger] res[k], list[k]),
{
    let ghost input = list@;
    let mut res: Vec<ClientResponse> = Vec::new();
    for d in it: list.into_iter()
        invariant
            it.seq() == input,
            res.len() == it.index(),
            forall|k: int| 0 <= k < res.len() ==> reports_detailed(#[trigger] res[k], input[k]),
    {
        let ping = client_ping(d.ping);
        res.push(ClientResponse { id: d.player_id, name: d.name, score: d.score, ping });
    }
    res
}

/// The players of a basic list, in order.
pub fn clients_from_basic(list: Vec<BasicClient>) -> (res: Vec<ClientResponse>)
    ensures
        res.len() == list.len(),
        forall|k: int| 0 <= k < res.len() ==> reports_basic(#[trigger] res[k], list[k]),
{
    let ghost input = list@;
    let mut res: Vec<ClientResponse> = Vec::new();
    for b in it: list.into_iter()
        invariant
            it.seq() == input,
            res.len() == it.index(),
            forall|k: int| 0 <= k < res.len() ==> reports_basic(#[trigger] res[k], input[k]),
    {
        res.push(ClientResponse { id: 0, name: b.name, score: b.score, ping: None });
    }
    res
}

/// Where a player-list query stands after the detailed list was asked for.
#[derive(Debug)]
pub enum ClientsStep {
    /// The answer is ready.
    Done(Vec<ClientResponse>),
    /// The detailed list failed: ask for the basic list.
    AskBasicList,
}

/// The step after the detailed player list came back (or failed).
pub fn clients_after_detailed(detailed: Result<Vec<DetailedClient>, String>) -> (res: ClientsStep)
    ensures
        match detailed {
            Ok(list) => match res {
                ClientsStep::Done(cs) => cs.len() == list.len() && forall|k: int|
                    0 <= k < cs.len() ==> reports_detailed(#[trigger] cs[k], list[k]),
                ClientsStep::AskBasicList => false,
            },
            Err(_) => res is AskBasicList,
        },
{
    match detailed {
        Ok(list) => ClientsStep::Done(clients_from_detailed(list)),
        Err(_) => ClientsStep::AskBasicList,
    }
}

/// The answer after the basic player list came back (or failed).
pub fn clients_after_basic(basic: Result<Vec<BasicClient>, String>) -> (res: Result<
    Vec<ClientResponse>,
    String,
>)
    ensures
        match basic {
            Ok(list) => match res {
                Ok(cs) => cs.len() == list.len() && forall|k: int|
                    0 <= k < cs.len() ==> reports_basic(#[trigger] cs[k], list[k]),
                Err(_) => false,
            },
            Err(e) => res == Err::<Vec<ClientResponse>, String>(e),
        },
{
    match basic {
        Ok(list) => Ok(clients_from_basic(list)),
        Err(e) => Err(e),
    }
}

/// A batch entry that answered reports its info packet field for field,
/// exactly as a single-server query does, with the round-trip time (cut to
/// 32 bits) as ping and without rules or error.
pub proof fn law_answered_batch_entry_carries_info(s: ServerInfo, r: BatchReply, i: InfoReply)
    requires
        reports_batch_entry(s, r),
        r.result == Ok::<InfoReply, String>(i),
    ensures
        s.hostname == i.hostname,
        s.players == i.players,
        s.max_players == i.max_players,
        s.gamemode == i.gamemode,
        s.language == i.mapname,
        s.password == i.password,
        s.ping_ms == r.rtt_ms as u32,
        s.target == Some(r.original_input),
        s.rules is None,
        s.error is None,
        forall|single: ServerInfo|
            #[trigger] carries_info(single, i) ==> (
            single.hostname == s.hostname && single.players == s.players && single.max_players
                == s.max_players && single.gamemode == s.gamemode && single.language == s.language
                && single.password == s.password),
{
}

/// A player's reported ping is unknown exactly for the raw values 4294967295
/// and 65535, and is the raw value otherwise; id, name and score are kept.
pub proof fn law_detailed_player_ping(c: ClientResponse, d: DetailedClient)
    requires
        reports_detailed(c, d),
    ensures
        c.ping is None <==> (d.ping == 4294967295u32 || d.ping == 65535u32),
        c.ping matches Some(p) ==> p == d.ping,
        c.id == d.player_id,
        c.name == d.name,
        c.score == d.score,
{
}

} // verus!
