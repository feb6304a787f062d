//! The masterlist: records as the open.mp API sends them (every field may be
//! missing) and the normalised server entries handed to the frontend.

use vstd::prelude::*;

use crate::rules::RuleMap;

verus! {

/// Seconds that fetching the masterlist may take.
pub const FETCH_TIMEOUT_SECS: u64 = 5;

/// A server record as the masterlist API sends it.
#[derive(Debug)]
pub struct ApiOpenMpServer {
    pub ip: Option<String>,
    pub hn: Option<String>,
    pub pc: Option<u32>,
    pub pm: Option<u32>,
    pub gm: Option<String>,
    pub la: Option<String>,
    pub pa: Option<bool>,
    pub vn: Option<String>,
    pub omp: Option<bool>,
    pub pr: Option<bool>,
    pub ru: Option<RuleMap>,
}

/// A masterlist entry: address, host name, player count and limit, game
/// mode, language, password flag, version, open.mp flag, partner flag, rules.
#[derive(Debug)]
pub struct OpenMpServer {
    pub ip: String,
    pub hn: String,
    pub pc: u32,
    pub pm: u32,
    pub gm: String,
    pub la: String,
    pub pa: bool,
    pub vn: String,
    pub omp: bool,
    pub pr: bool,
    pub ru: Option<RuleMap>,
}

/// A missing text becomes the empty text.
pub open spec fn text_or_empty(o: Option<String>) -> Seq<char> {
    match o {
        Some(s) => s@,
        None => Seq::empty(),
    }
}

/// A missing number becomes 0.
pub open spec fn number_or_zero(o: Option<u32>) -> u32 {
    match o {
        Some(n) => n,
        None => 0,
    }
}

/// A missing flag becomes `false`.
pub open spec fn flag_or_false(o: Option<bool>) -> bool {
    match o {
        Some(b) => b,
        None => false,
    }
}

/// `s` is the entry made of record `r` (which has an address).
pub open spec fn normalises(s: OpenMpServer, r: ApiOpenMpServer) -> bool {
    &&& r.ip == Some(s.ip)
    &&& s.hn@ == text_or_empty(r.hn)
    &&& s.pc == number_or_zero(r.pc)
    &&& s.pm == number_or_zero(r.pm)
    &&& s.gm@ == text_or_empty(r.gm)
    &&& s.la@ == text_or_empty(r.la)
    &&& s.pa == flag_or_false(r.pa)
    &&& s.vn@ == text_or_empty(r.vn)
    &&& s.omp == flag_or_false(r.omp)
    &&& s.pr == flag_or_false(r.pr)
    &&& s.ru == r.ru
}

/// Positions of the records that carry an address, in increasing order.
pub open spec fn with_address(rs: Seq<ApiOpenMpServer>) -> Seq<int>
    decreases rs.len(),
{
    if rs.len() == 0 {
        Seq::empty()
    } else if rs.last().ip is Some {
        with_address(rs.drop_last()).push(rs.len() - 1)
    } else {
        with_address(rs.drop_last())
    }
}

/// `out` is the normalised masterlist of `rs`: one entry per record with an
/// address, in record order.
pub open spec fn is_server_list_of(out: Seq<OpenMpServer>, rs: Seq<ApiOpenMpServer>) -> bool {
    &&& out.len() == with_address(rs).len()
    &&& forall|k: int|
        0 <= k < out.len() ==> normalises(#[trigger] out[k], rs[with_address(rs)[k]])
}

fn text_or_default(o: Option<String>) -> (res: String)
    ensures
        res@ == text_or_empty(o),
{
    match o {
        Some(s) => s,
        None => String::new(),
    }
}

/// The entry for one record, or `None` when the record has no address.
pub fn server_from_record(r: ApiOpenMpServer) -> (res: Option<OpenMpServer>)
    ensures
        res is Some <==> r.ip is Some,
        res matches Some(s) ==> normalises(s, r),
{
    match r.ip {
        None => None,
        Some(ip) => Some(
            OpenMpServer {
                ip,
                hn: text_or_default(r.hn),
                pc: match r.pc {
                    Some(n) => n,
                    None => 0,
                },
                pm: match r.pm {
                    Some(n) => n,
                    None => 0,
                },
                gm: text_or_default(r.gm),
                la: text_or_default(r.la),
                pa: match r.pa {
                    Some(b) => b,
                    None => false,
                },
                vn: text_or_default(r.vn),
                omp: match r.omp {
                    Some(b) => b,
                    None => false,
                },
                pr: match r.pr {
                    Some(b) => b,
                    None => false,
                },
                ru: r.ru,
            },
        ),
    }
}

/// Every position listed by `with_address` is below the length.
proof fn lemma_with_address_bounds(rs: Seq<ApiOpenMpServer>)
    ensures
        forall|k: int| 0 <= k < with_address(rs).len() ==> 0 <= #[trigger] with_address(rs)[k] < rs.len(),
    decreases rs.len(),
{
    if rs.len() > 0 {
        lemma_with_address_bounds(rs.drop_last());
        let w = with_address(rs.drop_last());
        assert forall|k: int| 0 <= k < with_address(rs).len() implies 0 <= #[trigger] with_address(rs)[k] < rs.len() by {
            if k < w.len() {
                assert(with_address(rs)[k] == w[k]);
            }
        }
    }
}

/// The masterlist as handed to the frontend: records without an address are
/// dropped, the others normalised, in the order received.
pub fn servers_from_records(records: Vec<ApiOpenMpServer>) -> (res: Vec<OpenMpServer>)
    ensures
        is_server_list_of(res@, records@),
{
    let ghost input = records@;
    let mut res: Vec<OpenMpServer> = Vec::new();
    for r in it: records.into_iter()
        invariant
            it.seq() == input,
            is_server_list_of(res@, input.take(it.index())),
    {
        let ghost i = it.index();
        let ghost prefix = input.take(i + 1);
        proof {
            assert(prefix.drop_last() =~= input.take(i));
            assert(prefix.last() == r);
            lemma_with_address_bounds(input.take(i));
            assert forall|k: int| 0 <= k < with_address(input.take(i)).len() implies
                #[trigger] prefix[with_address(input.take(i))[k]]
                    == input.take(i)[with_address(input.take(i))[k]] by {}
        }
        match server_from_record(r) {
            Some(s) => {
                res.push(s);
            },
            None => {},
        }
        assert(is_server_list_of(res@, prefix));
    }
    assert(input.take(input.len() as int) =~= input);
    res
}

/// A normalised entry keeps every value the record gives and only fills in
/// the missing ones: flags become `false`, numbers 0, texts empty.
pub proof fn law_entry_keeps_given_values(s: OpenMpServer, r: ApiOpenMpServer)
    requires
        normalises(s, r),
    ensures
        r.ip == Some(s.ip),
        r.pa matches Some(b) ==> s.pa == b,
        r.pa is None ==> !s.pa,
        r.omp matches Some(b) ==> s.omp == b,
        r.omp is None ==> !s.omp,
        r.pr matches Some(b) ==> s.pr == b,
        r.pr is None ==> !s.pr,
        r.pc matches Some(n) ==> s.pc == n,
        r.pc is None ==> s.pc == 0,
        r.pm matches Some(n) ==> s.pm == n,
        r.pm is None ==> s.pm == 0,
        r.hn matches Some(t) ==> s.hn@ == t@,
        r.hn is None ==> s.hn@.len() == 0,
        r.gm matches Some(t) ==> s.gm@ == t@,
        r.gm is None ==> s.gm@.len() == 0,
        r.la matches Some(t) ==> s.la@ == t@,
        r.la is None ==> s.la@.len() == 0,
        r.vn matches Some(t) ==> s.vn@ == t@,
        r.vn is None ==> s.vn@.len() == 0,
        s.ru == r.ru,
{
}

} // verus!
