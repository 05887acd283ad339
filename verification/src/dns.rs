//! The authoritative DNS answers for the zone: SOA and NS for the zone
//! itself, A and AAAA for host names from their configuration's address,
//! and NXDOMAIN with the SOA record for everything else.
use vstd::prelude::*;

use crate::text::{join3, opt_str, strip_trailing_char, without_trailing};

verus! {

/// The query opcode.
pub const OPCODE_QUERY: u8 = 0;

/// Record type A.
pub const TYPE_A: u16 = 1;

/// Record type NS.
pub const TYPE_NS: u16 = 2;

/// Record type SOA.
pub const TYPE_SOA: u16 = 6;

/// Record type AAAA.
pub const TYPE_AAAA: u16 = 28;

/// Query type ANY.
pub const TYPE_ANY: u16 = 255;

/// Time to live of the zone's own records (SOA, NS).
pub const ZONE_TTL: u32 = 3600;

/// Time to live of host addresses: short, since they change.
pub const HOST_TTL: u32 = 60;

/// The SOA timers: serial, refresh, retry, expire, minimum.
pub const SOA_SERIAL: u32 = 1;

pub const SOA_REFRESH: i32 = 3600;

pub const SOA_RETRY: i32 = 600;

pub const SOA_EXPIRE: i32 = 86400;

pub const SOA_MINIMUM: u32 = 60;

// ---------------------------------------------------------------------------
// Address parsing
// ---------------------------------------------------------------------------
/// The sixteen octets of the IPv6 address that the text spells in the
/// standard library's notation, or `None` when it spells none.
pub uninterp spec fn ipv6_octets(text: Seq<char>) -> Option<Seq<u8>>;

pub open spec fn is_ascii_digit(c: char) -> bool {
    '0' <= c && c <= '9'
}

/// The number that a run of decimal digits spells.
pub open spec fn digits_value(f: Seq<char>) -> int
    decreases f.len(),
{
    if f.len() == 0 {
        0
    } else {
        digits_value(f.drop_last()) * 10 + (f.last() as int - '0' as int)
    }
}

/// The octet a dotted-decimal field spells: one to three decimal digits,
/// without a leading zero unless the field is `0`, at most 255.
pub open spec fn octet_field(f: Seq<char>) -> Option<u8> {
    if 1 <= f.len() <= 3 && (forall|i: int| 0 <= i < f.len() ==> is_ascii_digit(#[trigger] f[i]))
        && (f.len() == 1 || f[0] != '0') && digits_value(f) <= 255 {
        Some(digits_value(f) as u8)
    } else {
        None
    }
}

/// The fields of the text between its dots.
pub open spec fn dot_fields(t: Seq<char>) -> Seq<Seq<char>>
    decreases t.len(),
{
    if t.len() == 0 {
        seq![Seq::<char>::empty()]
    } else {
        let rest = dot_fields(t.drop_first());
        if t[0] == '.' {
            seq![Seq::<char>::empty()] + rest
        } else {
            rest.update(0, seq![t[0]] + rest[0])
        }
    }
}

/// The four octets of the IPv4 address that the text spells in dotted
/// decimal (exactly four fields, each an [`octet_field`]), or `None` when
/// it spells none.
pub open spec fn ipv4_octets(text: Seq<char>) -> Option<Seq<u8>> {
    let f = dot_fields(text);
    if f.len() == 4 && octet_field(f[0]) is Some && octet_field(f[1]) is Some && octet_field(
        f[2],
    ) is Some && octet_field(f[3]) is Some {
        Some(
            seq![
                octet_field(f[0])->0,
                octet_field(f[1])->0,
                octet_field(f[2])->0,
                octet_field(f[3])->0,
            ],
        )
    } else {
        None
    }
}

/// Wraps `core::net::Ipv6Addr::from_str` followed by `octets`. Claimed: the
/// result depends on the text alone and is named by [`ipv6_octets`]; an
/// address has sixteen octets.
#[verifier::external_body]
fn parse_ipv6(text: &str) -> (res: Option<Vec<u8>>)
    ensures
        ipv6_octets(text@) == (match res {
            Some(o) => Some(o@),
            None => None,
        }),
        res matches Some(o) ==> o@.len() == 16,
{
    match <core::net::Ipv6Addr as core::str::FromStr>::from_str(text) {
        Ok(a) => Some(a.octets().to_vec()),
        Err(_) => None,
    }
}

/// Wraps `core::net::Ipv4Addr::from_str` followed by `octets`. Claimed: the
/// text parses exactly when it is in dotted-decimal notation as
/// [`ipv4_octets`] states it (four decimal fields, no leading zeros, each at
/// most 255, as the standard library documents), and the octets are those
/// fields.
#[verifier::external_body]
fn parse_ipv4(text: &str) -> (res: Option<Vec<u8>>)
    ensures
        ipv4_octets(text@) == (match res {
            Some(o) => Some(o@),
            None => None,
        }),
        res matches Some(o) ==> o@.len() == 4,
{
    match <core::net::Ipv4Addr as core::str::FromStr>::from_str(text) {
        Ok(a) => Some(a.octets().to_vec()),
        Err(_) => None,
    }
}

// ---------------------------------------------------------------------------
// Domain names
// ---------------------------------------------------------------------------
#[verifier::external_type_specification]
#[verifier::external_body]
pub struct ExDnsName(hickory_proto::rr::Name);

#[verifier::external_type_specification]
#[verifier::external_body]
pub struct ExProtoError(hickory_proto::error::ProtoError);

/// Whether hickory reads the text as a domain name (`Name::from_str`, which
/// accepts ASCII or UTF-8 labels within the length limits of DNS).
pub uninterp spec fn dns_name_valid(text: Seq<char>) -> bool;

/// Wraps `<hickory_proto::rr::Name as FromStr>::from_str`. Claimed: whether
/// the text parses depends on the text alone and is named by
/// [`dns_name_valid`]; nothing is claimed of the parsed name.
#[verifier::external_body]
fn parse_dns_name(text: &str) -> (res: Result<hickory_proto::rr::Name, hickory_proto::error::ProtoError>)
    ensures
        dns_name_valid(text@) == res is Ok,
{
    <hickory_proto::rr::Name as core::str::FromStr>::from_str(text)
}

/// The zone's own name: `domain.`.
pub open spec fn zone_origin(domain: Seq<char>) -> Seq<char> {
    domain + seq!['.']
}

/// The zone's name server: `ns.domain.`.
pub open spec fn zone_ns_server(domain: Seq<char>) -> Seq<char> {
    seq!['n', 's', '.'] + domain + seq!['.']
}

/// The zone administrator's mailbox: `admin.domain.`.
pub open spec fn zone_admin_email(domain: Seq<char>) -> Seq<char> {
    seq!['a', 'd', 'm', 'i', 'n', '.'] + domain + seq!['.']
}

// ---------------------------------------------------------------------------
// Records and replies
// ---------------------------------------------------------------------------
/// The data of the SOA record.
#[derive(Debug, Clone)]
pub struct SoaData {
    pub mname: String,
    pub rname: String,
    pub serial: u32,
    pub refresh: i32,
    pub retry: i32,
    pub expire: i32,
    pub minimum: u32,
}

/// The data of a record; its kind is its record type.
#[derive(Debug, Clone)]
pub enum RecordData {
    /// An IPv4 address, four octets.
    A(Vec<u8>),
    /// An IPv6 address, sixteen octets.
    Aaaa(Vec<u8>),
    /// A name server.
    Ns(String),
    /// The zone's start of authority.
    Soa(SoaData),
}

/// A resource record of class IN.
#[derive(Debug, Clone)]
pub struct DnsRecord {
    pub name: String,
    pub ttl: u32,
    pub data: RecordData,
}

/// The response code of a reply.
#[derive(Debug, Clone, Copy, PartialEq, Eq, Structural)]
pub enum ResponseCode {
    NoError,
    NotImp,
    NXDomain,
}

/// An authoritative reply.
#[derive(Debug, Clone)]
pub struct DnsReply {
    pub response_code: ResponseCode,
    pub answers: Vec<DnsRecord>,
    pub additionals: Vec<DnsRecord>,
}

pub enum RecordDataView {
    A(Seq<u8>),
    Aaaa(Seq<u8>),
    Ns(Seq<char>),
    Soa {
        mname: Seq<char>,
        rname: Seq<char>,
        serial: u32,
        refresh: i32,
        retry: i32,
        expire: i32,
        minimum: u32,
    },
}

pub struct DnsRecordView {
    pub name: Seq<char>,
    pub ttl: u32,
    pub data: RecordDataView,
}

pub struct DnsReplyView {
    pub response_code: ResponseCode,
    pub answers: Seq<DnsRecordView>,
    pub additionals: Seq<DnsRecordView>,
}

impl View for RecordData {
    type V = RecordDataView;

    open spec fn view(&self) -> RecordDataView {
        match self {
            RecordData::A(o) => RecordDataView::A(o@),
            RecordData::Aaaa(o) => RecordDataView::Aaaa(o@),
            RecordData::Ns(n) => RecordDataView::Ns(n@),
            RecordData::Soa(s) => RecordDataView::Soa {
                mname: s.mname@,
                rname: s.rname@,
                serial: s.serial,
                refresh: s.refresh,
                retry: s.retry,
                expire: s.expire,
                minimum: s.minimum,
            },
        }
    }
}

impl View for DnsRecord {
    type V = DnsRecordView;

    open spec fn view(&self) -> DnsRecordView {
        DnsRecordView { name: self.name@, ttl: self.ttl, data: self.data@ }
    }
}

pub open spec fn records_view(v: Seq<DnsRecord>) -> Seq<DnsRecordView> {
    v.map_values(|r: DnsRecord| r@)
}

impl View for DnsReply {
    type V = DnsReplyView;

    open spec fn view(&self) -> DnsReplyView {
        DnsReplyView {
            response_code: self.response_code,
            answers: records_view(self.answers@),
            additionals: records_view(self.additionals@),
        }
    }
}

/// The names of the zone the server answers for.
pub struct AuthorityView {
    pub origin: Seq<char>,
    pub ns_server: Seq<char>,
    pub admin_email: Seq<char>,
}

/// The authority for one zone: the zone's name, its name server and the
/// mailbox of its administrator, all fully qualified.
#[derive(Debug, Clone)]
pub struct DdnsAuthority {
    origin: String,
    ns_server: String,
    admin_email: String,
}

impl View for DdnsAuthority {
    type V = AuthorityView;

    closed spec fn view(&self) -> AuthorityView {
        AuthorityView {
            origin: self.origin@,
            ns_server: self.ns_server@,
            admin_email: self.admin_email@,
        }
    }
}

/// The zone's SOA record.
pub open spec fn soa_record(a: AuthorityView) -> DnsRecordView {
    DnsRecordView {
        name: a.origin,
        ttl: ZONE_TTL,
        data: RecordDataView::Soa {
            mname: a.ns_server,
            rname: a.admin_email,
            serial: SOA_SERIAL,
            refresh: SOA_REFRESH,
            retry: SOA_RETRY,
            expire: SOA_EXPIRE,
            minimum: SOA_MINIMUM,
        },
    }
}

/// The zone's NS record.
pub open spec fn ns_record(a: AuthorityView) -> DnsRecordView {
    DnsRecordView { name: a.origin, ttl: ZONE_TTL, data: RecordDataView::Ns(a.ns_server) }
}

/// A reply with these answers and no additional records.
pub open spec fn answer_reply(answers: Seq<DnsRecordView>) -> DnsReplyView {
    DnsReplyView { response_code: ResponseCode::NoError, answers, additionals: seq![] }
}

/// The reply for a name without records: NXDOMAIN with the zone's SOA record.
pub open spec fn nxdomain_reply(a: AuthorityView) -> DnsReplyView {
    DnsReplyView {
        response_code: ResponseCode::NXDomain,
        answers: seq![],
        additionals: seq![soa_record(a)],
    }
}

/// The reply to an operation other than a query.
pub open spec fn not_implemented_reply() -> DnsReplyView {
    DnsReplyView { response_code: ResponseCode::NotImp, answers: seq![], additionals: seq![] }
}

/// An address record of a host.
pub open spec fn address_record(name: Seq<char>, data: RecordDataView) -> DnsRecordView {
    DnsRecordView { name, ttl: HOST_TTL, data }
}

pub open spec fn asks_for_address(qtype: u16) -> bool {
    qtype == TYPE_A || qtype == TYPE_AAAA || qtype == TYPE_ANY
}

/// An address read from a host's stored text.
#[derive(Debug, Clone)]
pub enum HostAddress {
    /// Sixteen octets.
    V6(Vec<u8>),
    /// Four octets.
    V4(Vec<u8>),
}

pub open spec fn host_address_view(a: Option<HostAddress>) -> Option<RecordDataView> {
    match a {
        Some(HostAddress::V6(o)) => Some(RecordDataView::Aaaa(o@)),
        Some(HostAddress::V4(o)) => Some(RecordDataView::A(o@)),
        None => None,
    }
}

/// The reply for a host name whose stored address reads as `addr`
/// (`None` when the host is unknown, has no address, or it reads as neither
/// kind): the one record of the kind asked for, when there is one.
pub open spec fn address_reply(
    a: AuthorityView,
    qname: Seq<char>,
    qtype: u16,
    addr: Option<RecordDataView>,
) -> DnsReplyView {
    match addr {
        Some(RecordDataView::Aaaa(o)) => if qtype == TYPE_AAAA || qtype == TYPE_ANY {
            answer_reply(seq![address_record(qname, RecordDataView::Aaaa(o))])
        } else {
            nxdomain_reply(a)
        },
        Some(RecordDataView::A(o)) => if qtype == TYPE_A || qtype == TYPE_ANY {
            answer_reply(seq![address_record(qname, RecordDataView::A(o))])
        } else {
            nxdomain_reply(a)
        },
        _ => nxdomain_reply(a),
    }
}

/// How a stored address text reads: as IPv6 first, else as IPv4.
pub open spec fn read_address(text: Option<Seq<char>>) -> Option<RecordDataView> {
    match text {
        None => None,
        Some(t) => match ipv6_octets(t) {
            Some(o) => Some(RecordDataView::Aaaa(o)),
            None => match ipv4_octets(t) {
                Some(o) => Some(RecordDataView::A(o)),
                None => None,
            },
        },
    }
}

/// A DNS question as the server sees it.
#[derive(Debug, Clone)]
pub struct DnsQuery {
    /// The message's opcode.
    pub op_code: u8,
    /// The queried name, fully qualified (with its final dot).
    pub name: String,
    /// The queried record type.
    pub query_type: u16,
}

/// The next step of answering a question.
#[derive(Debug)]
pub enum DnsStep {
    /// Send this reply.
    Reply(DnsReply),
    /// Look up the stored address of this host name.
    LookUp { hostname: String },
}

/// The host name a question asks about: its name without the final dots.
pub open spec fn lookup_name(qname: Seq<char>) -> Seq<char> {
    without_trailing(qname, '.')
}


impl DdnsAuthority {
    /// The three names of the zone for `domain`: the zone `domain.`, the
    /// name server `ns.domain.` and the administrator `admin.domain.`.
    pub fn zone_names(domain: &str) -> (names: (String, String, String))
        ensures
            names.0@ == zone_origin(domain@),
            names.1@ == zone_ns_server(domain@),
            names.2@ == zone_admin_email(domain@),
    {
        let origin = join3("", domain, ".");
        let ns_server = join3("ns.", domain, ".");
        let admin_email = join3("admin.", domain, ".");
        proof {
            reveal_strlit("");
            reveal_strlit(".");
            reveal_strlit("ns.");
            reveal_strlit("admin.");
            assert(origin@ =~= zone_origin(domain@));
            assert(ns_server@ =~= zone_ns_server(domain@));
            assert(admin_email@ =~= zone_admin_email(domain@));
        }
        (origin, ns_server, admin_email)
    }

    /// The authority for `domain`, with the names of [`zone_names`]; `None`
    /// when one of them is not a valid domain name.
    pub fn new(domain: &str) -> (r: Option<Self>)
        ensures
            r is Some <==> (dns_name_valid(zone_origin(domain@)) && dns_name_valid(
                zone_ns_server(domain@),
            ) && dns_name_valid(zone_admin_email(domain@))),
            r matches Some(a) ==> a@ == (AuthorityView {
                origin: zone_origin(domain@),
                ns_server: zone_ns_server(domain@),
                admin_email: zone_admin_email(domain@),
            }),
    {
        let (origin, ns_server, admin_email) = Self::zone_names(domain);
        if parse_dns_name(origin.as_str()).is_err() || parse_dns_name(ns_server.as_str()).is_err()
            || parse_dns_name(admin_email.as_str()).is_err() {
            return None;
        }
        Some(DdnsAuthority { origin, ns_server, admin_email })
    }

    /// The zone's SOA record: owned by the zone, TTL one hour, naming the
    /// zone's name server and administrator, serial 1, refresh one hour,
    /// retry ten minutes, expiry one day, negative TTL one minute.
    pub fn create_soa_record(&self) -> (r: DnsRecord)
        ensures
            r@ == soa_record(self@),
    {
        DnsRecord {
            name: self.origin.clone(),
            ttl: ZONE_TTL,
            data: RecordData::Soa(
                SoaData {
                    mname: self.ns_server.clone(),
                    rname: self.admin_email.clone(),
                    serial: SOA_SERIAL,
                    refresh: SOA_REFRESH,
                    retry: SOA_RETRY,
                    expire: SOA_EXPIRE,
                    minimum: SOA_MINIMUM,
                },
            ),
        }
    }

    /// The zone's NS record: owned by the zone, TTL one hour, naming the
    /// zone's name server.
    pub fn create_ns_record(&self) -> (r: DnsRecord)
        ensures
            r@ == ns_record(self@),
    {
        DnsRecord { name: self.origin.clone(), ttl: ZONE_TTL, data: RecordData::Ns(self.ns_server.clone()) }
    }

    fn single(record: DnsRecord) -> (v: Vec<DnsRecord>)
        ensures
            records_view(v@) == seq![record@],
    {
        let mut v: Vec<DnsRecord> = Vec::new();
        v.push(record);
        assert(records_view(v@) =~= seq![record@]);
        v
    }

    fn nxdomain(&self) -> (r: DnsReply)
        ensures
            r@ == nxdomain_reply(self@),
    {
        let soa = self.create_soa_record();
        let additionals = Self::single(soa);
        let answers: Vec<DnsRecord> = Vec::new();
        assert(records_view(answers@) =~= seq![]);
        DnsReply { response_code: ResponseCode::NXDomain, answers, additionals }
    }

    fn answer(answers: Vec<DnsRecord>) -> (r: DnsReply)
        ensures
            r@ == answer_reply(records_view(answers@)),
    {
        let additionals: Vec<DnsRecord> = Vec::new();
        assert(records_view(additionals@) =~= seq![]);
        DnsReply { response_code: ResponseCode::NoError, answers, additionals }
    }

    /// The first step of answering a question: operations other than a
    /// query are not implemented; SOA and NS questions get the zone's
    /// record; address questions (A, AAAA, ANY) need the host's stored
    /// address; any other question gets NXDOMAIN with the SOA record.
    pub fn handle_request(&self, query: &DnsQuery) -> (step: DnsStep)
        ensures
            query.op_code != OPCODE_QUERY ==> (step matches DnsStep::Reply(r) && r@
                == not_implemented_reply()),
            query.op_code == OPCODE_QUERY && query.query_type == TYPE_SOA ==> (step matches DnsStep::Reply(r)
                && r@ == answer_reply(seq![soa_record(self@)])),
            query.op_code == OPCODE_QUERY && query.query_type == TYPE_NS ==> (step matches DnsStep::Reply(r)
                && r@ == answer_reply(seq![ns_record(self@)])),
            query.op_code == OPCODE_QUERY && asks_for_address(query.query_type) ==> (step matches DnsStep::LookUp {
                hostname,
            } && hostname@ == lookup_name(query.name@)),
            query.op_code == OPCODE_QUERY && query.query_type != TYPE_SOA && query.query_type != TYPE_NS
                && !asks_for_address(query.query_type) ==> (step matches DnsStep::Reply(r) && r@
                == nxdomain_reply(self@)),
    {
        if query.op_code != OPCODE_QUERY {
            let answers: Vec<DnsRecord> = Vec::new();
            let additionals: Vec<DnsRecord> = Vec::new();
            assert(records_view(answers@) =~= seq![]);
            assert(records_view(additionals@) =~= seq![]);
            return DnsStep::Reply(DnsReply { response_code: ResponseCode::NotImp, answers, additionals });
        }
        let qtype = query.query_type;
        if qtype == TYPE_SOA {
            return DnsStep::Reply(Self::answer(Self::single(self.create_soa_record())));
        }
        if qtype == TYPE_NS {
            return DnsStep::Reply(Self::answer(Self::single(self.create_ns_record())));
        }
        if qtype == TYPE_A || qtype == TYPE_AAAA || qtype == TYPE_ANY {
            let hostname = strip_trailing_char(query.name.as_str(), '.');
            return DnsStep::LookUp { hostname };
        }
        DnsStep::Reply(self.nxdomain())
    }

    /// The reply to an address question once the host's stored address has
    /// been read (see [`address_reply`]).
    pub fn answer_for_address(&self, query: &DnsQuery, addr: Option<HostAddress>) -> (r: DnsReply)
        requires
            addr matches Some(HostAddress::V6(o)) ==> o@.len() == 16,
            addr matches Some(HostAddress::V4(o)) ==> o@.len() == 4,
        ensures
            r@ == address_reply(self@, query.name@, query.query_type, host_address_view(addr)),
    {
        let qtype = query.query_type;
        match addr {
            Some(HostAddress::V6(o)) => {
                if qtype == TYPE_AAAA || qtype == TYPE_ANY {
                    let rec = DnsRecord { name: query.name.clone(), ttl: HOST_TTL, data: RecordData::Aaaa(o) };
                    Self::answer(Self::single(rec))
                } else {
                    self.nxdomain()
                }
            },
            Some(HostAddress::V4(o)) => {
                if qtype == TYPE_A || qtype == TYPE_ANY {
                    let rec = DnsRecord { name: query.name.clone(), ttl: HOST_TTL, data: RecordData::A(o) };
                    Self::answer(Self::single(rec))
                } else {
                    self.nxdomain()
                }
            },
            None => self.nxdomain(),
        }
    }

    /// The reply to an address question given the host's stored address
    /// text (`None` when the host is unknown or has no address): the text
    /// is read as IPv6, else as IPv4, and answered by [`address_reply`].
    pub fn answer_lookup(&self, query: &DnsQuery, ip: Option<&str>) -> (r: DnsReply)
        ensures
            r@ == address_reply(self@, query.name@, query.query_type, read_address(opt_str(ip))),
    {
        let addr = match ip {
            None => None,
            Some(text) => match parse_ipv6(text) {
                Some(o) => Some(HostAddress::V6(o)),
                None => match parse_ipv4(text) {
                    Some(o) => Some(HostAddress::V4(o)),
                    None => None,
                },
            },
        };
        self.answer_for_address(query, addr)
    }
}

// ---------------------------------------------------------------------------
// Laws
// ---------------------------------------------------------------------------
/// All host names with the same stored address resolve alike: questions of
/// one type about two such names get the same response code and additional
/// records, and answers that differ only in their owner, which is the name
/// asked about.
pub proof fn lemma_host_names_share_address(
    a: AuthorityView,
    name1: Seq<char>,
    name2: Seq<char>,
    qtype: u16,
    addr: Option<RecordDataView>,
)
    ensures
        ({
            let r1 = address_reply(a, name1, qtype, addr);
            let r2 = address_reply(a, name2, qtype, addr);
            &&& r1.response_code == r2.response_code
            &&& r1.additionals == r2.additionals
            &&& r1.answers.len() == r2.answers.len()
            &&& forall|i: int|
                0 <= i < r1.answers.len() ==> {
                    &&& (#[trigger] r1.answers[i]).data == r2.answers[i].data
                    &&& r1.answers[i].ttl == r2.answers[i].ttl
                    &&& r1.answers[i].name == name1
                    &&& r2.answers[i].name == name2
                }
        }),
{
}

/// A host name that is unknown, or has no address that reads as IPv4 or
/// IPv6, gets NXDOMAIN with the zone's SOA record, whatever is asked.
pub proof fn lemma_unknown_host_nxdomain(a: AuthorityView, name: Seq<char>, qtype: u16)
    ensures
        address_reply(a, name, qtype, None) == nxdomain_reply(a),
        address_reply(a, name, qtype, read_address(None)) == nxdomain_reply(a),
{
}

/// An address question gets at most one answer, of the kind asked for (A
/// for A or ANY, AAAA for AAAA or ANY) and with the short host TTL; with no
/// answer the reply is NXDOMAIN.
pub proof fn lemma_address_answer_kind(
    a: AuthorityView,
    name: Seq<char>,
    qtype: u16,
    addr: Option<RecordDataView>,
)
    ensures
        ({
            let r = address_reply(a, name, qtype, addr);
            &&& r.answers.len() <= 1
            &&& r.answers.len() == 0 <==> r.response_code == ResponseCode::NXDomain
            &&& r.answers.len() == 1 ==> {
                &&& r.answers[0].ttl == HOST_TTL
                &&& r.answers[0].name == name
                &&& r.answers[0].data is A ==> (qtype == TYPE_A || qtype == TYPE_ANY)
                &&& r.answers[0].data is Aaaa ==> (qtype == TYPE_AAAA || qtype == TYPE_ANY)
                &&& Some(r.answers[0].data) == addr
            }
        }),
{
}

/// A reply to an address question that carries an answer is a NOERROR
/// reply. An address that reads as IPv4, asked for with A (1) or ANY (255),
/// gets exactly one A record: owned by the name asked about, TTL 60, the
/// address's octets, and no additional records; an IPv6 address asked for
/// with AAAA (28) or ANY gets exactly one AAAA record in the same way. Every
/// other case gets NXDOMAIN, no answer, and the zone's SOA record.
pub proof fn lemma_address_answers(
    a: AuthorityView,
    name: Seq<char>,
    qtype: u16,
    addr: Option<RecordDataView>,
)
    ensures
        address_reply(a, name, qtype, addr).answers.len() > 0 ==> address_reply(
            a,
            name,
            qtype,
            addr,
        ).response_code == ResponseCode::NoError,
        (addr matches Some(RecordDataView::A(o)) && (qtype == 1u16 || qtype == 255u16)) ==> address_reply(
            a,
            name,
            qtype,
            addr,
        ) == (DnsReplyView {
            response_code: ResponseCode::NoError,
            answers: seq![DnsRecordView { name, ttl: 60u32, data: addr->0 }],
            additionals: Seq::<DnsRecordView>::empty(),
        }),
        (addr matches Some(RecordDataView::Aaaa(o)) && (qtype == 28u16 || qtype == 255u16))
            ==> address_reply(a, name, qtype, addr) == (DnsReplyView {
            response_code: ResponseCode::NoError,
            answers: seq![DnsRecordView { name, ttl: 60u32, data: addr->0 }],
            additionals: Seq::<DnsRecordView>::empty(),
        }),
        !((addr matches Some(RecordDataView::A(o)) && (qtype == 1u16 || qtype == 255u16)) || (addr matches Some(
            RecordDataView::Aaaa(o),
        ) && (qtype == 28u16 || qtype == 255u16))) ==> address_reply(a, name, qtype, addr) == (DnsReplyView {
            response_code: ResponseCode::NXDomain,
            answers: Seq::<DnsRecordView>::empty(),
            additionals: seq![soa_record(a)],
        }),
{
}

/// A stored address text is read as IPv6 first, and as IPv4 only when it is
/// no IPv6 address; a text that is neither gives no address.
pub proof fn lemma_read_address_order(text: Seq<char>)
    ensures
        ipv6_octets(text) matches Some(o) ==> read_address(Some(text)) == Some(RecordDataView::Aaaa(o)),
        (ipv6_octets(text) is None && ipv4_octets(text) is Some) ==> read_address(Some(text))
            == Some(RecordDataView::A(ipv4_octets(text)->0)),
        (ipv6_octets(text) is None && ipv4_octets(text) is None) ==> read_address(Some(text)) is None,
        read_address(None) is None,
{
}

} // verus!
