//! The stored rows, and the record types of DNS.
use vstd::prelude::*;
use crate::text;
use crate::text::{same_text, split_once};
use crate::time::Timestamp;

verus! {

/// The type of a DNS record.
#[derive(Debug, Clone, Copy, PartialEq, Eq, Structural)]
pub enum RecordType {
    A,
    AAAA,
    ANAME,
    ANY,
    AXFR,
    CAA,
    CDS,
    CDNSKEY,
    CERT,
    CNAME,
    DNAME,
    CSYNC,
    DNSKEY,
    DS,
    HINFO,
    HTTPS,
    IXFR,
    KEY,
    MX,
    NAPTR,
    NS,
    NSEC,
    NSEC3,
    NSEC3PARAM,
    NULL,
    OPENPGPKEY,
    OPT,
    PTR,
    RRSIG,
    SIG,
    SMIMEA,
    SOA,
    SRV,
    SSHFP,
    SVCB,
    TLSA,
    TSIG,
    TXT,
    /// A type that is not known or not supported.
    Unknown,
    /// The type of code zero.
    ZERO,
}

/// The type of a record as a DNS message carries it: a type with a name, or
/// the bare code of one that has none.
#[derive(Debug, Clone)]
pub enum WireType {
    Named(String),
    Unknown(u16),
}

/// What a [`WireType`] says.
pub enum WireTypeView {
    Named(Seq<char>),
    Unknown(u16),
}

impl View for WireType {
    type V = WireTypeView;

    open spec fn view(&self) -> WireTypeView {
        match self {
            WireType::Named(name) => WireTypeView::Named(name@),
            WireType::Unknown(code) => WireTypeView::Unknown(*code),
        }
    }
}

impl RecordType {
    /// The type that a name stands for on the wire, if it stands for one.
    pub open spec fn of_name(name: Seq<char>) -> Option<RecordType> {
        if name == "A"@ { Some(RecordType::A) }
        else if name == "AAAA"@ { Some(RecordType::AAAA) }
        else if name == "ANAME"@ { Some(RecordType::ANAME) }
        else if name == "ANY"@ { Some(RecordType::ANY) }
        else if name == "AXFR"@ { Some(RecordType::AXFR) }
        else if name == "CAA"@ { Some(RecordType::CAA) }
        else if name == "CDS"@ { Some(RecordType::CDS) }
        else if name == "CDNSKEY"@ { Some(RecordType::CDNSKEY) }
        else if name == "CNAME"@ { Some(RecordType::CNAME) }
        else if name == "CSYNC"@ { Some(RecordType::CSYNC) }
        else if name == "DNSKEY"@ { Some(RecordType::DNSKEY) }
        else if name == "DS"@ { Some(RecordType::DS) }
        else if name == "HINFO"@ { Some(RecordType::HINFO) }
        else if name == "HTTPS"@ { Some(RecordType::HTTPS) }
        else if name == "IXFR"@ { Some(RecordType::IXFR) }
        else if name == "KEY"@ { Some(RecordType::KEY) }
        else if name == "MX"@ { Some(RecordType::MX) }
        else if name == "NAPTR"@ { Some(RecordType::NAPTR) }
        else if name == "NS"@ { Some(RecordType::NS) }
        else if name == "NSEC"@ { Some(RecordType::NSEC) }
        else if name == "NSEC3"@ { Some(RecordType::NSEC3) }
        else if name == "NSEC3PARAM"@ { Some(RecordType::NSEC3PARAM) }
        else if name == "NULL"@ { Some(RecordType::NULL) }
        else if name == "OPENPGPKEY"@ { Some(RecordType::OPENPGPKEY) }
        else if name == "OPT"@ { Some(RecordType::OPT) }
        else if name == "PTR"@ { Some(RecordType::PTR) }
        else if name == "RRSIG"@ { Some(RecordType::RRSIG) }
        else if name == "SIG"@ { Some(RecordType::SIG) }
        else if name == "SOA"@ { Some(RecordType::SOA) }
        else if name == "SRV"@ { Some(RecordType::SRV) }
        else if name == "SSHFP"@ { Some(RecordType::SSHFP) }
        else if name == "SVCB"@ { Some(RecordType::SVCB) }
        else if name == "TLSA"@ { Some(RecordType::TLSA) }
        else if name == "TSIG"@ { Some(RecordType::TSIG) }
        else if name == "TXT"@ { Some(RecordType::TXT) }
        else if name == "ZERO"@ { Some(RecordType::ZERO) }
        else { None }
    }

    /// The name of a type on the wire; `CERT`, `DNAME`, `SMIMEA` and `Unknown`
    /// have none there.
    pub open spec fn name_of(self) -> Option<Seq<char>> {
        match self {
            RecordType::A => Some("A"@),
            RecordType::AAAA => Some("AAAA"@),
            RecordType::ANAME => Some("ANAME"@),
            RecordType::ANY => Some("ANY"@),
            RecordType::AXFR => Some("AXFR"@),
            RecordType::CAA => Some("CAA"@),
            RecordType::CDS => Some("CDS"@),
            RecordType::CDNSKEY => Some("CDNSKEY"@),
            RecordType::CERT => None,
            RecordType::CNAME => Some("CNAME"@),
            RecordType::DNAME => None,
            RecordType::CSYNC => Some("CSYNC"@),
            RecordType::DNSKEY => Some("DNSKEY"@),
            RecordType::DS => Some("DS"@),
            RecordType::HINFO => Some("HINFO"@),
            RecordType::HTTPS => Some("HTTPS"@),
            RecordType::IXFR => Some("IXFR"@),
            RecordType::KEY => Some("KEY"@),
            RecordType::MX => Some("MX"@),
            RecordType::NAPTR => Some("NAPTR"@),
            RecordType::NS => Some("NS"@),
            RecordType::NSEC => Some("NSEC"@),
            RecordType::NSEC3 => Some("NSEC3"@),
            RecordType::NSEC3PARAM => Some("NSEC3PARAM"@),
            RecordType::NULL => Some("NULL"@),
            RecordType::OPENPGPKEY => Some("OPENPGPKEY"@),
            RecordType::OPT => Some("OPT"@),
            RecordType::PTR => Some("PTR"@),
            RecordType::RRSIG => Some("RRSIG"@),
            RecordType::SIG => Some("SIG"@),
            RecordType::SMIMEA => None,
            RecordType::SOA => Some("SOA"@),
            RecordType::SRV => Some("SRV"@),
            RecordType::SSHFP => Some("SSHFP"@),
            RecordType::SVCB => Some("SVCB"@),
            RecordType::TLSA => Some("TLSA"@),
            RecordType::TSIG => Some("TSIG"@),
            RecordType::TXT => Some("TXT"@),
            RecordType::Unknown => None,
            RecordType::ZERO => Some("ZERO"@),
        }
    }

    /// The stored type for a type of the wire: the one of its name, and
    /// `Unknown` for a bare code.
    pub open spec fn of_wire(wire: WireTypeView) -> Option<RecordType> {
        match wire {
            WireTypeView::Named(name) => RecordType::of_name(name),
            WireTypeView::Unknown(_) => Some(RecordType::Unknown),
        }
    }

    /// What a type is after a way over the wire: itself, but `Unknown` for the
    /// three that have no type of their own there.
    pub open spec fn kept_on_wire(self) -> RecordType {
        match self {
            RecordType::CERT | RecordType::DNAME | RecordType::SMIMEA => RecordType::Unknown,
            _ => self,
        }
    }

    /// The type of the wire for a stored type. A type without a name there is
    /// written by its code; the placeholder `0xFFFF` stands for `Unknown`.
    pub open spec fn wire_of(self) -> WireTypeView {
        match self.name_of() {
            Some(name) => WireTypeView::Named(name),
            None => match self {
                RecordType::CERT => WireTypeView::Unknown(0x000A),
                RecordType::DNAME => WireTypeView::Unknown(0x0027),
                RecordType::SMIMEA => WireTypeView::Unknown(0x0041),
                _ => WireTypeView::Unknown(0xFFFF),
            },
        }
    }
}

impl RecordType {
    /// The type that `name` stands for, if it stands for one.
    fn from_name(name: &str) -> (out: Option<RecordType>)
        ensures
            out == RecordType::of_name(name@),
    {
        if same_text(name, "A") {
            Some(RecordType::A)
        } else if same_text(name, "AAAA") {
            Some(RecordType::AAAA)
        } else if same_text(name, "ANAME") {
            Some(RecordType::ANAME)
        } else if same_text(name, "ANY") {
            Some(RecordType::ANY)
        } else if same_text(name, "AXFR") {
            Some(RecordType::AXFR)
        } else if same_text(name, "CAA") {
            Some(RecordType::CAA)
        } else if same_text(name, "CDS") {
            Some(RecordType::CDS)
        } else if same_text(name, "CDNSKEY") {
            Some(RecordType::CDNSKEY)
        } else if same_text(name, "CNAME") {
            Some(RecordType::CNAME)
        } else if same_text(name, "CSYNC") {
            Some(RecordType::CSYNC)
        } else if same_text(name, "DNSKEY") {
            Some(RecordType::DNSKEY)
        } else if same_text(name, "DS") {
            Some(RecordType::DS)
        } else if same_text(name, "HINFO") {
            Some(RecordType::HINFO)
        } else if same_text(name, "HTTPS") {
            Some(RecordType::HTTPS)
        } else if same_text(name, "IXFR") {
            Some(RecordType::IXFR)
        } else if same_text(name, "KEY") {
            Some(RecordType::KEY)
        } else if same_text(name, "MX") {
            Some(RecordType::MX)
        } else if same_text(name, "NAPTR") {
            Some(RecordType::NAPTR)
        } else if same_text(name, "NS") {
            Some(RecordType::NS)
        } else if same_text(name, "NSEC") {
            Some(RecordType::NSEC)
        } else if same_text(name, "NSEC3") {
            Some(RecordType::NSEC3)
        } else if same_text(name, "NSEC3PARAM") {
            Some(RecordType::NSEC3PARAM)
        } else if same_text(name, "NULL") {
            Some(RecordType::NULL)
        } else if same_text(name, "OPENPGPKEY") {
            Some(RecordType::OPENPGPKEY)
        } else if same_text(name, "OPT") {
            Some(RecordType::OPT)
        } else if same_text(name, "PTR") {
            Some(RecordType::PTR)
        } else if same_text(name, "RRSIG") {
            Some(RecordType::RRSIG)
        } else if same_text(name, "SIG") {
            Some(RecordType::SIG)
        } else if same_text(name, "SOA") {
            Some(RecordType::SOA)
        } else if same_text(name, "SRV") {
            Some(RecordType::SRV)
        } else if same_text(name, "SSHFP") {
            Some(RecordType::SSHFP)
        } else if same_text(name, "SVCB") {
            Some(RecordType::SVCB)
        } else if same_text(name, "TLSA") {
            Some(RecordType::TLSA)
        } else if same_text(name, "TSIG") {
            Some(RecordType::TSIG)
        } else if same_text(name, "TXT") {
            Some(RecordType::TXT)
        } else if same_text(name, "ZERO") {
            Some(RecordType::ZERO)
        } else {
            None
        }
    }

    /// The stored type for a type of the wire. Every type that a message can
    /// carry has one; see [`wire_type`].
    pub fn from(wire: &WireType) -> (out: RecordType)
        requires
            RecordType::of_wire(wire@) is Some,
        ensures
            Some(out) == RecordType::of_wire(wire@),
    {
        match wire {
            WireType::Named(name) => match RecordType::from_name(name.as_str()) {
                Some(t) => t,
                None => RecordType::Unknown,
            },
            WireType::Unknown(_) => RecordType::Unknown,
        }
    }
}

impl WireType {
    /// The type of the wire for a stored type. It stands for that type again, but
    /// for the three that have no type of their own on the wire.
    pub fn from(value: RecordType) -> (out: WireType)
        ensures
            out@ == value.wire_of(),
            RecordType::of_wire(out@) == Some(value.kept_on_wire()),
    {
        proof {
            law_record_type_round_trips(value);
        }
        match value {
            RecordType::A => WireType::Named("A".to_owned()),
            RecordType::AAAA => WireType::Named("AAAA".to_owned()),
            RecordType::ANAME => WireType::Named("ANAME".to_owned()),
            RecordType::ANY => WireType::Named("ANY".to_owned()),
            RecordType::AXFR => WireType::Named("AXFR".to_owned()),
            RecordType::CAA => WireType::Named("CAA".to_owned()),
            RecordType::CDS => WireType::Named("CDS".to_owned()),
            RecordType::CDNSKEY => WireType::Named("CDNSKEY".to_owned()),
            RecordType::CERT => WireType::Unknown(0x000A),
            RecordType::CNAME => WireType::Named("CNAME".to_owned()),
            RecordType::DNAME => WireType::Unknown(0x0027),
            RecordType::CSYNC => WireType::Named("CSYNC".to_owned()),
            RecordType::DNSKEY => WireType::Named("DNSKEY".to_owned()),
            RecordType::DS => WireType::Named("DS".to_owned()),
            RecordType::HINFO => WireType::Named("HINFO".to_owned()),
            RecordType::HTTPS => WireType::Named("HTTPS".to_owned()),
            RecordType::IXFR => WireType::Named("IXFR".to_owned()),
            RecordType::KEY => WireType::Named("KEY".to_owned()),
            RecordType::MX => WireType::Named("MX".to_owned()),
            RecordType::NAPTR => WireType::Named("NAPTR".to_owned()),
            RecordType::NS => WireType::Named("NS".to_owned()),
            RecordType::NSEC => WireType::Named("NSEC".to_owned()),
            RecordType::NSEC3 => WireType::Named("NSEC3".to_owned()),
            RecordType::NSEC3PARAM => WireType::Named("NSEC3PARAM".to_owned()),
            RecordType::NULL => WireType::Named("NULL".to_owned()),
            RecordType::OPENPGPKEY => WireType::Named("OPENPGPKEY".to_owned()),
            RecordType::OPT => WireType::Named("OPT".to_owned()),
            RecordType::PTR => WireType::Named("PTR".to_owned()),
            RecordType::RRSIG => WireType::Named("RRSIG".to_owned()),
            RecordType::SIG => WireType::Named("SIG".to_owned()),
            RecordType::SMIMEA => WireType::Unknown(0x0041),
            RecordType::SOA => WireType::Named("SOA".to_owned()),
            RecordType::SRV => WireType::Named("SRV".to_owned()),
            RecordType::SSHFP => WireType::Named("SSHFP".to_owned()),
            RecordType::SVCB => WireType::Named("SVCB".to_owned()),
            RecordType::TLSA => WireType::Named("TLSA".to_owned()),
            RecordType::TSIG => WireType::Named("TSIG".to_owned()),
            RecordType::TXT => WireType::Named("TXT".to_owned()),
            RecordType::Unknown => WireType::Unknown(0xFFFF),
            RecordType::ZERO => WireType::Named("ZERO".to_owned()),
        }
    }
}

/// The type that the code of a DNS message stands for in `hickory-proto`.
pub uninterp spec fn wire_type_of_code(code: u16) -> WireTypeView;

/// The type that a code of a DNS message stands for, by
/// `hickory_proto::rr::RecordType::from`. That enum's variants are the types
/// that [`RecordType::of_name`] knows by name, and `Unknown` for other codes.
#[verifier::external_body]
pub(crate) fn wire_type(code: u16) -> (out: WireType)
    ensures
        out@ == wire_type_of_code(code),
        RecordType::of_wire(out@) is Some,
        out@ matches WireTypeView::Unknown(c) ==> c == code,
{
    match hickory_proto::rr::RecordType::from(code) {
        hickory_proto::rr::RecordType::Unknown(c) => WireType::Unknown(c),
        known => WireType::Named(<&'static str>::from(known).to_string()),
    }
}

proof fn lemma_named_type_round_trips(t: RecordType)
    requires
        t.name_of() is Some,
    ensures
        RecordType::of_wire(t.wire_of()) == Some(t),
{
    reveal_strlit("A");
    assert("A"@.len() == 1);
    reveal_strlit("AAAA");
    assert("AAAA"@.len() == 4);
    reveal_strlit("ANAME");
    assert("ANAME"@.len() == 5);
    reveal_strlit("ANY");
    assert("ANY"@.len() == 3);
    reveal_strlit("AXFR");
    assert("AXFR"@.len() == 4);
    reveal_strlit("CAA");
    assert("CAA"@.len() == 3);
    reveal_strlit("CDS");
    assert("CDS"@.len() == 3);
    reveal_strlit("CDNSKEY");
    assert("CDNSKEY"@.len() == 7);
    reveal_strlit("CNAME");
    assert("CNAME"@.len() == 5);
    reveal_strlit("CSYNC");
    assert("CSYNC"@.len() == 5);
    reveal_strlit("DNSKEY");
    assert("DNSKEY"@.len() == 6);
    reveal_strlit("DS");
    assert("DS"@.len() == 2);
    reveal_strlit("HINFO");
    assert("HINFO"@.len() == 5);
    reveal_strlit("HTTPS");
    assert("HTTPS"@.len() == 5);
    reveal_strlit("IXFR");
    assert("IXFR"@.len() == 4);
    reveal_strlit("KEY");
    assert("KEY"@.len() == 3);
    reveal_strlit("MX");
    assert("MX"@.len() == 2);
    reveal_strlit("NAPTR");
    assert("NAPTR"@.len() == 5);
    reveal_strlit("NS");
    assert("NS"@.len() == 2);
    reveal_strlit("NSEC");
    assert("NSEC"@.len() == 4);
    reveal_strlit("NSEC3");
    assert("NSEC3"@.len() == 5);
    reveal_strlit("NSEC3PARAM");
    assert("NSEC3PARAM"@.len() == 10);
    reveal_strlit("NULL");
    assert("NULL"@.len() == 4);
    reveal_strlit("OPENPGPKEY");
    assert("OPENPGPKEY"@.len() == 10);
    reveal_strlit("OPT");
    assert("OPT"@.len() == 3);
    reveal_strlit("PTR");
    assert("PTR"@.len() == 3);
    reveal_strlit("RRSIG");
    assert("RRSIG"@.len() == 5);
    reveal_strlit("SIG");
    assert("SIG"@.len() == 3);
    reveal_strlit("SOA");
    assert("SOA"@.len() == 3);
    reveal_strlit("SRV");
    assert("SRV"@.len() == 3);
    reveal_strlit("SSHFP");
    assert("SSHFP"@.len() == 5);
    reveal_strlit("SVCB");
    assert("SVCB"@.len() == 4);
    reveal_strlit("TLSA");
    assert("TLSA"@.len() == 4);
    reveal_strlit("TSIG");
    assert("TSIG"@.len() == 4);
    reveal_strlit("TXT");
    assert("TXT"@.len() == 3);
    reveal_strlit("ZERO");
    assert("ZERO"@.len() == 4);
    assert("AAAA"@[0] == 'A' && "AAAA"@[1] == 'A');
    assert("ANAME"@[0] == 'A' && "ANAME"@[1] == 'N');
    assert("ANY"@[1] == 'N');
    assert("AXFR"@[0] == 'A' && "AXFR"@[1] == 'X');
    assert("CAA"@[1] == 'A');
    assert("CDS"@[1] == 'D');
    assert("CNAME"@[0] == 'C' && "CNAME"@[1] == 'N');
    assert("CSYNC"@[0] == 'C' && "CSYNC"@[1] == 'S');
    assert("DS"@[0] == 'D');
    assert("HINFO"@[0] == 'H' && "HINFO"@[1] == 'I');
    assert("HTTPS"@[0] == 'H' && "HTTPS"@[1] == 'T');
    assert("IXFR"@[0] == 'I' && "IXFR"@[1] == 'X');
    assert("KEY"@[1] == 'E');
    assert("MX"@[0] == 'M');
    assert("NAPTR"@[0] == 'N' && "NAPTR"@[1] == 'A');
    assert("NS"@[0] == 'N');
    assert("NSEC"@[0] == 'N' && "NSEC"@[1] == 'S');
    assert("NSEC3"@[0] == 'N' && "NSEC3"@[1] == 'S');
    assert("NSEC3PARAM"@[0] == 'N');
    assert("NULL"@[0] == 'N' && "NULL"@[1] == 'U');
    assert("OPENPGPKEY"@[0] == 'O');
    assert("OPT"@[1] == 'P');
    assert("PTR"@[1] == 'T');
    assert("RRSIG"@[0] == 'R' && "RRSIG"@[1] == 'R');
    assert("SIG"@[1] == 'I');
    assert("SOA"@[1] == 'O');
    assert("SRV"@[1] == 'R');
    assert("SSHFP"@[0] == 'S' && "SSHFP"@[1] == 'S');
    assert("SVCB"@[0] == 'S' && "SVCB"@[1] == 'V');
    assert("TLSA"@[0] == 'T' && "TLSA"@[1] == 'L');
    assert("TSIG"@[0] == 'T' && "TSIG"@[1] == 'S');
    assert("TXT"@[1] == 'X');
    assert("ZERO"@[0] == 'Z' && "ZERO"@[1] == 'E');
}

/// A stored type comes back from the wire unchanged, but for the three that
/// have no type of their own there: those come back as `Unknown`.
pub proof fn law_record_type_round_trips(t: RecordType)
    ensures
        RecordType::of_wire(t.wire_of()) == Some(t.kept_on_wire()),
        t !is CERT && t !is DNAME && t !is SMIMEA ==> RecordType::of_wire(t.wire_of()) == Some(t),
        t is CERT || t is DNAME || t is SMIMEA ==> RecordType::of_wire(t.wire_of()) == Some(
            RecordType::Unknown,
        ),
{
    if t.name_of() is Some {
        lemma_named_type_round_trips(t);
    }
}

// ---------------------------------------------------------------------------
// Domains and records
// ---------------------------------------------------------------------------

/// A domain that the service answers for.
#[derive(Debug, Clone)]
pub struct Domain {
    pub id: String,
    pub created_at: Timestamp,
    pub updated_at: Timestamp,
}

impl Domain {
    /// The domain named `id`, made at `now`.
    pub fn new(id: String, now: Timestamp) -> (out: Domain)
        ensures
            out == (Domain { id, created_at: now, updated_at: now }),
    {
        Domain { id, created_at: now, updated_at: now }
    }

    /// The instants of the domain can be told.
    pub open spec fn wf(self) -> bool {
        self.created_at.wf() && self.updated_at.wf()
    }
}

impl From<String> for Domain {
    /// The domain named `id`, made now.
    fn from(id: String) -> (out: Domain)
        ensures
            out.id == id,
            out.created_at.wf(),
            out.updated_at == out.created_at,
    {
        Domain::new(id, Timestamp::now())
    }
}

impl vstd::std_specs::convert::FromSpecImpl<String> for Domain {
    open spec fn obeys_from_spec() -> bool {
        false
    }

    open spec fn from_spec(id: String) -> Domain {
        arbitrary()
    }
}

impl From<&String> for Domain {
    /// The domain named `id`, made now.
    fn from(id: &String) -> (out: Domain)
        ensures
            out.id@ == id@,
            out.created_at.wf(),
            out.updated_at == out.created_at,
    {
        Domain::new(id.clone(), Timestamp::now())
    }
}

impl vstd::std_specs::convert::FromSpecImpl<&String> for Domain {
    open spec fn obeys_from_spec() -> bool {
        false
    }

    open spec fn from_spec(id: &String) -> Domain {
        arbitrary()
    }
}

impl From<&str> for Domain {
    /// The domain named `id`, made now.
    fn from(id: &str) -> (out: Domain)
        ensures
            out.id@ == id@,
            out.created_at.wf(),
            out.updated_at == out.created_at,
    {
        Domain::new(id.to_owned(), Timestamp::now())
    }
}

impl vstd::std_specs::convert::FromSpecImpl<&str> for Domain {
    open spec fn obeys_from_spec() -> bool {
        false
    }

    open spec fn from_spec(id: &str) -> Domain {
        arbitrary()
    }
}

impl From<Domain> for String {
    fn from(domain: Domain) -> String {
        domain.id
    }
}

impl vstd::std_specs::convert::FromSpecImpl<Domain> for String {
    open spec fn obeys_from_spec() -> bool {
        true
    }

    open spec fn from_spec(domain: Domain) -> String {
        domain.id
    }
}

impl From<&Domain> for String {
    fn from(domain: &Domain) -> String {
        domain.id.clone()
    }
}

impl vstd::std_specs::convert::FromSpecImpl<&Domain> for String {
    open spec fn obeys_from_spec() -> bool {
        true
    }

    open spec fn from_spec(domain: &Domain) -> String {
        domain.id
    }
}

/// A DNS record of a domain.
#[derive(Debug, Clone)]
pub struct Record {
    pub id: u64,
    pub domain_id: String,
    pub record_type: RecordType,
    pub value: String,
    pub ttl: u32,
    pub created_at: Timestamp,
    pub updated_at: Timestamp,
}

/// A DNS record as configuration states it.
#[derive(Debug, Clone)]
pub struct RecordDTO {
    pub domain_id: String,
    pub record_type: RecordType,
    pub value: String,
    pub ttl: u32,
}

impl RecordDTO {
    /// A copy of this record.
    pub fn copy(&self) -> (out: RecordDTO)
        ensures
            out == *self,
    {
        RecordDTO {
            domain_id: self.domain_id.clone(),
            record_type: self.record_type,
            value: self.value.clone(),
            ttl: self.ttl,
        }
    }
}

impl Record {
    /// The record of `dto`, made at `now`. Its id is zero until it is stored.
    pub fn new(dto: RecordDTO, now: Timestamp) -> (out: Record)
        ensures
            out == (Record {
                id: 0,
                domain_id: dto.domain_id,
                record_type: dto.record_type,
                value: dto.value,
                ttl: dto.ttl,
                created_at: now,
                updated_at: now,
            }),
    {
        Record {
            id: 0,
            domain_id: dto.domain_id,
            record_type: dto.record_type,
            value: dto.value,
            ttl: dto.ttl,
            created_at: now,
            updated_at: now,
        }
    }

    /// What configuration would state of this record.
    pub open spec fn dto(self) -> RecordDTO {
        RecordDTO {
            domain_id: self.domain_id,
            record_type: self.record_type,
            value: self.value,
            ttl: self.ttl,
        }
    }
}

impl From<RecordDTO> for Record {
    /// The record of `dto`, made now.
    fn from(dto: RecordDTO) -> (out: Record)
        ensures
            out.dto() == dto,
            out.id == 0,
            out.created_at.wf(),
            out.updated_at == out.created_at,
    {
        Record::new(dto, Timestamp::now())
    }
}

impl vstd::std_specs::convert::FromSpecImpl<RecordDTO> for Record {
    open spec fn obeys_from_spec() -> bool {
        false
    }

    open spec fn from_spec(dto: RecordDTO) -> Record {
        arbitrary()
    }
}

impl From<&RecordDTO> for Record {
    /// The record of `dto`, made now.
    fn from(dto: &RecordDTO) -> (out: Record)
        ensures
            out.dto() == *dto,
            out.id == 0,
            out.created_at.wf(),
            out.updated_at == out.created_at,
    {
        Record::new(dto.copy(), Timestamp::now())
    }
}

impl vstd::std_specs::convert::FromSpecImpl<&RecordDTO> for Record {
    open spec fn obeys_from_spec() -> bool {
        false
    }

    open spec fn from_spec(dto: &RecordDTO) -> Record {
        arbitrary()
    }
}

impl From<Record> for RecordDTO {
    fn from(record: Record) -> RecordDTO {
        RecordDTO {
            domain_id: record.domain_id,
            record_type: record.record_type,
            value: record.value,
            ttl: record.ttl,
        }
    }
}

impl vstd::std_specs::convert::FromSpecImpl<Record> for RecordDTO {
    open spec fn obeys_from_spec() -> bool {
        true
    }

    open spec fn from_spec(record: Record) -> RecordDTO {
        record.dto()
    }
}

impl From<&Record> for RecordDTO {
    fn from(record: &Record) -> RecordDTO {
        RecordDTO {
            domain_id: record.domain_id.clone(),
            record_type: record.record_type,
            value: record.value.clone(),
            ttl: record.ttl,
        }
    }
}

impl vstd::std_specs::convert::FromSpecImpl<&Record> for RecordDTO {
    open spec fn obeys_from_spec() -> bool {
        true
    }

    open spec fn from_spec(record: &Record) -> RecordDTO {
        record.dto()
    }
}

// ---------------------------------------------------------------------------
// Mailboxes
// ---------------------------------------------------------------------------

/// A provisioned email address.
#[derive(Debug, Clone)]
pub struct Mailbox {
    /// The full address, such as `user@domain.com`.
    pub id: String,
    pub domain_id: String,
    /// Where mail for this address is forwarded, if it is.
    pub forward_to: Option<String>,
    pub created_at: Timestamp,
    pub updated_at: Timestamp,
}

/// A mailbox to be stored.
#[derive(Debug, Clone)]
pub struct MailboxRow {
    pub id: String,
    pub domain_id: String,
    pub forward_to: Option<String>,
}

/// What a [`MailboxRow`] holds.
#[verifier::ext_equal]
pub struct MailboxRowView {
    pub id: Seq<char>,
    pub domain_id: Seq<char>,
    pub forward_to: Option<Seq<char>>,
}

impl View for MailboxRow {
    type V = MailboxRowView;

    open spec fn view(&self) -> MailboxRowView {
        MailboxRowView {
            id: self.id@,
            domain_id: self.domain_id@,
            forward_to: text::view_of(self.forward_to),
        }
    }
}

impl MailboxRow {
    /// A copy of this row.
    pub fn copy(&self) -> (out: MailboxRow)
        ensures
            out@ == self@,
    {
        MailboxRow {
            id: self.id.clone(),
            domain_id: self.domain_id.clone(),
            forward_to: match &self.forward_to {
                Some(to) => Some(to.clone()),
                None => None,
            },
        }
    }
}

/// Why an address cannot name a mailbox.
#[derive(Debug, Clone, Copy, PartialEq, Eq, Structural)]
pub enum MailboxError {
    /// The address has no domain part.
    InvalidFormat,
}

impl MailboxError {
    /// What to tell a person.
    pub fn message(self) -> (out: &'static str)
        ensures
            out@ == "Invalid email address format (missing domain)"@,
    {
        "Invalid email address format (missing domain)"
    }
}

/// The domain part of an address: what stands after its first `@`, up to the
/// next one. An address without an `@`, or with nothing there, has none.
pub open spec fn address_domain(address: Seq<char>) -> Option<Seq<char>> {
    match text::cut(address, '@') {
        None => None,
        Some((_, rest)) => {
            let domain = text::before(rest, '@');
            if domain.len() == 0 {
                None
            } else {
                Some(domain)
            }
        },
    }
}

/// `out` is the mailbox for the address `id`, or the refusal of that address.
pub open spec fn mailbox_for(id: Seq<char>, out: Result<Mailbox, MailboxError>) -> bool {
    match out {
        Ok(mailbox) => {
            &&& address_domain(id) == Some(mailbox.domain_id@)
            &&& mailbox.id@ == id
            &&& mailbox.forward_to is None
            &&& mailbox.updated_at == mailbox.created_at
        },
        Err(e) => address_domain(id) is None && e == MailboxError::InvalidFormat,
    }
}

impl Mailbox {
    /// The instants of the mailbox can be told.
    pub open spec fn wf(self) -> bool {
        self.created_at.wf() && self.updated_at.wf()
    }

    /// The mailbox for the address `id`, made at `now`.
    pub fn new(id: String, now: Timestamp) -> (out: Result<Mailbox, MailboxError>)
        ensures
            mailbox_for(id@, out),
            out matches Ok(m) ==> m.created_at == now,
    {
        let rest = match split_once(id.as_str(), '@') {
            Some((_, rest)) => rest,
            None => return Err(MailboxError::InvalidFormat),
        };
        let domain_id = match split_once(rest.as_str(), '@') {
            Some((front, _)) => front,
            None => rest,
        };
        if domain_id.as_str().is_empty() {
            return Err(MailboxError::InvalidFormat);
        }
        Ok(Mailbox { id, domain_id, forward_to: None, created_at: now, updated_at: now })
    }
}

impl TryFrom<String> for Mailbox {
    type Error = MailboxError;

    /// The mailbox for the address `id`, made now.
    fn try_from(id: String) -> (out: Result<Mailbox, MailboxError>)
        ensures
            mailbox_for(id@, out),
            out matches Ok(m) ==> m.created_at.wf(),
    {
        Mailbox::new(id, Timestamp::now())
    }
}

impl vstd::std_specs::convert::TryFromSpecImpl<String> for Mailbox {
    open spec fn obeys_try_from_spec() -> bool {
        false
    }

    open spec fn try_from_spec(id: String) -> Result<Mailbox, MailboxError> {
        arbitrary()
    }
}

impl TryFrom<&String> for Mailbox {
    type Error = MailboxError;

    /// The mailbox for the address `id`, made now.
    fn try_from(id: &String) -> (out: Result<Mailbox, MailboxError>)
        ensures
            mailbox_for(id@, out),
            out matches Ok(m) ==> m.created_at.wf(),
    {
        Mailbox::new(id.clone(), Timestamp::now())
    }
}

impl vstd::std_specs::convert::TryFromSpecImpl<&String> for Mailbox {
    open spec fn obeys_try_from_spec() -> bool {
        false
    }

    open spec fn try_from_spec(id: &String) -> Result<Mailbox, MailboxError> {
        arbitrary()
    }
}

impl TryFrom<&str> for Mailbox {
    type Error = MailboxError;

    /// The mailbox for the address `id`, made now.
    fn try_from(id: &str) -> (out: Result<Mailbox, MailboxError>)
        ensures
            mailbox_for(id@, out),
            out matches Ok(m) ==> m.created_at.wf(),
    {
        Mailbox::new(id.to_owned(), Timestamp::now())
    }
}

impl vstd::std_specs::convert::TryFromSpecImpl<&str> for Mailbox {
    open spec fn obeys_try_from_spec() -> bool {
        false
    }

    open spec fn try_from_spec(id: &str) -> Result<Mailbox, MailboxError> {
        arbitrary()
    }
}

impl From<Mailbox> for String {
    fn from(mailbox: Mailbox) -> String {
        mailbox.id
    }
}

impl vstd::std_specs::convert::FromSpecImpl<Mailbox> for String {
    open spec fn obeys_from_spec() -> bool {
        true
    }

    open spec fn from_spec(mailbox: Mailbox) -> String {
        mailbox.id
    }
}

impl From<&Mailbox> for String {
    fn from(mailbox: &Mailbox) -> String {
        mailbox.id.clone()
    }
}

impl vstd::std_specs::convert::FromSpecImpl<&Mailbox> for String {
    open spec fn obeys_from_spec() -> bool {
        true
    }

    open spec fn from_spec(mailbox: &Mailbox) -> String {
        mailbox.id
    }
}

// ---------------------------------------------------------------------------
// Messages and their delivery
// ---------------------------------------------------------------------------

/// A message to be stored.
#[derive(Debug, Clone)]
pub struct NewMessage {
    pub mail_from: String,
    /// The whole message, as it was transmitted.
    pub raw: Vec<u8>,
    pub subject: Option<String>,
    pub message_id_header: Option<String>,
    pub content_type: Option<String>,
    pub from_address: Option<String>,
    pub to: Vec<String>,
    pub cc: Vec<String>,
    pub bcc: Vec<String>,
}

/// What a [`NewMessage`] holds.
#[verifier::ext_equal]
pub struct NewMessageView {
    pub mail_from: Seq<char>,
    pub raw: Seq<u8>,
    pub subject: Option<Seq<char>>,
    pub message_id_header: Option<Seq<char>>,
    pub content_type: Option<Seq<char>>,
    pub from_address: Option<Seq<char>>,
    pub to: Seq<Seq<char>>,
    pub cc: Seq<Seq<char>>,
    pub bcc: Seq<Seq<char>>,
}

impl View for NewMessage {
    type V = NewMessageView;

    open spec fn view(&self) -> NewMessageView {
        NewMessageView {
            mail_from: self.mail_from@,
            raw: self.raw@,
            subject: text::view_of(self.subject),
            message_id_header: text::view_of(self.message_id_header),
            content_type: text::view_of(self.content_type),
            from_address: text::view_of(self.from_address),
            to: text::views(self.to@),
            cc: text::views(self.cc@),
            bcc: text::views(self.bcc@),
        }
    }
}

/// A stored message.
#[derive(Debug, Clone)]
pub struct Message {
    pub id: u64,
    pub mail_from: String,
    /// The whole message, as it was transmitted.
    pub raw: Vec<u8>,
    pub subject: Option<String>,
    pub message_id_header: Option<String>,
    pub content_type: Option<String>,
    pub from_address: Option<String>,
    pub to: Vec<String>,
    pub cc: Vec<String>,
    pub bcc: Vec<String>,
    pub created_at: Timestamp,
    pub updated_at: Timestamp,
}

impl Message {
    /// The instants of the message can be told.
    pub open spec fn wf(self) -> bool {
        self.created_at.wf() && self.updated_at.wf()
    }
}

/// That a message was received for a mailbox: the row to be stored.
#[derive(Debug, Clone)]
pub struct NewInbound {
    pub message_id: u64,
    pub rcpt_to: String,
}

/// What a [`NewInbound`] holds.
#[verifier::ext_equal]
pub struct NewInboundView {
    pub message_id: u64,
    pub rcpt_to: Seq<char>,
}

impl View for NewInbound {
    type V = NewInboundView;

    open spec fn view(&self) -> NewInboundView {
        NewInboundView { message_id: self.message_id, rcpt_to: self.rcpt_to@ }
    }
}

/// That a message was received for a mailbox.
#[derive(Debug, Clone)]
pub struct Inbound {
    pub id: u64,
    pub message_id: u64,
    pub rcpt_to: String,
    pub created_at: Timestamp,
    pub updated_at: Timestamp,
}

/// Where a delivery job stands.
#[derive(Debug, Clone, Copy, PartialEq, Eq, Structural)]
pub enum OutboundStatus {
    /// Waiting for a worker.
    Queued,
    /// Claimed by a worker.
    InProgress,
    /// Handed over.
    Delivered,
    /// Given up.
    Failed,
}

/// A delivery job to be stored.
#[derive(Debug, Clone)]
pub struct NewOutbound {
    pub message_id: u64,
    pub rcpt_to: String,
    pub sender_id: String,
    pub status: OutboundStatus,
    pub attempts: u64,
    pub next_attempt_at: Option<Timestamp>,
    pub last_error: Option<String>,
}

/// What a [`NewOutbound`] holds.
#[verifier::ext_equal]
pub struct NewOutboundView {
    pub message_id: u64,
    pub rcpt_to: Seq<char>,
    pub sender_id: Seq<char>,
    pub status: OutboundStatus,
    pub attempts: u64,
    pub next_attempt_at: Option<Timestamp>,
    pub last_error: Option<Seq<char>>,
}

impl View for NewOutbound {
    type V = NewOutboundView;

    open spec fn view(&self) -> NewOutboundView {
        NewOutboundView {
            message_id: self.message_id,
            rcpt_to: self.rcpt_to@,
            sender_id: self.sender_id@,
            status: self.status,
            attempts: self.attempts,
            next_attempt_at: self.next_attempt_at,
            last_error: text::view_of(self.last_error),
        }
    }
}

/// A delivery job: one message for one recipient.
#[derive(Debug, Clone)]
pub struct Outbound {
    pub id: u64,
    pub message_id: u64,
    pub rcpt_to: String,
    pub sender_id: String,
    pub status: OutboundStatus,
    pub attempts: u64,
    pub next_attempt_at: Option<Timestamp>,
    pub last_error: Option<String>,
    pub created_at: Timestamp,
    pub updated_at: Timestamp,
}

/// What an [`Outbound`] holds.
#[verifier::ext_equal]
pub struct OutboundView {
    pub id: u64,
    pub message_id: u64,
    pub rcpt_to: Seq<char>,
    pub sender_id: Seq<char>,
    pub status: OutboundStatus,
    pub attempts: u64,
    pub next_attempt_at: Option<Timestamp>,
    pub last_error: Option<Seq<char>>,
    pub created_at: Timestamp,
    pub updated_at: Timestamp,
}

impl View for Outbound {
    type V = OutboundView;

    open spec fn view(&self) -> OutboundView {
        OutboundView {
            id: self.id,
            message_id: self.message_id,
            rcpt_to: self.rcpt_to@,
            sender_id: self.sender_id@,
            status: self.status,
            attempts: self.attempts,
            next_attempt_at: self.next_attempt_at,
            last_error: text::view_of(self.last_error),
            created_at: self.created_at,
            updated_at: self.updated_at,
        }
    }
}

/// The record of one delivery attempt: the row to be stored.
#[derive(Debug, Clone)]
pub struct NewDeliveryStatus {
    pub outbound_id: u64,
    pub peer_host: String,
    pub code: Option<u64>,
    pub message: Option<String>,
}

/// What a [`NewDeliveryStatus`] holds.
#[verifier::ext_equal]
pub struct NewDeliveryStatusView {
    pub outbound_id: u64,
    pub peer_host: Seq<char>,
    pub code: Option<u64>,
    pub message: Option<Seq<char>>,
}

impl View for NewDeliveryStatus {
    type V = NewDeliveryStatusView;

    open spec fn view(&self) -> NewDeliveryStatusView {
        NewDeliveryStatusView {
            outbound_id: self.outbound_id,
            peer_host: self.peer_host@,
            code: self.code,
            message: text::view_of(self.message),
        }
    }
}

/// The record of one delivery attempt.
#[derive(Debug, Clone)]
pub struct DeliveryStatus {
    pub id: u64,
    pub outbound_id: u64,
    pub peer_host: String,
    pub code: Option<u64>,
    pub message: Option<String>,
    pub created_at: Timestamp,
    pub updated_at: Timestamp,
}

// ---------------------------------------------------------------------------
// Laws
// ---------------------------------------------------------------------------

/// The domain of an address is what stands after its first `@`, up to the next
/// one. An address without an `@`, or with nothing there, has no domain.
pub proof fn law_domain_follows_the_first_at(
    local: Seq<char>,
    domain: Seq<char>,
    rest: Seq<char>,
)
    requires
        !local.contains('@'),
        !domain.contains('@'),
    ensures
        domain.len() > 0 ==> address_domain(local + seq!['@'] + domain) == Some(domain),
        domain.len() > 0 ==> address_domain(local + seq!['@'] + domain + seq!['@'] + rest) == Some(
            domain,
        ),
        domain.len() == 0 ==> address_domain(local + seq!['@'] + domain) is None,
        domain.len() == 0 ==> address_domain(local + seq!['@'] + domain + seq!['@'] + rest) is None,
        address_domain(local) is None,
{
    text::law_cut_is_at_the_first_separator(local, '@', domain);
    text::law_cut_is_at_the_first_separator(local, '@', domain + seq!['@'] + rest);
    text::law_cut_is_at_the_first_separator(domain, '@', rest);
    assert(local + seq!['@'] + domain + seq!['@'] + rest == local + seq!['@'] + (domain + seq!['@']
        + rest));
}

/// Every stored type that the wire has a name for goes under its own name there.
pub proof fn law_types_go_by_their_names()
    ensures
        RecordType::of_name("A"@) == Some(RecordType::A),
        RecordType::of_name("AAAA"@) == Some(RecordType::AAAA),
        RecordType::of_name("ANAME"@) == Some(RecordType::ANAME),
        RecordType::of_name("ANY"@) == Some(RecordType::ANY),
        RecordType::of_name("AXFR"@) == Some(RecordType::AXFR),
        RecordType::of_name("CAA"@) == Some(RecordType::CAA),
        RecordType::of_name("CDS"@) == Some(RecordType::CDS),
        RecordType::of_name("CDNSKEY"@) == Some(RecordType::CDNSKEY),
        RecordType::of_name("CNAME"@) == Some(RecordType::CNAME),
        RecordType::of_name("CSYNC"@) == Some(RecordType::CSYNC),
        RecordType::of_name("DNSKEY"@) == Some(RecordType::DNSKEY),
        RecordType::of_name("DS"@) == Some(RecordType::DS),
        RecordType::of_name("HINFO"@) == Some(RecordType::HINFO),
        RecordType::of_name("HTTPS"@) == Some(RecordType::HTTPS),
        RecordType::of_name("IXFR"@) == Some(RecordType::IXFR),
        RecordType::of_name("KEY"@) == Some(RecordType::KEY),
        RecordType::of_name("MX"@) == Some(RecordType::MX),
        RecordType::of_name("NAPTR"@) == Some(RecordType::NAPTR),
        RecordType::of_name("NS"@) == Some(RecordType::NS),
        RecordType::of_name("NSEC"@) == Some(RecordType::NSEC),
        RecordType::of_name("NSEC3"@) == Some(RecordType::NSEC3),
        RecordType::of_name("NSEC3PARAM"@) == Some(RecordType::NSEC3PARAM),
        RecordType::of_name("NULL"@) == Some(RecordType::NULL),
        RecordType::of_name("OPENPGPKEY"@) == Some(RecordType::OPENPGPKEY),
        RecordType::of_name("OPT"@) == Some(RecordType::OPT),
        RecordType::of_name("PTR"@) == Some(RecordType::PTR),
        RecordType::of_name("RRSIG"@) == Some(RecordType::RRSIG),
        RecordType::of_name("SIG"@) == Some(RecordType::SIG),
        RecordType::of_name("SOA"@) == Some(RecordType::SOA),
        RecordType::of_name("SRV"@) == Some(RecordType::SRV),
        RecordType::of_name("SSHFP"@) == Some(RecordType::SSHFP),
        RecordType::of_name("SVCB"@) == Some(RecordType::SVCB),
        RecordType::of_name("TLSA"@) == Some(RecordType::TLSA),
        RecordType::of_name("TSIG"@) == Some(RecordType::TSIG),
        RecordType::of_name("TXT"@) == Some(RecordType::TXT),
        RecordType::of_name("ZERO"@) == Some(RecordType::ZERO),
        forall|t: RecordType, name: Seq<char>|
            #![trigger t.name_of(), RecordType::of_name(name)]
            t.name_of() == Some(name) <==> RecordType::of_name(name) == Some(t),
        forall|code: u16| #[trigger]
            RecordType::of_wire(WireTypeView::Unknown(code)) == Some(RecordType::Unknown),
{
    lemma_named_type_round_trips(RecordType::A);
    lemma_named_type_round_trips(RecordType::AAAA);
    lemma_named_type_round_trips(RecordType::ANAME);
    lemma_named_type_round_trips(RecordType::ANY);
    lemma_named_type_round_trips(RecordType::AXFR);
    lemma_named_type_round_trips(RecordType::CAA);
    lemma_named_type_round_trips(RecordType::CDS);
    lemma_named_type_round_trips(RecordType::CDNSKEY);
    lemma_named_type_round_trips(RecordType::CNAME);
    lemma_named_type_round_trips(RecordType::CSYNC);
    lemma_named_type_round_trips(RecordType::DNSKEY);
    lemma_named_type_round_trips(RecordType::DS);
    lemma_named_type_round_trips(RecordType::HINFO);
    lemma_named_type_round_trips(RecordType::HTTPS);
    lemma_named_type_round_trips(RecordType::IXFR);
    lemma_named_type_round_trips(RecordType::KEY);
    lemma_named_type_round_trips(RecordType::MX);
    lemma_named_type_round_trips(RecordType::NAPTR);
    lemma_named_type_round_trips(RecordType::NS);
    lemma_named_type_round_trips(RecordType::NSEC);
    lemma_named_type_round_trips(RecordType::NSEC3);
    lemma_named_type_round_trips(RecordType::NSEC3PARAM);
    lemma_named_type_round_trips(RecordType::NULL);
    lemma_named_type_round_trips(RecordType::OPENPGPKEY);
    lemma_named_type_round_trips(RecordType::OPT);
    lemma_named_type_round_trips(RecordType::PTR);
    lemma_named_type_round_trips(RecordType::RRSIG);
    lemma_named_type_round_trips(RecordType::SIG);
    lemma_named_type_round_trips(RecordType::SOA);
    lemma_named_type_round_trips(RecordType::SRV);
    lemma_named_type_round_trips(RecordType::SSHFP);
    lemma_named_type_round_trips(RecordType::SVCB);
    lemma_named_type_round_trips(RecordType::TLSA);
    lemma_named_type_round_trips(RecordType::TSIG);
    lemma_named_type_round_trips(RecordType::TXT);
    lemma_named_type_round_trips(RecordType::ZERO);
    assert forall|t: RecordType, name: Seq<char>|
        #![trigger t.name_of(), RecordType::of_name(name)]
        t.name_of() == Some(name) <==> RecordType::of_name(name) == Some(t) by {
        if t.name_of() == Some(name) {
            lemma_named_type_round_trips(t);
        }
    }
}

/// A mailbox is made for an address exactly where that has a domain: with the
/// address as it is, in that domain, and without a forwarding.
pub proof fn law_mailboxes_are_made_for_their_address(
    local: Seq<char>,
    domain: Seq<char>,
    out: Result<Mailbox, MailboxError>,
)
    requires
        !local.contains('@'),
        !domain.contains('@'),
        mailbox_for(local + seq!['@'] + domain, out),
    ensures
        out is Ok <==> domain.len() > 0,
        out matches Ok(mailbox) ==> {
            &&& mailbox.id@ == local + seq!['@'] + domain
            &&& mailbox.domain_id@ == domain
            &&& mailbox.forward_to is None
            &&& mailbox.updated_at == mailbox.created_at
        },
        out matches Err(e) ==> e == MailboxError::InvalidFormat,
{
    law_domain_follows_the_first_at(local, domain, Seq::empty());
}

/// A record says what configuration states of it, part for part.
pub proof fn law_records_keep_what_is_stated(record: Record)
    ensures
        record.dto().domain_id == record.domain_id,
        record.dto().record_type == record.record_type,
        record.dto().value == record.value,
        record.dto().ttl == record.ttl,
{
}

/// The three types without a name on the wire go by their codes there, and an
/// unknown one by the placeholder.
pub proof fn law_unnamed_types_go_by_their_codes()
    ensures
        RecordType::CERT.wire_of() == WireTypeView::Unknown(0x000A),
        RecordType::DNAME.wire_of() == WireTypeView::Unknown(0x0027),
        RecordType::SMIMEA.wire_of() == WireTypeView::Unknown(0x0041),
        RecordType::Unknown.wire_of() == WireTypeView::Unknown(0xFFFF),
{
}

} // verus!
