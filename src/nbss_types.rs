use crate::error::NetbiosError;
use vstd::prelude::*;
use vstd::string::StringSliceAdditionalSpecFns;

verus! {

/// NetBIOS Name Service header: the fixed twelve bytes that open every packet.
#[derive(Debug, Clone, Copy, PartialEq, Eq, Structural)]
pub struct NbssHeader {
    pub name_trn_id: u16,
    /// Packed flags: response bit, opcode, name flags and result code.
    pub fields_16_32: u16,
    pub qdcount: u16,
    pub ancount: u16,
    pub nscount: u16,
    pub arcount: u16,
}

impl NbssHeader {
    /// Size of the header on the wire, in bytes.
    pub fn size() -> (r: usize)
        ensures
            r == 12,
    {
        12
    }

    /// The response bit (bit 15).
    pub fn opcode_r(&self) -> (r: bool)
        ensures
            r == (self.fields_16_32 & 0x8000 != 0),
    {
        self.fields_16_32 & 0x8000 != 0
    }

    /// True when bit 15 is clear.
    pub fn request(&self) -> (r: bool)
        ensures
            r == (self.fields_16_32 & 0x8000 == 0),
            r == (self.fields_16_32 < 0x8000),
    {
        let f = self.fields_16_32;
        assert(f & 0x8000 == 0 <==> f < 0x8000) by (bit_vector);
        f & 0x8000 == 0
    }

    /// True when bit 15 is set.
    pub fn response(&self) -> (r: bool)
        ensures
            r == (self.fields_16_32 & 0x8000 != 0),
            r == (self.fields_16_32 >= 0x8000),
    {
        let f = self.fields_16_32;
        assert(f & 0x8000 != 0 <==> f >= 0x8000) by (bit_vector);
        f & 0x8000 != 0
    }

    /// The operation code: bits 14 to 10.
    pub fn opcode(&self) -> (r: u8)
        ensures
            r == ((self.fields_16_32 >> 10u16) & 0x1f) as u8,
            r < 32,
    {
        let f = self.fields_16_32;
        assert((f >> 10u16) & 0x1f < 32) by (bit_vector);
        ((f >> 10u16) & 0x1f) as u8
    }

    /// The name flags: bits 10 to 4.
    pub fn nm_flags(&self) -> (r: NMFlags)
        ensures
            r.0 == ((self.fields_16_32 >> 4u16) & 0x7f) as u8,
            r.0 < 128,
    {
        let f = self.fields_16_32;
        assert((f >> 4u16) & 0x7f < 128) by (bit_vector);
        NMFlags(((f >> 4u16) & 0x7f) as u8)
    }

    /// The result code: bits 3 to 0.
    pub fn rcode(&self) -> (r: RCode)
        ensures
            r.0 == (self.fields_16_32 & 0xf) as u8,
            r.0 < 16,
    {
        let f = self.fields_16_32;
        assert(f & 0xf < 16) by (bit_vector);
        RCode((f & 0xf) as u8)
    }
}

/// Name flags of a header. Any value is kept; the constants name single bits.
#[derive(Debug, Clone, Copy, PartialEq, Eq, Structural)]
pub struct NMFlags(pub u8);

#[allow(non_upper_case_globals)]
impl NMFlags {
    pub const Broadcast: u8 = 0x01;
    pub const RecursionAvailable: u8 = 0x08;
    pub const RecursionDesired: u8 = 0x10;
    pub const Truncation: u8 = 0x20;
}

/// Result code of a header. Any four-bit value is kept.
#[derive(Debug, Clone, Copy, PartialEq, Eq, Structural)]
pub struct RCode(pub u8);

#[allow(non_upper_case_globals)]
impl RCode {
    pub const NoErr: u8 = 0x0;
    pub const FmtErr: u8 = 0x1;
    pub const SrvErr: u8 = 0x2;
    pub const ImpErr: u8 = 0x4;
    pub const RfsErr: u8 = 0x5;
    pub const ActErr: u8 = 0x6;
    pub const CftErr: u8 = 0x7;
}

/// Question type. Any value is kept.
#[derive(Debug, Clone, Copy, PartialEq, Eq, Structural)]
pub struct QType(pub u16);

impl QType {
    pub const NB: u16 = 0x0020;
    pub const NBSTAT: u16 = 0x0021;
}

/// Resource record type. Any value is kept.
#[derive(Debug, Clone, Copy, PartialEq, Eq, Structural)]
pub struct RType(pub u16);

impl RType {
    pub const A: u16 = 0x0001;
    pub const NS: u16 = 0x0002;
    pub const NULL: u16 = 0x000A;
    pub const NB: u16 = 0x0020;
    pub const NBSTAT: u16 = 0x0021;
}

/// Resource record class. Any value is kept.
#[derive(Debug, Clone, Copy, PartialEq, Eq, Structural)]
pub struct RClass(pub u16);

impl RClass {
    pub const IN: u16 = 0x0001;
}

/// Suffix byte of a NetBIOS name. Any value is kept.
#[derive(Debug, Clone, Copy, PartialEq, Eq, Structural)]
pub struct NetbiosNameType(pub u8);

#[allow(non_upper_case_globals)]
impl NetbiosNameType {
    pub const Workstation: u8 = 0x00;
    pub const DomainMasterBrowser: u8 = 0x1b;
    pub const LocalMasterBrowser: u8 = 0x1d;
    pub const FileServer: u8 = 0x20;
}

/// What a decoded NetBIOS name holds: its label and its suffix byte.
pub ghost struct NameModel {
    pub label: Seq<char>,
    pub name_type: u8,
}

/// A decoded NetBIOS name: up to fifteen label characters and a suffix type.
#[derive(Debug, PartialEq)]
pub struct NetbiosName {
    pub nb_name: String,
    pub nb_type: NetbiosNameType,
}

impl View for NetbiosName {
    type V = NameModel;

    open spec fn view(&self) -> NameModel {
        NameModel { label: self.nb_name@, name_type: self.nb_type.0 }
    }
}

/// Index of the first space among the label bytes at or after `k`, or 15.
pub open spec fn space_from(b: Seq<u8>, k: int) -> int
    decreases 15 - k,
{
    if 15 <= k {
        15
    } else if b[k] == 0x20 {
        k
    } else {
        space_from(b, k + 1)
    }
}

/// Where the label of a first-level name ends: at its first space, or after 15 bytes.
pub open spec fn label_end(b: Seq<u8>) -> int {
    space_from(b, 0)
}

/// Bytes read as characters of the same code (Latin-1).
pub open spec fn latin1(b: Seq<u8>) -> Seq<char> {
    b.map_values(|x: u8| x as char)
}

/// The name that a 16-byte first-level name decodes to.
pub open spec fn first_level_model(b: Seq<u8>) -> NameModel {
    NameModel { label: latin1(b.take(label_end(b))), name_type: b[15] }
}

/// `a - 'A'`, modulo 256.
pub open spec fn minus_a(a: u8) -> u8 {
    if a >= 0x41 {
        (a - 0x41) as u8
    } else {
        (a + 256 - 0x41) as u8
    }
}

/// The byte that a pair of second-level characters stands for.
pub open spec fn half_ascii_byte(a: u8, b: u8) -> u8 {
    ((minus_a(a) << 4u8) | (minus_a(b) & 0x4fu8)) as u8
}

/// The 16 bytes that a 32-byte second-level name stands for, pair by pair.
pub open spec fn second_level_bytes(s: Seq<u8>) -> Seq<u8> {
    Seq::new(16, |k: int| half_ascii_byte(s[2 * k], s[2 * k + 1]))
}

/// A first-level name re-encoded: the label, spaces up to 15 bytes, the suffix.
pub open spec fn encode_first_level(m: NameModel) -> Seq<u8> {
    m.label.map_values(|c: char| c as u8) + Seq::new((15 - m.label.len()) as nat, |k: int| 0x20u8)
        + seq![m.name_type]
}

/// The label bytes of a first-level name with all padding made spaces.
pub open spec fn pad_normalized(b: Seq<u8>) -> Seq<u8> {
    b.take(label_end(b)) + Seq::new((15 - label_end(b)) as nat, |k: int| 0x20u8) + seq![b[15]]
}

/// The 32-character second-level form of 16 bytes: each byte as two letters from 'A'.
pub open spec fn half_ascii_encode(b: Seq<u8>) -> Seq<u8> {
    Seq::new(
        32,
        |k: int|
            if k % 2 == 0 {
                ((b[k / 2] >> 4u8) + 0x41) as u8
            } else {
                ((b[k / 2] & 0xfu8) + 0x41) as u8
            },
    )
}

/// Relies on String::push: it appends one character to the string.
#[verifier::external_body]
pub(crate) fn push_char(s: &mut String, c: char)
    ensures
        final(s)@ == old(s)@.push(c),
{
    s.push(c)
}

/// A lower-case hexadecimal digit.
pub open spec fn hex_digit(d: u8) -> char {
    if d < 10 {
        (48 + d) as char
    } else {
        (87 + d) as char
    }
}

/// A byte in lower-case hexadecimal, without leading zeros.
pub open spec fn hex_text(v: u8) -> Seq<char> {
    if v < 16 {
        seq![hex_digit(v)]
    } else {
        seq![hex_digit(v / 16), hex_digit(v % 16)]
    }
}

fn hex_char(d: u8) -> (r: char)
    requires
        d < 16,
    ensures
        r == hex_digit(d),
{
    if d < 10 {
        (48 + d) as char
    } else {
        (87 + d) as char
    }
}

proof fn lemma_space_from_bounds(b: Seq<u8>, k: int)
    requires
        0 <= k <= 15,
    ensures
        k <= space_from(b, k) <= 15,
        forall|j: int| k <= j < space_from(b, k) ==> b[j] != 0x20,
        space_from(b, k) < 15 ==> b[space_from(b, k)] == 0x20,
    decreases 15 - k,
{
    if k < 15 && b[k] != 0x20 {
        lemma_space_from_bounds(b, k + 1);
    }
}

impl NetbiosName {
    /// Decodes a 16-byte first-level name: the label stops at the first space
    /// among the first 15 bytes, and the last byte is the suffix type.
    pub fn from_bytes(i: &[u8]) -> (r: Result<Self, NetbiosError>)
        ensures
            match r {
                Ok(n) => i@.len() == 16 && n@ == first_level_model(i@),
                Err(e) => i@.len() != 16 && e == NetbiosError::InvalidNameLength,
            },
    {
        if i.len() != 16 {
            return Err(NetbiosError::InvalidNameLength);
        }
        let nb_type = NetbiosNameType(i[15]);
        let mut s = String::new();
        let mut k: usize = 0;
        while k < 15
            invariant
                i@.len() == 16,
                k <= 15,
                space_from(i@, k as int) == label_end(i@),
                s@ == latin1(i@.take(k as int)),
            ensures
                i@.len() == 16,
                k <= 15,
                k < 15 ==> i@[k as int] == 0x20,
                space_from(i@, k as int) == label_end(i@),
                s@ == latin1(i@.take(k as int)),
            decreases 15 - k,
        {
            if i[k] == 0x20 {
                break;
            }
            push_char(&mut s, i[k] as char);
            assert(i@.take(k + 1) == i@.take(k as int).push(i@[k as int]));
            k += 1;
        }
        assert(label_end(i@) == k);
        Ok(NetbiosName { nb_name: s, nb_type })
    }

    /// Decodes a 32-character second-level name: each pair of characters gives
    /// one byte, and the 16 bytes are decoded as a first-level name.
    pub fn decode(s: &str) -> (r: Result<Self, NetbiosError>)
        ensures
            match r {
                Ok(n) => s.spec_bytes().len() == 32 && n@ == first_level_model(
                    second_level_bytes(s.spec_bytes()),
                ),
                Err(e) => s.spec_bytes().len() != 32 && e == NetbiosError::InvalidNameLength,
            },
    {
        Self::decode_bytes(s.as_bytes())
    }

    /// Decodes the bytes of a 32-character second-level name.
    pub fn decode_bytes(i: &[u8]) -> (r: Result<Self, NetbiosError>)
        ensures
            match r {
                Ok(n) => i@.len() == 32 && n@ == first_level_model(second_level_bytes(i@)),
                Err(e) => i@.len() != 32 && e == NetbiosError::InvalidNameLength,
            },
    {
        if i.len() != 32 {
            return Err(NetbiosError::InvalidNameLength);
        }
        let mut v: Vec<u8> = Vec::new();
        let mut k: usize = 0;
        while k < 16
            invariant
                i@.len() == 32,
                k <= 16,
                v@ == second_level_bytes(i@).take(k as int),
            decreases 16 - k,
        {
            let c = (i[2 * k].wrapping_sub(0x41) << 4u8) | (i[2 * k + 1].wrapping_sub(0x41) & 0x4f);
            v.push(c);
            assert(v@ == second_level_bytes(i@).take(k + 1));
            k += 1;
        }
        assert(v@ == second_level_bytes(i@));
        NetbiosName::from_bytes(v.as_slice())
    }

    /// The name as text: the label, then the suffix type in hexadecimal between `<` and `>`.
    pub fn to_string(&self) -> (r: String)
        ensures
            r@ == self.nb_name@ + seq!['<'] + hex_text(self.nb_type.0) + seq!['>'],
    {
        let mut s = self.nb_name.clone();
        push_char(&mut s, '<');
        let t = self.nb_type.0;
        if t >= 16 {
            push_char(&mut s, hex_char(t / 16));
        }
        push_char(&mut s, hex_char(t % 16));
        push_char(&mut s, '>');
        assert(s@ == self.nb_name@ + seq!['<'] + hex_text(t) + seq!['>']);
        s
    }
}

/// Decoding a first-level name and encoding it again gives the original bytes,
/// with every byte after the label's end made a space.
pub proof fn lemma_first_level_round_trip(b: Seq<u8>)
    requires
        b.len() == 16,
    ensures
        encode_first_level(first_level_model(b)) == pad_normalized(b),
        (forall|j: int| label_end(b) <= j < 15 ==> b[j] == 0x20) ==> encode_first_level(
            first_level_model(b),
        ) == b,
{
    lemma_space_from_bounds(b, 0);
    let m = first_level_model(b);
    let e = label_end(b);
    assert forall|j: int| 0 <= j < e implies ((b[j] as char) as u8) == b[j] by {}
    assert(m.label.map_values(|c: char| c as u8) == b.take(e));
    assert(encode_first_level(m) == pad_normalized(b));
    if forall|j: int| label_end(b) <= j < 15 ==> b[j] == 0x20 {
        assert(pad_normalized(b) == b);
    }
}

proof fn lemma_half_ascii_pair(x: u8)
    ensures
        half_ascii_byte(((x >> 4u8) + 0x41) as u8, ((x & 0xfu8) + 0x41) as u8) == x,
{
    assert(x >> 4u8 < 16) by (bit_vector);
    assert(x & 0xfu8 < 16) by (bit_vector);
    assert(minus_a(((x >> 4u8) + 0x41) as u8) == x >> 4u8);
    assert(minus_a(((x & 0xfu8) + 0x41) as u8) == x & 0xfu8);
    assert((((x >> 4u8) << 4u8) | ((x & 0xfu8) & 0x4fu8)) == x) by (bit_vector);
}

/// Encoding 16 bytes in second-level form and decoding the pairs gives back
/// the 16 bytes, hence the same name and suffix type.
pub proof fn lemma_second_level_round_trip(b: Seq<u8>)
    requires
        b.len() == 16,
    ensures
        half_ascii_encode(b).len() == 32,
        second_level_bytes(half_ascii_encode(b)) == b,
        first_level_model(second_level_bytes(half_ascii_encode(b))) == first_level_model(b),
{
    let e = half_ascii_encode(b);
    assert forall|k: int| 0 <= k < 16 implies second_level_bytes(e)[k] == b[k] by {
        assert((2 * k) % 2 == 0 && (2 * k) / 2 == k);
        assert((2 * k + 1) % 2 == 1 && (2 * k + 1) / 2 == k);
        lemma_half_ascii_pair(b[k]);
    }
    assert(second_level_bytes(e) == b);
}

/// A name as it was scanned from a packet, in its 32-character second-level form.
#[derive(Debug, PartialEq)]
pub struct EncodedName(pub Vec<u8>);

impl View for EncodedName {
    type V = Seq<u8>;

    open spec fn view(&self) -> Seq<u8> {
        self.0@
    }
}

impl EncodedName {
    /// Decodes the second-level form into a NetBIOS name.
    pub fn decode(&self) -> (r: Result<NetbiosName, NetbiosError>)
        ensures
            match r {
                Ok(n) => self@.len() == 32 && n@ == first_level_model(second_level_bytes(self@)),
                Err(e) => self@.len() != 32 && e == NetbiosError::InvalidNameLength,
            },
    {
        NetbiosName::decode_bytes(self.0.as_slice())
    }
}

/// What a decoded question holds.
pub ghost struct QuestionModel {
    pub qname: Seq<u8>,
    pub qtype: u16,
    pub qclass: u16,
}

/// NetBIOS Name Service question entry.
#[derive(Debug, PartialEq)]
pub struct NetbiosQuestion {
    pub qname: EncodedName,
    pub qtype: QType,
    pub qclass: RClass,
}

impl View for NetbiosQuestion {
    type V = QuestionModel;

    open spec fn view(&self) -> QuestionModel {
        QuestionModel { qname: self.qname@, qtype: self.qtype.0, qclass: self.qclass.0 }
    }
}

/// What an entry of a node-status record holds.
pub ghost struct NodeNameModel {
    pub name: NameModel,
    pub name_flags: u16,
}

/// One entry of a node-status record: a first-level name and its flags.
#[derive(Debug, PartialEq)]
pub struct NodeName {
    pub name: NetbiosName,
    pub name_flags: u16,
}

impl View for NodeName {
    type V = NodeNameModel;

    open spec fn view(&self) -> NodeNameModel {
        NodeNameModel { name: self.name@, name_flags: self.name_flags }
    }
}

/// Statistics block that ends a node-status record (46 bytes on the wire).
#[derive(Debug, Default, Clone, Copy, PartialEq, Eq, Structural)]
pub struct NodeStatistics {
    /// Only the low 48 bits are used.
    pub unit_id: u64,
    pub jumpers: u8,
    pub test_result: u8,
    pub version_number: u16,
    pub stats_period: u16,
    pub num_crc: u16,
    pub num_align_errors: u16,
    pub num_collisions: u16,
    pub num_send_aborts: u16,
    pub num_good_sends: u32,
    pub num_good_recvs: u32,
    pub num_retransmits: u16,
    pub num_no_res_conditions: u16,
    pub num_free_cmd_blocks: u16,
    pub num_total_cmd_blocks: u16,
    pub max_total_cmd_blocks: u16,
    pub num_pending_sessions: u16,
    pub max_pending_sessions: u16,
    pub max_total_sessions: u16,
    pub session_data_packet_size: u16,
}

/// What the payload of a resource record holds.
pub ghost enum RDataModel {
    NB { nb_flags: u16, nb_address: Seq<u8> },
    NBStat { names: Seq<NodeNameModel>, stats: NodeStatistics },
    Unknown(Seq<u8>),
}

/// Payload of a resource record, by its type.
#[derive(Debug, PartialEq)]
pub enum RData<'a> {
    /// Address record: flags and an IPv4 address, most significant octet first.
    NB { nb_flags: u16, nb_address: [u8; 4] },
    /// Node-status record: the node's names and its statistics.
    NBStat { names: Vec<NodeName>, stats: NodeStatistics },
    /// Any other type: the payload bytes, borrowed from the packet buffer.
    Unknown(&'a [u8]),
}

impl<'a> View for RData<'a> {
    type V = RDataModel;

    open spec fn view(&self) -> RDataModel {
        match self {
            RData::NB { nb_flags, nb_address } => RDataModel::NB {
                nb_flags: *nb_flags,
                nb_address: nb_address@,
            },
            RData::NBStat { names, stats } => RDataModel::NBStat {
                names: names@.map_values(|n: NodeName| n@),
                stats: *stats,
            },
            RData::Unknown(b) => RDataModel::Unknown(b@),
        }
    }
}

/// What a decoded resource record holds.
pub ghost struct ResourceModel {
    pub rr_name: Seq<u8>,
    pub rr_type: u16,
    pub rr_class: u16,
    pub ttl: u32,
    pub rdata: RDataModel,
}

/// NetBIOS Name Service resource record.
#[derive(Debug, PartialEq)]
pub struct NetbiosResource<'a> {
    pub rr_name: EncodedName,
    pub rr_type: RType,
    pub rr_class: RClass,
    pub ttl: u32,
    pub rdata: RData<'a>,
}

impl<'a> View for NetbiosResource<'a> {
    type V = ResourceModel;

    open spec fn view(&self) -> ResourceModel {
        ResourceModel {
            rr_name: self.rr_name@,
            rr_type: self.rr_type.0,
            rr_class: self.rr_class.0,
            ttl: self.ttl,
            rdata: self.rdata@,
        }
    }
}

/// What a decoded packet holds.
pub ghost struct PacketModel {
    pub header: NbssHeader,
    pub questions: Seq<QuestionModel>,
    pub rr_answer: Seq<ResourceModel>,
    pub rr_authority: Seq<ResourceModel>,
    pub rr_additional: Seq<ResourceModel>,
}

/// NetBIOS Name Service packet. Unknown record payloads borrow from the
/// buffer it was decoded from, which must outlive it.
#[derive(Debug, PartialEq)]
pub struct NbssPacket<'a> {
    pub header: NbssHeader,
    pub questions: Vec<NetbiosQuestion>,
    pub rr_answer: Vec<NetbiosResource<'a>>,
    pub rr_authority: Vec<NetbiosResource<'a>>,
    pub rr_additional: Vec<NetbiosResource<'a>>,
}

impl<'a> View for NbssPacket<'a> {
    type V = PacketModel;

    open spec fn view(&self) -> PacketModel {
        PacketModel {
            header: self.header,
            questions: self.questions@.map_values(|q: NetbiosQuestion| q@),
            rr_answer: self.rr_answer@.map_values(|r: NetbiosResource<'a>| r@),
            rr_authority: self.rr_authority@.map_values(|r: NetbiosResource<'a>| r@),
            rr_additional: self.rr_additional@.map_values(|r: NetbiosResource<'a>| r@),
        }
    }
}

} // verus!
