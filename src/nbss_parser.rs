use crate::error::NetbiosError;
use crate::nbss_types::{
    first_level_model, EncodedName, NbssHeader, NbssPacket, NetbiosName, NetbiosQuestion,
    NetbiosResource, NodeName, NodeNameModel, NodeStatistics, PacketModel, QType, QuestionModel,
    RClass, RData, RDataModel, RType, ResourceModel,
};
use vstd::prelude::*;
use vstd::slice::slice_subrange;

verus! {

/// Big-endian 16-bit integer at `o`.
pub open spec fn be16(b: Seq<u8>, o: int) -> u16 {
    (b[o] as int * 256 + b[o + 1] as int) as u16
}

/// Big-endian 32-bit integer at `o`.
pub open spec fn be32(b: Seq<u8>, o: int) -> u32 {
    (be16(b, o) as int * 65536 + be16(b, o + 2) as int) as u32
}

/// Big-endian 48-bit integer at `o`.
pub open spec fn be48(b: Seq<u8>, o: int) -> u64 {
    (be32(b, o) as int * 65536 + be16(b, o + 4) as int) as u64
}

fn be_u16_at(b: &[u8], o: usize) -> (r: u16)
    requires
        o + 2 <= b@.len(),
    ensures
        r == be16(b@, o as int),
{
    (b[o] as u16) * 256 + (b[o + 1] as u16)
}

fn be_u32_at(b: &[u8], o: usize) -> (r: u32)
    requires
        o + 4 <= b@.len(),
    ensures
        r == be32(b@, o as int),
{
    // the length, a usize, bounds the offsets below
    let _len = b.len();
    (be_u16_at(b, o) as u32) * 65536 + (be_u16_at(b, o + 2) as u32)
}

fn be_u48_at(b: &[u8], o: usize) -> (r: u64)
    requires
        o + 6 <= b@.len(),
    ensures
        r == be48(b@, o as int),
{
    // the length, a usize, bounds the offsets below
    let _len = b.len();
    (be_u32_at(b, o) as u64) * 65536 + (be_u16_at(b, o + 4) as u64)
}

/// The header that the first twelve bytes encode.
pub open spec fn header_of(b: Seq<u8>) -> NbssHeader {
    NbssHeader {
        name_trn_id: be16(b, 0),
        fields_16_32: be16(b, 2),
        qdcount: be16(b, 4),
        ancount: be16(b, 6),
        nscount: be16(b, 8),
        arcount: be16(b, 10),
    }
}

/// Decodes the fixed 12-byte header and returns the bytes that follow it.
pub fn parse_nbss_header(i: &[u8]) -> (r: Result<(&[u8], NbssHeader), NetbiosError>)
    ensures
        match r {
            Ok((rem, h)) => i@.len() >= 12 && h == header_of(i@) && rem@ == i@.subrange(
                12,
                i@.len() as int,
            ),
            Err(e) => i@.len() < 12 && e == NetbiosError::Incomplete,
        },
{
    if i.len() < NbssHeader::size() {
        return Err(NetbiosError::Incomplete);
    }
    let h = NbssHeader {
        name_trn_id: be_u16_at(i, 0),
        fields_16_32: be_u16_at(i, 2),
        qdcount: be_u16_at(i, 4),
        ancount: be_u16_at(i, 6),
        nscount: be_u16_at(i, 8),
        arcount: be_u16_at(i, 10),
    };
    Ok((slice_subrange(i, 12, i.len()), h))
}

/// A one-byte field of the statistics block, or zero where the block is too short.
pub open spec fn field8(b: Seq<u8>, o: int) -> u8 {
    if o + 1 <= b.len() {
        b[o]
    } else {
        0
    }
}

/// A 16-bit field of the statistics block, or zero where the block is too short.
pub open spec fn field16(b: Seq<u8>, o: int) -> u16 {
    if o + 2 <= b.len() {
        be16(b, o)
    } else {
        0
    }
}

/// A 32-bit field of the statistics block, or zero where the block is too short.
pub open spec fn field32(b: Seq<u8>, o: int) -> u32 {
    if o + 4 <= b.len() {
        be32(b, o)
    } else {
        0
    }
}

/// The statistics that a block encodes; fields past its end are zero.
pub open spec fn stats_of(b: Seq<u8>) -> NodeStatistics {
    NodeStatistics {
        unit_id: if 6 <= b.len() {
            be48(b, 0)
        } else {
            0
        },
        jumpers: field8(b, 6),
        test_result: field8(b, 7),
        version_number: field16(b, 8),
        stats_period: field16(b, 10),
        num_crc: field16(b, 12),
        num_align_errors: field16(b, 14),
        num_collisions: field16(b, 16),
        num_send_aborts: field16(b, 18),
        num_good_sends: field32(b, 20),
        num_good_recvs: field32(b, 24),
        num_retransmits: field16(b, 28),
        num_no_res_conditions: field16(b, 30),
        num_free_cmd_blocks: field16(b, 32),
        num_total_cmd_blocks: field16(b, 34),
        max_total_cmd_blocks: field16(b, 36),
        num_pending_sessions: field16(b, 38),
        max_pending_sessions: field16(b, 40),
        max_total_sessions: field16(b, 42),
        session_data_packet_size: field16(b, 44),
    }
}

fn field_u8(b: &[u8], o: usize) -> (r: u8)
    requires
        o <= 46,
    ensures
        r == field8(b@, o as int),
{
    if o + 1 <= b.len() {
        b[o]
    } else {
        0
    }
}

fn field_u16(b: &[u8], o: usize) -> (r: u16)
    requires
        o <= 46,
    ensures
        r == field16(b@, o as int),
{
    if o + 2 <= b.len() {
        be_u16_at(b, o)
    } else {
        0
    }
}

fn field_u32(b: &[u8], o: usize) -> (r: u32)
    requires
        o <= 46,
    ensures
        r == field32(b@, o as int),
{
    if o + 4 <= b.len() {
        be_u32_at(b, o)
    } else {
        0
    }
}

/// Decodes a statistics block; a block shorter than 46 bytes leaves its
/// missing trailing fields zero.
fn parse_node_statistics(b: &[u8]) -> (r: NodeStatistics)
    ensures
        r == stats_of(b@),
{
    NodeStatistics {
        unit_id: if 6 <= b.len() {
            be_u48_at(b, 0)
        } else {
            0
        },
        jumpers: field_u8(b, 6),
        test_result: field_u8(b, 7),
        version_number: field_u16(b, 8),
        stats_period: field_u16(b, 10),
        num_crc: field_u16(b, 12),
        num_align_errors: field_u16(b, 14),
        num_collisions: field_u16(b, 16),
        num_send_aborts: field_u16(b, 18),
        num_good_sends: field_u32(b, 20),
        num_good_recvs: field_u32(b, 24),
        num_retransmits: field_u16(b, 28),
        num_no_res_conditions: field_u16(b, 30),
        num_free_cmd_blocks: field_u16(b, 32),
        num_total_cmd_blocks: field_u16(b, 34),
        max_total_cmd_blocks: field_u16(b, 36),
        num_pending_sessions: field_u16(b, 38),
        max_pending_sessions: field_u16(b, 40),
        max_total_sessions: field_u16(b, 42),
        session_data_packet_size: field_u16(b, 44),
    }
}

/// The entry that an 18-byte node-status chunk encodes: a first-level name and flags.
pub open spec fn node_name_model(c: Seq<u8>) -> NodeNameModel {
    NodeNameModel { name: first_level_model(c.take(16)), name_flags: be16(c, 16) }
}

/// The `k`-th 18-byte entry of a node-status payload.
pub open spec fn node_entry(p: Seq<u8>, k: int) -> Seq<u8> {
    p.subrange(1 + 18 * k, 1 + 18 * k + 18)
}

/// What a payload of the given record type decodes to.
pub open spec fn rdata_model(p: Seq<u8>, rtype: u16) -> Result<RDataModel, NetbiosError> {
    if rtype == RType::NB {
        if p.len() < 6 {
            Err(NetbiosError::Incomplete)
        } else {
            Ok(RDataModel::NB { nb_flags: be16(p, 0), nb_address: p.subrange(2, 6) })
        }
    } else if rtype == RType::NBSTAT {
        if p.len() < 1 || p.len() < 1 + 18 * p[0] {
            Err(NetbiosError::Incomplete)
        } else {
            Ok(
                RDataModel::NBStat {
                    names: Seq::new(p[0] as nat, |k: int| node_name_model(node_entry(p, k))),
                    stats: stats_of(p.subrange(1 + 18 * p[0], p.len() as int)),
                },
            )
        }
    } else {
        Ok(RDataModel::Unknown(p))
    }
}

/// Decodes a record payload by its type: an address record, a node-status
/// record, or, for any other type, the bytes as they are.
pub fn parse_rdata<'a>(b: &'a [u8], rtype: RType) -> (r: Result<RData<'a>, NetbiosError>)
    ensures
        match r {
            Ok(d) => rdata_model(b@, rtype.0) == Ok::<RDataModel, NetbiosError>(d@),
            Err(e) => rdata_model(b@, rtype.0) == Err::<RDataModel, NetbiosError>(e),
        },
{
    if rtype.0 == RType::NB {
        if b.len() < 6 {
            return Err(NetbiosError::Incomplete);
        }
        let nb_flags = be_u16_at(b, 0);
        let nb_address: [u8; 4] = [b[2], b[3], b[4], b[5]];
        assert(nb_address@ == b@.subrange(2, 6));
        Ok(RData::NB { nb_flags, nb_address })
    } else if rtype.0 == RType::NBSTAT {
        if b.len() < 1 {
            return Err(NetbiosError::Incomplete);
        }
        let num_names = b[0] as usize;
        if b.len() - 1 < 18 * num_names {
            return Err(NetbiosError::Incomplete);
        }
        let mut names: Vec<NodeName> = Vec::new();
        let mut k: usize = 0;
        while k < num_names
            invariant
                num_names == b@[0],
                1 + 18 * num_names <= b@.len(),
                k <= num_names,
                names@.len() == k,
                forall|j: int|
                    0 <= j < k ==> #[trigger] names@[j]@ == node_name_model(node_entry(b@, j)),
            decreases num_names - k,
        {
            let start = 1 + 18 * k;
            let chunk = slice_subrange(b, start, start + 16);
            assert(chunk@ == node_entry(b@, k as int).take(16));
            let name = match NetbiosName::from_bytes(chunk) {
                Ok(n) => n,
                Err(e) => return Err(e),
            };
            let name_flags = be_u16_at(b, start + 16);
            names.push(NodeName { name, name_flags });
            k += 1;
        }
        let stats = parse_node_statistics(slice_subrange(b, 1 + 18 * num_names, b.len()));
        assert(names@.map_values(|n: NodeName| n@) =~= Seq::new(
            b@[0] as nat,
            |k: int| node_name_model(node_entry(b@, k)),
        ));
        let r = RData::NBStat { names, stats };
        assert(r@ == RDataModel::NBStat {
            names: Seq::new(b@[0] as nat, |k: int| node_name_model(node_entry(b@, k))),
            stats: stats_of(b@.subrange(1 + 18 * b@[0], b@.len() as int)),
        });
        Ok(r)
    } else {
        Ok(RData::Unknown(b))
    }
}

/// How many bytes the name that starts at `offset` in a packet takes there, or
/// `None` where it cannot be scanned.
pub uninterp spec fn scanned_len(data: Seq<u8>, offset: int) -> Option<nat>;

/// The dotted text of the name that starts at `offset` in a packet.
pub uninterp spec fn scanned_text(data: Seq<u8>, offset: int) -> Seq<u8>;

/// Relies on dns_parser::Name::scan (with Name::byte_len and the name's Display)
/// to read a possibly compressed name at `offset`, pointers resolving against
/// the whole packet. On success the name takes at least one byte and no more
/// than remain, as the returned name is a prefix of the bytes from `offset`.
#[verifier::external_body]
fn scan_name(data: &[u8], offset: usize) -> (r: Option<(Vec<u8>, usize)>)
    requires
        offset <= data@.len(),
    ensures
        match r {
            Some((text, n)) => scanned_len(data@, offset as int) == Some(n as nat) && text@
                == scanned_text(data@, offset as int) && 1 <= n <= data@.len() - offset,
            None => scanned_len(data@, offset as int) is None,
        },
{
    match dns_parser::Name::scan(&data[offset..], data) {
        Ok(name) => Some((name.to_string().into_bytes(), name.byte_len())),
        Err(_) => None,
    }
}

/// The question whose fixed fields start at `o`, after a name already scanned,
/// with the offset after it.
pub open spec fn question_body(d: Seq<u8>, o: int, name: Seq<u8>) -> Result<
    (QuestionModel, int),
    NetbiosError,
> {
    if o + 4 > d.len() {
        Err(NetbiosError::Incomplete)
    } else {
        Ok((QuestionModel { qname: name, qtype: be16(d, o), qclass: be16(d, o + 2) }, o + 4))
    }
}

/// The question that starts at `off`, with the offset after it.
pub open spec fn question_step(d: Seq<u8>, off: int) -> Result<(QuestionModel, int), NetbiosError> {
    match scanned_len(d, off) {
        None => Err(NetbiosError::InvalidQuestion),
        Some(n) => question_body(d, off + n, scanned_text(d, off)),
    }
}

/// The first `count` questions from `start`, with the offset after the last.
pub open spec fn questions_upto(d: Seq<u8>, start: int, count: nat) -> Result<
    (Seq<QuestionModel>, int),
    NetbiosError,
>
    decreases count,
{
    if count == 0 {
        Ok((Seq::empty(), start))
    } else {
        match questions_upto(d, start, (count - 1) as nat) {
            Err(e) => Err(e),
            Ok((qs, o)) => match question_step(d, o) {
                Err(e) => Err(e),
                Ok((q, o2)) => Ok((qs.push(q), o2)),
            },
        }
    }
}

/// The resource record whose fixed fields start at `o`, after a name already
/// scanned, with the offset after its payload.
pub open spec fn record_body(d: Seq<u8>, o: int, name: Seq<u8>) -> Result<
    (ResourceModel, int),
    NetbiosError,
> {
    if o + 10 > d.len() {
        Err(NetbiosError::Incomplete)
    } else if o + 10 + be16(d, o + 8) > d.len() {
        Err(NetbiosError::Incomplete)
    } else {
        let end = o + 10 + be16(d, o + 8);
        match rdata_model(d.subrange(o + 10, end), be16(d, o)) {
            Err(e) => Err(e),
            Ok(rd) => Ok(
                (
                    ResourceModel {
                        rr_name: name,
                        rr_type: be16(d, o),
                        rr_class: be16(d, o + 2),
                        ttl: be32(d, o + 4),
                        rdata: rd,
                    },
                    end,
                ),
            ),
        }
    }
}

/// The resource record that starts at `off`, with the offset after it.
pub open spec fn record_step(d: Seq<u8>, off: int) -> Result<(ResourceModel, int), NetbiosError> {
    match scanned_len(d, off) {
        None => Err(NetbiosError::InvalidAnswer),
        Some(n) => record_body(d, off + n, scanned_text(d, off)),
    }
}

/// The first `count` resource records from `start`, with the offset after the last.
pub open spec fn records_upto(d: Seq<u8>, start: int, count: nat) -> Result<
    (Seq<ResourceModel>, int),
    NetbiosError,
>
    decreases count,
{
    if count == 0 {
        Ok((Seq::empty(), start))
    } else {
        match records_upto(d, start, (count - 1) as nat) {
            Err(e) => Err(e),
            Ok((rs, o)) => match record_step(d, o) {
                Err(e) => Err(e),
                Ok((r, o2)) => Ok((rs.push(r), o2)),
            },
        }
    }
}

/// What a whole packet decodes to, with the offset where it ends.
pub open spec fn packet_model(d: Seq<u8>) -> Result<(PacketModel, int), NetbiosError> {
    if d.len() < 12 {
        Err(NetbiosError::Incomplete)
    } else {
        let h = header_of(d);
        match questions_upto(d, 12, h.qdcount as nat) {
            Err(e) => Err(e),
            Ok((qs, o1)) => match records_upto(d, o1, h.ancount as nat) {
                Err(e) => Err(e),
                Ok((an, o2)) => match records_upto(d, o2, h.nscount as nat) {
                    Err(e) => Err(e),
                    Ok((ns, o3)) => match records_upto(d, o3, h.arcount as nat) {
                        Err(e) => Err(e),
                        Ok((ar, o4)) => Ok(
                            (
                                PacketModel {
                                    header: h,
                                    questions: qs,
                                    rr_answer: an,
                                    rr_authority: ns,
                                    rr_additional: ar,
                                },
                                o4,
                            ),
                        ),
                    },
                },
            },
        }
    }
}

proof fn lemma_questions_err_stays(d: Seq<u8>, start: int, k: nat, m: nat)
    requires
        k <= m,
        questions_upto(d, start, k) is Err,
    ensures
        questions_upto(d, start, m) == questions_upto(d, start, k),
    decreases m - k,
{
    if k < m {
        lemma_questions_err_stays(d, start, k, (m - 1) as nat);
    }
}

proof fn lemma_records_err_stays(d: Seq<u8>, start: int, k: nat, m: nat)
    requires
        k <= m,
        records_upto(d, start, k) is Err,
    ensures
        records_upto(d, start, m) == records_upto(d, start, k),
    decreases m - k,
{
    if k < m {
        lemma_records_err_stays(d, start, k, (m - 1) as nat);
    }
}

/// Decodes the type and class of a question whose name, already scanned,
/// ended at `offset`; returns the question and the offset after it.
pub fn parse_question_body(data: &[u8], offset: usize, name: Vec<u8>) -> (r: Result<
    (NetbiosQuestion, usize),
    NetbiosError,
>)
    requires
        offset <= data@.len(),
    ensures
        match r {
            Ok((q, o)) => question_body(data@, offset as int, name@) == Ok::<
                (QuestionModel, int),
                NetbiosError,
            >((q@, o as int)),
            Err(e) => question_body(data@, offset as int, name@) == Err::<
                (QuestionModel, int),
                NetbiosError,
            >(e),
        },
{
    if data.len() - offset < 4 {
        return Err(NetbiosError::Incomplete);
    }
    let qtype = QType(be_u16_at(data, offset));
    let qclass = RClass(be_u16_at(data, offset + 2));
    Ok((NetbiosQuestion { qname: EncodedName(name), qtype, qclass }, offset + 4))
}

/// Decodes the fixed fields and the payload of a resource record whose name,
/// already scanned, ended at `offset`; returns the record and the offset after it.
pub fn parse_resource_body<'a>(data: &'a [u8], offset: usize, name: Vec<u8>) -> (r: Result<
    (NetbiosResource<'a>, usize),
    NetbiosError,
>)
    requires
        offset <= data@.len(),
    ensures
        match r {
            Ok((rr, o)) => record_body(data@, offset as int, name@) == Ok::<
                (ResourceModel, int),
                NetbiosError,
            >((rr@, o as int)),
            Err(e) => record_body(data@, offset as int, name@) == Err::<
                (ResourceModel, int),
                NetbiosError,
            >(e),
        },
{
    if data.len() - offset < 10 {
        return Err(NetbiosError::Incomplete);
    }
    let rr_type = RType(be_u16_at(data, offset));
    let rr_class = RClass(be_u16_at(data, offset + 2));
    let ttl = be_u32_at(data, offset + 4);
    let rd_length = be_u16_at(data, offset + 8) as usize;
    if data.len() - offset - 10 < rd_length {
        return Err(NetbiosError::Incomplete);
    }
    let end = offset + 10 + rd_length;
    let payload = slice_subrange(data, offset + 10, end);
    let rdata = match parse_rdata(payload, rr_type) {
        Ok(d) => d,
        Err(e) => return Err(e),
    };
    Ok((NetbiosResource { rr_name: EncodedName(name), rr_type, rr_class, ttl, rdata }, end))
}

/// Decodes `num_records` resource records from `*offset`, leaving `*offset`
/// after the last of them.
fn parse_resource_records<'a>(
    num_records: usize,
    original_data: &'a [u8],
    offset: &mut usize,
) -> (r: Result<Vec<NetbiosResource<'a>>, NetbiosError>)
    requires
        *old(offset) <= original_data@.len(),
    ensures
        match r {
            Ok(v) => records_upto(original_data@, *old(offset) as int, num_records as nat) == Ok::<
                (Seq<ResourceModel>, int),
                NetbiosError,
            >((v@.map_values(|x: NetbiosResource<'a>| x@), *final(offset) as int))
                && *final(offset) <= original_data@.len(),
            Err(e) => records_upto(original_data@, *old(offset) as int, num_records as nat)
                == Err::<(Seq<ResourceModel>, int), NetbiosError>(e),
        },
{
    let ghost d = original_data@;
    let ghost start = *offset as int;
    let len = original_data.len();
    let mut resources: Vec<NetbiosResource<'a>> = Vec::new();
    assert(resources@.map_values(|x: NetbiosResource<'a>| x@) =~= Seq::<ResourceModel>::empty());
    let mut i: usize = 0;
    while i < num_records
        invariant
            d == original_data@,
            start == *old(offset),
            len == d.len(),
            i <= num_records,
            *offset <= d.len(),
            records_upto(d, start, i as nat) == Ok::<(Seq<ResourceModel>, int), NetbiosError>(
                (resources@.map_values(|x: NetbiosResource<'a>| x@), *offset as int),
            ),
        decreases num_records - i,
    {
        let (text, n) = match scan_name(original_data, *offset) {
            Some(s) => s,
            None => {
                proof {
                    assert(records_upto(d, start, (i + 1) as nat) == Err::<
                        (Seq<ResourceModel>, int),
                        NetbiosError,
                    >(NetbiosError::InvalidAnswer));
                    lemma_records_err_stays(d, start, (i + 1) as nat, num_records as nat);
                }
                return Err(NetbiosError::InvalidAnswer);
            },
        };
        let (rr, next) = match parse_resource_body(original_data, *offset + n, text) {
            Ok(x) => x,
            Err(e) => {
                proof {
                    assert(records_upto(d, start, (i + 1) as nat) == Err::<
                        (Seq<ResourceModel>, int),
                        NetbiosError,
                    >(e));
                    lemma_records_err_stays(d, start, (i + 1) as nat, num_records as nat);
                }
                return Err(e);
            },
        };
        let ghost before = resources@;
        resources.push(rr);
        assert(resources@.map_values(|x: NetbiosResource<'a>| x@) =~= before.map_values(
            |x: NetbiosResource<'a>| x@,
        ).push(rr@));
        *offset = next;
        i += 1;
    }
    Ok(resources)
}

/// Decodes a NetBIOS Name Service packet: the header, then as many questions,
/// answer, authority and additional records as it counts, each list starting
/// where the one before ended. Returns the bytes after the last record.
pub fn parse_nbss_packet<'a>(i: &'a [u8]) -> (r: Result<(&'a [u8], NbssPacket<'a>), NetbiosError>)
    ensures
        match r {
            Ok((rem, p)) => match packet_model(i@) {
                Ok((m, end)) => p@ == m && rem@ == i@.subrange(end, i@.len() as int),
                Err(_) => false,
            },
            Err(e) => packet_model(i@) == Err::<(PacketModel, int), NetbiosError>(e),
        },
{
    let ghost d = i@;
    let header = match parse_nbss_header(i) {
        Ok((_, h)) => h,
        Err(e) => return Err(e),
    };
    let mut offset: usize = NbssHeader::size();
    let num_questions = header.qdcount as usize;
    let len = i.len();
    let mut questions: Vec<NetbiosQuestion> = Vec::new();
    assert(questions@.map_values(|q: NetbiosQuestion| q@) =~= Seq::<QuestionModel>::empty());
    let mut k: usize = 0;
    while k < num_questions
        invariant
            d == i@,
            len == d.len(),
            d.len() >= 12,
            header == header_of(d),
            num_questions == header.qdcount,
            k <= num_questions,
            offset <= d.len(),
            questions_upto(d, 12, k as nat) == Ok::<(Seq<QuestionModel>, int), NetbiosError>(
                (questions@.map_values(|q: NetbiosQuestion| q@), offset as int),
            ),
        decreases num_questions - k,
    {
        let (text, n) = match scan_name(i, offset) {
            Some(s) => s,
            None => {
                proof {
                    assert(questions_upto(d, 12, (k + 1) as nat) == Err::<
                        (Seq<QuestionModel>, int),
                        NetbiosError,
                    >(NetbiosError::InvalidQuestion));
                    lemma_questions_err_stays(d, 12, (k + 1) as nat, num_questions as nat);
                }
                return Err(NetbiosError::InvalidQuestion);
            },
        };
        let (q, next) = match parse_question_body(i, offset + n, text) {
            Ok(x) => x,
            Err(e) => {
                proof {
                    assert(questions_upto(d, 12, (k + 1) as nat) == Err::<
                        (Seq<QuestionModel>, int),
                        NetbiosError,
                    >(e));
                    lemma_questions_err_stays(d, 12, (k + 1) as nat, num_questions as nat);
                }
                return Err(e);
            },
        };
        let ghost before = questions@;
        questions.push(q);
        assert(questions@.map_values(|x: NetbiosQuestion| x@) =~= before.map_values(
            |x: NetbiosQuestion| x@,
        ).push(q@));
        offset = next;
        k += 1;
    }
    let rr_answer = match parse_resource_records(header.ancount as usize, i, &mut offset) {
        Ok(v) => v,
        Err(e) => return Err(e),
    };
    let rr_authority = match parse_resource_records(header.nscount as usize, i, &mut offset) {
        Ok(v) => v,
        Err(e) => return Err(e),
    };
    let rr_additional = match parse_resource_records(header.arcount as usize, i, &mut offset) {
        Ok(v) => v,
        Err(e) => return Err(e),
    };
    let packet = NbssPacket { header, questions, rr_answer, rr_authority, rr_additional };
    Ok((slice_subrange(i, offset, i.len()), packet))
}

/// A resource record whose declared payload length runs past the end of the
/// buffer decodes to `Incomplete`, whatever its name and payload type.
pub proof fn lemma_overlong_payload_incomplete(d: Seq<u8>, o: int, name: Seq<u8>)
    requires
        0 <= o,
        o + 10 <= d.len(),
        o + 10 + be16(d, o + 8) > d.len(),
    ensures
        record_body(d, o, name) == Err::<(ResourceModel, int), NetbiosError>(
            NetbiosError::Incomplete,
        ),
{
}

/// Every list of a decoded packet is as long as the header's count for it.
pub proof fn lemma_packet_counts(d: Seq<u8>)
    requires
        packet_model(d) is Ok,
    ensures
        ({
            let m = packet_model(d)->Ok_0.0;
            &&& m.questions.len() == m.header.qdcount
            &&& m.rr_answer.len() == m.header.ancount
            &&& m.rr_authority.len() == m.header.nscount
            &&& m.rr_additional.len() == m.header.arcount
        }),
{
    let h = header_of(d);
    let (qs, o1) = questions_upto(d, 12, h.qdcount as nat)->Ok_0;
    lemma_questions_len(d, 12, h.qdcount as nat);
    let (an, o2) = records_upto(d, o1, h.ancount as nat)->Ok_0;
    lemma_records_len(d, o1, h.ancount as nat);
    let (ns, o3) = records_upto(d, o2, h.nscount as nat)->Ok_0;
    lemma_records_len(d, o2, h.nscount as nat);
    lemma_records_len(d, o3, h.arcount as nat);
}

proof fn lemma_questions_len(d: Seq<u8>, start: int, count: nat)
    ensures
        questions_upto(d, start, count) is Ok ==> questions_upto(d, start, count)->Ok_0.0.len()
            == count,
    decreases count,
{
    if count > 0 {
        lemma_questions_len(d, start, (count - 1) as nat);
    }
}

proof fn lemma_records_len(d: Seq<u8>, start: int, count: nat)
    ensures
        records_upto(d, start, count) is Ok ==> records_upto(d, start, count)->Ok_0.0.len()
            == count,
    decreases count,
{
    if count > 0 {
        lemma_records_len(d, start, (count - 1) as nat);
    }
}

/// A statistics block of zero bytes, of any length, decodes to all-zero statistics.
pub proof fn lemma_zero_statistics(b: Seq<u8>)
    requires
        forall|k: int| 0 <= k < b.len() ==> b[k] == 0,
    ensures
        stats_of(b) == (NodeStatistics {
            unit_id: 0,
            jumpers: 0,
            test_result: 0,
            version_number: 0,
            stats_period: 0,
            num_crc: 0,
            num_align_errors: 0,
            num_collisions: 0,
            num_send_aborts: 0,
            num_good_sends: 0,
            num_good_recvs: 0,
            num_retransmits: 0,
            num_no_res_conditions: 0,
            num_free_cmd_blocks: 0,
            num_total_cmd_blocks: 0,
            max_total_cmd_blocks: 0,
            num_pending_sessions: 0,
            max_pending_sessions: 0,
            max_total_sessions: 0,
            session_data_packet_size: 0,
        }),
{
}

} // verus!
