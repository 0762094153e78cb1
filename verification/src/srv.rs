//! Decoding of SRV answer buffers into a typed record set.
//!
//! An SRV record carries a priority, a weight, a port, and a target host
//! name. The name is encoded as labels and may end in a compression
//! pointer into the rest of the message, so it is decoded against the
//! whole answer buffer.

use vstd::prelude::*;
use crate::error::{ARES_SUCCESS, AresError};
use crate::error::spec_error_of_status;
use crate::types::MAX_ADDRTTLS;
use crate::wire;
use crate::wire::SpecRecord;

verus! {

/// The record type code of an SRV record.
pub const SRV_RTYPE: u16 = 33;

/// One decoded SRV record: the target host as a dotted byte string, and
/// the record's priority, weight, and port.
pub struct SrvSpec {
    pub host: Seq<u8>,
    pub priority: int,
    pub weight: int,
    pub port: int,
}

/// The contents of a single SRV record.
#[derive(Clone, Debug)]
pub struct SrvResult {
    pub host: Vec<u8>,
    pub priority: u16,
    pub weight: u16,
    pub port: u16,
}

impl View for SrvResult {
    type V = SrvSpec;

    open spec fn view(&self) -> SrvSpec {
        SrvSpec {
            host: self.host@,
            priority: self.priority as int,
            weight: self.weight as int,
            port: self.port as int,
        }
    }
}

/// The result of a successful SRV lookup.
#[derive(Clone, Debug)]
pub struct SrvResults {
    pub records: Vec<SrvResult>,
}

impl View for SrvResults {
    type V = Seq<SrvSpec>;

    open spec fn view(&self) -> Seq<SrvSpec> {
        self.records@.map_values(|r: SrvResult| r@)
    }
}

/// A bound that keeps name decoding finite whatever the buffer holds.
pub open spec fn name_measure(d: Seq<u8>, i: int) -> int {
    if 0 <= i <= d.len() {
        d.len() - i
    } else {
        0
    }
}

/// The dotted byte string of the name encoded at offset `i`, or `None`
/// if the name is malformed, runs off the buffer, or chases more
/// compression pointers than `fuel` allows. A compliant name points each
/// compression pointer at a prior occurrence, so a fuel of the buffer's
/// length never cuts one short.
pub open spec fn spec_decode_name(d: Seq<u8>, i: int, fuel: nat) -> Option<Seq<u8>>
    decreases fuel, name_measure(d, i),
{
    if i < 0 || i >= d.len() {
        None
    } else if d[i] == 0 {
        Some(Seq::empty())
    } else if d[i] >= 192 {
        if fuel == 0 {
            None
        } else if i + 2 <= d.len() {
            spec_decode_name(d, 256 * (d[i] - 192) + d[i + 1], (fuel - 1) as nat)
        } else {
            None
        }
    } else if d[i] >= 64 {
        None
    } else if i + 1 + d[i] <= d.len() {
        match spec_decode_name(d, i + 1 + d[i], fuel) {
            None => None,
            Some(rest) => {
                let label = d.subrange(i + 1, i + 1 + d[i]);
                if rest.len() == 0 {
                    Some(label)
                } else {
                    Some(label + seq![46u8] + rest)
                }
            },
        }
    } else {
        None
    }
}

/// Decodes the name encoded at offset `i` into its dotted byte string.
fn decode_name(data: &[u8], i: usize, fuel: usize) -> (r: Option<Vec<u8>>)
    ensures
        match r {
            Some(v) => spec_decode_name(data@, i as int, fuel as nat) == Some(v@),
            None => spec_decode_name(data@, i as int, fuel as nat) is None,
        },
    decreases fuel, name_measure(data@, i as int),
{
    if i >= data.len() {
        None
    } else {
        let b = data[i];
        if b == 0 {
            Some(Vec::new())
        } else if b >= 192 {
            if fuel == 0 {
                None
            } else if data.len() - i >= 2 {
                let target = 256 * ((b - 192) as usize) + (data[i + 1] as usize);
                decode_name(data, target, fuel - 1)
            } else {
                None
            }
        } else if b >= 64 {
            None
        } else {
            let step = (b as usize) + 1;
            if step <= data.len() - i {
                match decode_name(data, i + step, fuel) {
                    None => None,
                    Some(rest) => {
                        let ghost label = data@.subrange(i + 1, i + 1 + b);
                        let dlen = data.len();
                        let mut out: Vec<u8> = Vec::new();
                        let mut k: usize = 0;
                        while k < step - 1
                            invariant
                                step == b + 1,
                                dlen == data@.len(),
                                i + step <= dlen,
                                k <= step - 1,
                                out@ == data@.subrange(i + 1, i + 1 + k),
                            decreases step - 1 - k,
                        {
                            let ghost prev = out@;
                            out.push(data[i + 1 + k]);
                            proof {
                                assert(out@ =~= data@.subrange(i + 1, i + 2 + k));
                            }
                            k += 1;
                        }
                        proof {
                            assert(out@ == label);
                        }
                        if rest.len() > 0 {
                            let ghost mid = out@;
                            out.push(46);
                            let mut tail = rest;
                            out.append(&mut tail);
                            proof {
                                assert(out@ =~= label + seq![46u8] + spec_decode_name(
                                    data@,
                                    (i + step) as int,
                                    fuel as nat,
                                ).unwrap());
                            }
                        }
                        Some(out)
                    },
                }
            } else {
                None
            }
        }
    }
}

/// The decoded form of one scanned SRV record, or `None` if its data is
/// too short or its target name malformed.
pub open spec fn srv_of(d: Seq<u8>, r: SpecRecord) -> Option<SrvSpec> {
    if r.rdlen >= 6 {
        match spec_decode_name(d, r.rdata_off + 6, d.len() as nat) {
            None => None,
            Some(h) => Some(
                SrvSpec {
                    host: h,
                    priority: wire::u16_at(d, r.rdata_off),
                    weight: wire::u16_at(d, r.rdata_off + 2),
                    port: wire::u16_at(d, r.rdata_off + 4),
                },
            ),
        }
    } else {
        None
    }
}

/// The decoded forms of a sequence of scanned SRV records, in order, or
/// `None` if any of them is malformed.
pub open spec fn srv_map(d: Seq<u8>, rs: Seq<SpecRecord>) -> Option<Seq<SrvSpec>>
    decreases rs.len(),
{
    if rs.len() == 0 {
        Some(Seq::empty())
    } else {
        match srv_of(d, rs[0]) {
            None => None,
            Some(s) => {
                match srv_map(d, rs.drop_first()) {
                    None => None,
                    Some(rest) => Some(seq![s] + rest),
                }
            },
        }
    }
}

/// Every SRV record of an answer buffer, decoded, in wire order; `None`
/// if the buffer or any SRV record is malformed.
pub open spec fn spec_srv_list(d: Seq<u8>) -> Option<Seq<SrvSpec>> {
    match wire::spec_scan(d, SRV_RTYPE as int) {
        None => None,
        Some(rs) => srv_map(d, rs),
    }
}

/// What parsing an SRV answer buffer yields: the records in wire order,
/// truncated to the fixed capacity; `EBADRESP` for a malformed buffer and
/// `ENODATA` for an answer without SRV records.
pub open spec fn spec_parse_srv(d: Seq<u8>) -> Result<Seq<SrvSpec>, AresError> {
    match spec_srv_list(d) {
        None => Err(AresError::EBADRESP),
        Some(rs) => {
            if rs.len() == 0 {
                Err(AresError::ENODATA)
            } else if rs.len() <= MAX_ADDRTTLS as int {
                Ok(rs)
            } else {
                Ok(rs.take(MAX_ADDRTTLS as int))
            }
        },
    }
}

impl SrvResults {
    /// Obtain an `SrvResults` from the response to an SRV lookup.
    pub fn parse_from(data: &[u8]) -> (r: Result<SrvResults, AresError>)
        ensures
            match r {
                Ok(res) => spec_parse_srv(data@) == Ok::<Seq<SrvSpec>, AresError>(res@) && 0
                    < res@.len() <= MAX_ADDRTTLS as int,
                Err(e) => spec_parse_srv(data@) == Err::<Seq<SrvSpec>, AresError>(e),
            },
    {
        let recs = match wire::scan(data, SRV_RTYPE) {
            Err(e) => {
                return Err(e);
            },
            Ok(v) => v,
        };
        let ghost rs = wire::recs_view(recs@);
        let dlen = data.len();
        proof {
            assert(rs.skip(0) =~= rs);
            match srv_map(data@, rs) {
                Some(rest) => {
                    assert(Seq::<SrvResult>::empty().map_values(|r: SrvResult| r@) + rest
                        =~= rest);
                },
                None => {},
            }
        }
        let mut out: Vec<SrvResult> = Vec::new();
        let mut i: usize = 0;
        while i < recs.len()
            invariant
                i <= recs@.len(),
                dlen == data@.len(),
                rs == wire::recs_view(recs@),
                rs.len() == recs@.len(),
                wire::spec_scan(data@, SRV_RTYPE as int) == Some(rs),
                forall|j: int|
                    0 <= j < recs@.len() ==> (#[trigger] recs@[j]).rdata_off + recs@[j].rdlen
                        <= data@.len(),
                out@.len() == i,
                match srv_map(data@, rs.skip(i as int)) {
                    Some(rest) => srv_map(data@, rs) == Some(
                        out@.map_values(|r: SrvResult| r@) + rest,
                    ),
                    None => srv_map(data@, rs) is None,
                },
            decreases recs@.len() - i,
        {
            proof {
                assert(recs@[i as int].rdata_off + recs@[i as int].rdlen <= data@.len());
                assert(rs[i as int] == recs@[i as int]@);
                assert(rs.skip(i as int)[0] == rs[i as int]);
                assert(rs.skip(i as int).drop_first() =~= rs.skip(i + 1));
            }
            let rec = recs[i];
            proof {
                assert(rec.rdata_off + rec.rdlen <= dlen);
            }
            if rec.rdlen < 6 {
                proof {
                    assert(srv_of(data@, rs[i as int]) is None);
                    assert(srv_map(data@, rs.skip(i as int)) is None);
                }
                return Err(AresError::EBADRESP);
            }
            let priority = wire::read_u16(data, rec.rdata_off);
            let weight = wire::read_u16(data, rec.rdata_off + 2);
            let port = wire::read_u16(data, rec.rdata_off + 4);
            let host = match decode_name(data, rec.rdata_off + 6, data.len()) {
                None => {
                    proof {
                        assert(srv_of(data@, rs[i as int]) is None);
                        assert(srv_map(data@, rs.skip(i as int)) is None);
                    }
                    return Err(AresError::EBADRESP);
                },
                Some(h) => h,
            };
            let item = SrvResult { host, priority, weight, port };
            let ghost prev = out@;
            proof {
                assert(srv_of(data@, rs[i as int]) == Some(item@));
            }
            out.push(item);
            proof {
                assert(out@.map_values(|r: SrvResult| r@) =~= prev.map_values(
                    |r: SrvResult| r@,
                ).push(item@));
                match srv_map(data@, rs.skip(i + 1)) {
                    Some(rest2) => {
                        assert(prev.map_values(|r: SrvResult| r@) + (seq![item@] + rest2)
                            =~= out@.map_values(|r: SrvResult| r@) + rest2);
                    },
                    None => {},
                }
            }
            i += 1;
        }
        proof {
            assert(rs.skip(rs.len() as int) =~= Seq::<SpecRecord>::empty());
            assert(out@.map_values(|r: SrvResult| r@) + Seq::<SrvSpec>::empty()
                =~= out@.map_values(|r: SrvResult| r@));
        }
        let ghost full = out@.map_values(|r: SrvResult| r@);
        if out.len() == 0 {
            return Err(AresError::ENODATA);
        }
        if out.len() > MAX_ADDRTTLS {
            out.truncate(MAX_ADDRTTLS);
            proof {
                assert(out@.map_values(|r: SrvResult| r@) =~= full.take(MAX_ADDRTTLS as int));
            }
        }
        let res = SrvResults { records: out };
        Ok(res)
    }
}

/// The completion decision for an SRV query: a success status parses the
/// answer buffer, any other status maps to its error — the buffer goes
/// unused. This is what the native callback hands the reconstructed
/// completion handler.
pub fn query_srv_callback(status: i32, data: &[u8]) -> (r: Result<SrvResults, AresError>)
    ensures
        status == ARES_SUCCESS ==> match r {
            Ok(res) => spec_parse_srv(data@) == Ok::<Seq<SrvSpec>, AresError>(res@),
            Err(e) => spec_parse_srv(data@) == Err::<Seq<SrvSpec>, AresError>(e),
        },
        status != ARES_SUCCESS ==> r == Err::<SrvResults, AresError>(
            spec_error_of_status(status as int),
        ),
{
    if status == ARES_SUCCESS {
        SrvResults::parse_from(data)
    } else {
        Err(AresError::from_status(status))
    }
}

} // verus!
