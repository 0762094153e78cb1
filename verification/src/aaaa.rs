//! Decoding of AAAA answer buffers into a typed record set.

use vstd::prelude::*;
use crate::error::{ARES_SUCCESS, AresError};
use crate::error::spec_error_of_status;
use crate::types::{Ipv6Address, MAX_ADDRTTLS};
use crate::wire;
use crate::wire::SpecRecord;

verus! {

/// The record type code of an AAAA record.
pub const AAAA_RTYPE: u16 = 28;

/// One decoded AAAA record: sixteen address octets and a time-to-live.
pub struct AAAASpec {
    pub addr: Seq<u8>,
    pub ttl: int,
}

/// The contents of a single AAAA record.
#[derive(Clone, Copy, Debug)]
pub struct AAAAResult {
    pub address: Ipv6Address,
    pub ttl: u32,
}

impl View for AAAAResult {
    type V = AAAASpec;

    open spec fn view(&self) -> AAAASpec {
        AAAASpec { addr: self.address.octets@, ttl: self.ttl as int }
    }
}

impl AAAAResult {
    /// Returns the IPv6 address in this `AAAAResult`.
    pub fn ipv6(&self) -> (a: Ipv6Address)
        ensures
            a.octets@ == self@.addr,
    {
        self.address
    }

    /// Returns the time-to-live in this `AAAAResult`.
    pub fn ttl(&self) -> (t: u32)
        ensures
            t as int == self@.ttl,
    {
        self.ttl
    }
}

/// The result of a successful AAAA lookup.
#[derive(Clone, Debug)]
pub struct AAAAResults {
    pub records: Vec<AAAAResult>,
}

impl View for AAAAResults {
    type V = Seq<AAAASpec>;

    open spec fn view(&self) -> Seq<AAAASpec> {
        self.records@.map_values(|r: AAAAResult| r@)
    }
}

/// The decoded form of one scanned AAAA record: its sixteen address octets
/// and its time-to-live.
pub open spec fn aaaa_of(d: Seq<u8>, r: SpecRecord) -> AAAASpec {
    AAAASpec { addr: d.subrange(r.rdata_off, r.rdata_off + 16), ttl: r.ttl }
}

/// The decoded forms of a sequence of scanned AAAA records, in order.
pub open spec fn aaaa_map(d: Seq<u8>, rs: Seq<SpecRecord>) -> Seq<AAAASpec> {
    Seq::new(rs.len(), |i: int| aaaa_of(d, rs[i]))
}

/// Every AAAA record of an answer buffer, in wire order, each as its
/// sixteen address octets and its time-to-live; `None` if the buffer is
/// malformed or an AAAA record does not carry sixteen bytes of data.
pub open spec fn spec_aaaa_list(d: Seq<u8>) -> Option<Seq<AAAASpec>> {
    match wire::spec_scan(d, AAAA_RTYPE as int) {
        None => None,
        Some(rs) => {
            if wire::all_rdlen(rs, 16) {
                Some(aaaa_map(d, rs))
            } else {
                None
            }
        },
    }
}

/// What parsing an AAAA answer buffer yields: the records in wire order,
/// truncated to the fixed capacity; `EBADRESP` for a malformed buffer and
/// `ENODATA` for an answer without AAAA records.
pub open spec fn spec_parse_aaaa(d: Seq<u8>) -> Result<Seq<AAAASpec>, AresError> {
    match spec_aaaa_list(d) {
        None => Err(AresError::EBADRESP),
        Some(rs) => {
            if rs.len() == 0 {
                Err(AresError::ENODATA)
            } else if rs.len() <= MAX_ADDRTTLS as int {
                Ok(rs)
            } else {
                Ok(rs.take(MAX_ADDRTTLS as int))
            }
        },
    }
}

impl AAAAResults {
    /// Obtain an `AAAAResults` from the response to an AAAA lookup.
    pub fn parse_from(data: &[u8]) -> (r: Result<AAAAResults, AresError>)
        ensures
            match r {
                Ok(res) => spec_parse_aaaa(data@) == Ok::<Seq<AAAASpec>, AresError>(res@)
                    && 0 < res@.len() <= MAX_ADDRTTLS as int,
                Err(e) => spec_parse_aaaa(data@) == Err::<Seq<AAAASpec>, AresError>(e),
            },
    {
        let recs = match wire::scan(data, AAAA_RTYPE) {
            Err(e) => {
                return Err(e);
            },
            Ok(v) => v,
        };
        let ghost rs = wire::recs_view(recs@);
        let mut k: usize = 0;
        while k < recs.len()
            invariant
                k <= recs@.len(),
                rs == wire::recs_view(recs@),
                wire::spec_scan(data@, AAAA_RTYPE as int) == Some(rs),
                forall|j: int| 0 <= j < k ==> (#[trigger] rs[j]).rdlen == 16,
            decreases recs@.len() - k,
        {
            if recs[k].rdlen != 16 {
                proof {
                    assert(rs.len() == recs@.len());
                    assert(rs[k as int].rdlen != 16);
                    assert(!wire::all_rdlen(rs, 16));
                    assert(spec_aaaa_list(data@) is None);
                }
                return Err(AresError::EBADRESP);
            }
            proof {
                assert(rs[k as int].rdlen == 16);
            }
            k += 1;
        }
        let ghost full = spec_aaaa_list(data@).unwrap();
        proof {
            assert(wire::all_rdlen(rs, 16));
            assert(spec_aaaa_list(data@) == Some(full));
            assert(full == aaaa_map(data@, rs));
        }
        if recs.len() == 0 {
            return Err(AresError::ENODATA);
        }
        let limit = if recs.len() > MAX_ADDRTTLS {
            MAX_ADDRTTLS
        } else {
            recs.len()
        };
        let mut out: Vec<AAAAResult> = Vec::new();
        let mut i: usize = 0;
        while i < limit
            invariant
                i <= limit <= recs@.len(),
                limit == if recs@.len() > MAX_ADDRTTLS as int {
                    MAX_ADDRTTLS as int
                } else {
                    recs@.len() as int
                },
                rs == wire::recs_view(recs@),
                full.len() == recs@.len(),
                full == aaaa_map(data@, rs),
                spec_aaaa_list(data@) == Some(full),
                forall|j: int|
                    0 <= j < recs@.len() ==> (#[trigger] recs@[j]).rdata_off + recs@[j].rdlen
                        <= data@.len(),
                forall|j: int| 0 <= j < rs.len() ==> (#[trigger] rs[j]).rdlen == 16,
                out@.map_values(|r: AAAAResult| r@) == full.take(i as int),
            decreases limit - i,
    {
            let ghost prev = out@;
            proof {
                assert(recs@[i as int].rdata_off + recs@[i as int].rdlen <= data@.len());
                assert(rs[i as int].rdlen == 16);
                assert(rs[i as int] == recs@[i as int]@);
            }
            let off = recs[i].rdata_off;
            let oct: [u8; 16] = [
                data[off],
                data[off + 1],
                data[off + 2],
                data[off + 3],
                data[off + 4],
                data[off + 5],
                data[off + 6],
                data[off + 7],
                data[off + 8],
                data[off + 9],
                data[off + 10],
                data[off + 11],
                data[off + 12],
                data[off + 13],
                data[off + 14],
                data[off + 15],
            ];
            let item = AAAAResult { address: Ipv6Address { octets: oct }, ttl: recs[i].ttl };
            proof {
                assert(oct@ =~= data@.subrange(off as int, off as int + 16));
                assert(full[i as int] == aaaa_of(data@, rs[i as int]));
                assert(item@ == full[i as int]);
            }
            out.push(item);
            proof {
                assert(out@.map_values(|r: AAAAResult| r@) =~= prev.map_values(
                    |r: AAAAResult| r@,
                ).push(item@));
                assert(full.take(i as int).push(full[i as int]) =~= full.take(i + 1));
            }
            i += 1;
        }
        let res = AAAAResults { records: out };
        proof {
            if full.len() <= MAX_ADDRTTLS as int {
                assert(full.take(limit as int) =~= full);
            }
            assert(res@ == full.take(limit as int));
        }
        Ok(res)
    }

    /// Returns an iterator over the `AAAAResult` values in this `AAAAResults`.
    pub fn iter(&self) -> (it: AAAAResultsIter<'_>)
        ensures
            it.remaining() == self@,
    {
        let it = AAAAResultsIter { results: self, next: 0 };
        proof {
            assert(self@.skip(0) =~= self@);
        }
        it
    }
}

/// Iterator of `AAAAResult`s.
#[derive(Clone, Copy, Debug)]
pub struct AAAAResultsIter<'a> {
    pub results: &'a AAAAResults,
    pub next: usize,
}

impl<'a> AAAAResultsIter<'a> {
    /// The records this iterator has yet to yield, in order.
    pub open spec fn remaining(self) -> Seq<AAAASpec> {
        if self.next <= self.results@.len() {
            self.results@.skip(self.next as int)
        } else {
            Seq::empty()
        }
    }

    /// Yields the next record, or `None` once all records are out.
    pub fn next(&mut self) -> (r: Option<AAAAResult>)
        ensures
            match r {
                Some(item) => old(self).remaining().len() > 0 && item@ == old(self).remaining()[0]
                    && final(self).remaining() == old(self).remaining().drop_first(),
                None => old(self).remaining().len() == 0 && *final(self) == *old(self),
            },
    {
        if self.next < self.results.records.len() {
            let item = self.results.records[self.next];
            proof {
                let rem = old(self).remaining();
                assert(item@ == rem[0]);
                assert(self.results@.skip(self.next + 1) =~= rem.drop_first());
            }
            self.next = self.next + 1;
            Some(item)
        } else {
            None
        }
    }
}

/// The completion decision for an AAAA query: a success status parses the
/// answer buffer, any other status maps to its error. This is what the
/// native callback hands the reconstructed completion handler.
pub fn query_aaaa_callback(status: i32, data: &[u8]) -> (r: Result<AAAAResults, AresError>)
    ensures
        status == ARES_SUCCESS ==> match r {
            Ok(res) => spec_parse_aaaa(data@) == Ok::<Seq<AAAASpec>, AresError>(res@),
            Err(e) => spec_parse_aaaa(data@) == Err::<Seq<AAAASpec>, AresError>(e),
        },
        status != ARES_SUCCESS ==> r == Err::<AAAAResults, AresError>(
            spec_error_of_status(status as int),
        ),
{
    if status == ARES_SUCCESS {
        AAAAResults::parse_from(data)
    } else {
        Err(AresError::from_status(status))
    }
}

} // verus!
