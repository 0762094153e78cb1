//! Decoding of A answer buffers into a typed record set.

use vstd::prelude::*;
use crate::error::{ARES_SUCCESS, AresError};
use crate::error::spec_error_of_status;
use crate::types::{Ipv4Address, MAX_ADDRTTLS};
use crate::wire;
use crate::wire::SpecRecord;

verus! {

/// The record type code of an A record.
pub const A_RTYPE: u16 = 1;

/// One decoded A record: four address octets and a time-to-live.
pub struct ASpec {
    pub addr: Seq<u8>,
    pub ttl: int,
}

/// The contents of a single A record.
#[derive(Clone, Copy, Debug)]
pub struct AResult {
    pub address: Ipv4Address,
    pub ttl: u32,
}

impl View for AResult {
    type V = ASpec;

    open spec fn view(&self) -> ASpec {
        ASpec { addr: self.address.octets@, ttl: self.ttl as int }
    }
}

impl AResult {
    /// Returns the IPv4 address in this `AResult`.
    pub fn ipv4(&self) -> (a: Ipv4Address)
        ensures
            a.octets@ == self@.addr,
    {
        self.address
    }

    /// Returns the time-to-live in this `AResult`.
    pub fn ttl(&self) -> (t: u32)
        ensures
            t as int == self@.ttl,
    {
        self.ttl
    }
}

/// The result of a successful A lookup.
#[derive(Clone, Debug)]
pub struct AResults {
    pub records: Vec<AResult>,
}

impl View for AResults {
    type V = Seq<ASpec>;

    open spec fn view(&self) -> Seq<ASpec> {
        self.records@.map_values(|r: AResult| r@)
    }
}

/// The decoded form of one scanned A record: its four address octets and
/// its time-to-live.
pub open spec fn a_of(d: Seq<u8>, r: SpecRecord) -> ASpec {
    ASpec { addr: d.subrange(r.rdata_off, r.rdata_off + 4), ttl: r.ttl }
}

/// The decoded forms of a sequence of scanned A records, in order.
pub open spec fn a_map(d: Seq<u8>, rs: Seq<SpecRecord>) -> Seq<ASpec> {
    Seq::new(rs.len(), |i: int| a_of(d, rs[i]))
}

/// Every A record of an answer buffer, in wire order, each as its four
/// address octets and its time-to-live; `None` if the buffer is malformed
/// or an A record does not carry four bytes of data.
pub open spec fn spec_a_list(d: Seq<u8>) -> Option<Seq<ASpec>> {
    match wire::spec_scan(d, A_RTYPE as int) {
        None => None,
        Some(rs) => {
            if wire::all_rdlen(rs, 4) {
                Some(a_map(d, rs))
            } else {
                None
            }
        },
    }
}

/// What parsing an A answer buffer yields: the records in wire order,
/// truncated to the fixed capacity; `EBADRESP` for a malformed buffer and
/// `ENODATA` for an answer without A records.
pub open spec fn spec_parse_a(d: Seq<u8>) -> Result<Seq<ASpec>, AresError> {
    match spec_a_list(d) {
        None => Err(AresError::EBADRESP),
        Some(rs) => {
            if rs.len() == 0 {
                Err(AresError::ENODATA)
            } else if rs.len() <= MAX_ADDRTTLS as int {
                Ok(rs)
            } else {
                Ok(rs.take(MAX_ADDRTTLS as int))
            }
        },
    }
}

impl AResults {
    /// Obtain an `AResults` from the response to an A lookup.
    pub fn parse_from(data: &[u8]) -> (r: Result<AResults, AresError>)
        ensures
            match r {
                Ok(res) => spec_parse_a(data@) == Ok::<Seq<ASpec>, AresError>(res@) && 0
                    < res@.len() <= MAX_ADDRTTLS as int,
                Err(e) => spec_parse_a(data@) == Err::<Seq<ASpec>, AresError>(e),
            },
    {
        let recs = match wire::scan(data, A_RTYPE) {
            Err(e) => {
                return Err(e);
            },
            Ok(v) => v,
        };
        let ghost rs = wire::recs_view(recs@);
        let mut k: usize = 0;
        while k < recs.len()
            invariant
                k <= recs@.len(),
                rs == wire::recs_view(recs@),
                wire::spec_scan(data@, A_RTYPE as int) == Some(rs),
                forall|j: int| 0 <= j < k ==> (#[trigger] rs[j]).rdlen == 4,
            decreases recs@.len() - k,
        {
            if recs[k].rdlen != 4 {
                proof {
                    assert(rs.len() == recs@.len());
                    assert(rs[k as int].rdlen != 4);
                    assert(!wire::all_rdlen(rs, 4));
                    assert(spec_a_list(data@) is None);
                }
                return Err(AresError::EBADRESP);
            }
            proof {
                assert(rs[k as int].rdlen == 4);
            }
            k += 1;
        }
        let ghost full = spec_a_list(data@).unwrap();
        proof {
            assert(wire::all_rdlen(rs, 4));
            assert(spec_a_list(data@) == Some(full));
            assert(full == a_map(data@, rs));
        }
        if recs.len() == 0 {
            return Err(AresError::ENODATA);
        }
        let limit = if recs.len() > MAX_ADDRTTLS {
            MAX_ADDRTTLS
        } else {
            recs.len()
        };
        let mut out: Vec<AResult> = Vec::new();
        let mut i: usize = 0;
        while i < limit
            invariant
                i <= limit <= recs@.len(),
                limit == if recs@.len() > MAX_ADDRTTLS as int {
                    MAX_ADDRTTLS as int
                } else {
                    recs@.len() as int
                },
                rs == wire::recs_view(recs@),
                full.len() == recs@.len(),
                full == a_map(data@, rs),
                spec_a_list(data@) == Some(full),
                forall|j: int|
                    0 <= j < recs@.len() ==> (#[trigger] recs@[j]).rdata_off + recs@[j].rdlen
                        <= data@.len(),
                forall|j: int| 0 <= j < rs.len() ==> (#[trigger] rs[j]).rdlen == 4,
                out@.map_values(|r: AResult| r@) == full.take(i as int),
            decreases limit - i,
        {
            let ghost prev = out@;
            proof {
                assert(recs@[i as int].rdata_off + recs@[i as int].rdlen <= data@.len());
                assert(rs[i as int].rdlen == 4);
                assert(rs[i as int] == recs@[i as int]@);
            }
            let off = recs[i].rdata_off;
            let oct: [u8; 4] = [data[off], data[off + 1], data[off + 2], data[off + 3]];
            let item = AResult { address: Ipv4Address { octets: oct }, ttl: recs[i].ttl };
            proof {
                assert(oct@ =~= data@.subrange(off as int, off as int + 4));
                assert(full[i as int] == a_of(data@, rs[i as int]));
                assert(item@ == full[i as int]);
            }
            out.push(item);
            proof {
                assert(out@.map_values(|r: AResult| r@) =~= prev.map_values(
                    |r: AResult| r@,
                ).push(item@));
                assert(full.take(i as int).push(full[i as int]) =~= full.take(i + 1));
            }
            i += 1;
        }
        let res = AResults { records: out };
        proof {
            if full.len() <= MAX_ADDRTTLS as int {
                assert(full.take(limit as int) =~= full);
            }
            assert(res@ == full.take(limit as int));
        }
        Ok(res)
    }

    /// Returns an iterator over the `AResult` values in this `AResults`.
    pub fn iter(&self) -> (it: AResultsIter<'_>)
        ensures
            it.remaining() == self@,
    {
        let it = AResultsIter { results: self, next: 0 };
        proof {
            assert(self@.skip(0) =~= self@);
        }
        it
    }
}

/// Iterator of `AResult`s.
#[derive(Clone, Copy, Debug)]
pub struct AResultsIter<'a> {
    pub results: &'a AResults,
    pub next: usize,
}

impl<'a> AResultsIter<'a> {
    /// The records this iterator has yet to yield, in order.
    pub open spec fn remaining(self) -> Seq<ASpec> {
        if self.next <= self.results@.len() {
            self.results@.skip(self.next as int)
        } else {
            Seq::empty()
        }
    }

    /// Yields the next record, or `None` once all records are out.
    pub fn next(&mut self) -> (r: Option<AResult>)
        ensures
            match r {
                Some(item) => old(self).remaining().len() > 0 && item@ == old(self).remaining()[0]
                    && final(self).remaining() == old(self).remaining().drop_first(),
                None => old(self).remaining().len() == 0 && *final(self) == *old(self),
            },
    {
        if self.next < self.results.records.len() {
            let item = self.results.records[self.next];
            proof {
                let rem = old(self).remaining();
                assert(item@ == rem[0]);
                assert(self.results@.skip(self.next + 1) =~= rem.drop_first());
            }
            self.next = self.next + 1;
            Some(item)
        } else {
            None
        }
    }
}

/// The completion decision for an A query: a success status parses the
/// answer buffer, any other status maps to its error. This is what the
/// native callback hands the reconstructed completion handler.
pub fn query_a_callback(status: i32, data: &[u8]) -> (r: Result<AResults, AresError>)
    ensures
        status == ARES_SUCCESS ==> match r {
            Ok(res) => spec_parse_a(data@) == Ok::<Seq<ASpec>, AresError>(res@),
            Err(e) => spec_parse_a(data@) == Err::<Seq<ASpec>, AresError>(e),
        },
        status != ARES_SUCCESS ==> r == Err::<AResults, AresError>(
            spec_error_of_status(status as int),
        ),
{
    if status == ARES_SUCCESS {
        AResults::parse_from(data)
    } else {
        Err(AresError::from_status(status))
    }
}

} // verus!
