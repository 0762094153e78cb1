//! Scanning of raw answer buffers.
//!
//! An answer buffer is the unmodified message the engine delivers for one
//! query: a twelve-byte header, the echoed questions, then the answer
//! records. The scanner walks that layout and hands each later decoder the
//! time-to-live and the position of the record data for every record of the
//! requested type, in wire order.

use vstd::prelude::*;
use crate::error::AresError;

verus! {

/// The big-endian sixteen-bit value at offset `i`.
pub open spec fn u16_at(d: Seq<u8>, i: int) -> int {
    d[i] * 256 + d[i + 1]
}

/// The big-endian thirty-two-bit value at offset `i`.
pub open spec fn u32_at(d: Seq<u8>, i: int) -> int {
    ((d[i] * 256 + d[i + 1]) * 256 + d[i + 2]) * 256 + d[i + 3]
}

/// The offset just past the encoded name starting at `i`, or `None` if the
/// name is malformed or runs off the buffer. A compression pointer ends the
/// name after its two bytes; a label advances past its length byte and its
/// contents; a zero byte ends the name.
pub open spec fn spec_name_end(d: Seq<u8>, i: int) -> Option<int>
    decreases d.len() - i,
{
    if i < 0 || i >= d.len() {
        None
    } else if d[i] == 0 {
        Some(i + 1)
    } else if d[i] >= 192 {
        if i + 2 <= d.len() {
            Some(i + 2)
        } else {
            None
        }
    } else if d[i] >= 64 {
        None
    } else if i + 1 + d[i] <= d.len() {
        spec_name_end(d, i + 1 + d[i])
    } else {
        None
    }
}

/// The offset just past `n` question entries starting at `i`; each entry is
/// a name followed by four bytes of type and class.
pub open spec fn spec_questions_end(d: Seq<u8>, i: int, n: nat) -> Option<int>
    decreases n,
{
    if n == 0 {
        Some(i)
    } else {
        match spec_name_end(d, i) {
            None => None,
            Some(j) => {
                if j + 4 <= d.len() {
                    spec_questions_end(d, j + 4, (n - 1) as nat)
                } else {
                    None
                }
            },
        }
    }
}

/// One answer record of the requested type: where its record data stands in
/// the buffer, how long it is, and its time-to-live.
pub struct SpecRecord {
    pub rdata_off: int,
    pub rdlen: int,
    pub ttl: int,
}

/// The records of type `qtype` in class one among the `n` answer records
/// starting at `i`, in wire order; `None` if any record is malformed or
/// runs off the buffer.
pub open spec fn spec_answers(d: Seq<u8>, i: int, n: nat, qtype: int) -> Option<Seq<SpecRecord>>
    decreases n,
{
    if n == 0 {
        Some(Seq::empty())
    } else {
        match spec_name_end(d, i) {
            None => None,
            Some(j) => {
                if j + 10 <= d.len() {
                    let rtype = u16_at(d, j);
                    let class = u16_at(d, j + 2);
                    let ttl = u32_at(d, j + 4);
                    let rdlen = u16_at(d, j + 8);
                    if j + 10 + rdlen <= d.len() {
                        match spec_answers(d, j + 10 + rdlen, (n - 1) as nat, qtype) {
                            None => None,
                            Some(rest) => {
                                if rtype == qtype && class == 1 {
                                    Some(
                                        seq![SpecRecord { rdata_off: j + 10, rdlen, ttl }] + rest,
                                    )
                                } else {
                                    Some(rest)
                                }
                            },
                        }
                    } else {
                        None
                    }
                } else {
                    None
                }
            },
        }
    }
}

/// The records of type `qtype` in a whole answer buffer: header, questions,
/// then the answer section; `None` if the buffer is malformed.
pub open spec fn spec_scan(d: Seq<u8>, qtype: int) -> Option<Seq<SpecRecord>> {
    if d.len() < 12 {
        None
    } else {
        let qd = u16_at(d, 4);
        let an = u16_at(d, 6);
        match spec_questions_end(d, 12, qd as nat) {
            None => None,
            Some(p) => spec_answers(d, p, an as nat, qtype),
        }
    }
}

/// Executable form of one scanned answer record.
#[derive(Clone, Copy, Debug)]
pub struct AnswerRecord {
    pub rdata_off: usize,
    pub rdlen: usize,
    pub ttl: u32,
}

impl View for AnswerRecord {
    type V = SpecRecord;

    open spec fn view(&self) -> SpecRecord {
        SpecRecord {
            rdata_off: self.rdata_off as int,
            rdlen: self.rdlen as int,
            ttl: self.ttl as int,
        }
    }
}

/// The scanned records a vector of executable records stands for.
pub open spec fn recs_view(v: Seq<AnswerRecord>) -> Seq<SpecRecord> {
    v.map_values(|r: AnswerRecord| r@)
}

/// Holds when every scanned record carries exactly `w` bytes of record
/// data.
pub open spec fn all_rdlen(rs: Seq<SpecRecord>, w: int) -> bool {
    forall|k: int| 0 <= k < rs.len() ==> (#[trigger] rs[k]).rdlen == w
}

/// Reads the big-endian sixteen-bit value at offset `i`.
pub(crate) fn read_u16(data: &[u8], i: usize) -> (r: u16)
    requires
        i + 2 <= data@.len(),
    ensures
        r as int == u16_at(data@, i as int),
{
    let hi = data[i];
    let lo = data[i + 1];
    (hi as u16) * 256 + (lo as u16)
}

/// Reads the big-endian thirty-two-bit value at offset `i`.
fn read_u32(data: &[u8], i: usize) -> (r: u32)
    requires
        i + 4 <= data@.len(),
    ensures
        r as int == u32_at(data@, i as int),
{
    let b0 = data[i];
    let b1 = data[i + 1];
    let b2 = data[i + 2];
    let b3 = data[i + 3];
    (((b0 as u32) * 256 + (b1 as u32)) * 256 + (b2 as u32)) * 256 + (b3 as u32)
}

/// Finds the offset just past the encoded name starting at `i`.
fn name_end(data: &[u8], i: usize) -> (r: Option<usize>)
    ensures
        match r {
            Some(j) => spec_name_end(data@, i as int) == Some(j as int) && i < j <= data@.len(),
            None => spec_name_end(data@, i as int) is None,
        },
    decreases data@.len() - i,
{
    if i >= data.len() {
        None
    } else {
        let b = data[i];
        if b == 0 {
            Some(i + 1)
        } else if b >= 192 {
            if data.len() - i >= 2 {
                Some(i + 2)
            } else {
                None
            }
        } else if b >= 64 {
            None
        } else {
            let step = (b as usize) + 1;
            if step <= data.len() - i {
                name_end(data, i + step)
            } else {
                None
            }
        }
    }
}

/// Finds the offset just past `n` question entries starting at `i`.
fn questions_end(data: &[u8], i: usize, n: u16) -> (r: Option<usize>)
    requires
        i <= data@.len(),
    ensures
        match r {
            Some(j) => spec_questions_end(data@, i as int, n as nat) == Some(j as int) && j
                <= data@.len(),
            None => spec_questions_end(data@, i as int, n as nat) is None,
        },
    decreases n,
{
    if n == 0 {
        Some(i)
    } else {
        match name_end(data, i) {
            None => None,
            Some(j) => {
                if data.len() - j >= 4 {
                    questions_end(data, j + 4, n - 1)
                } else {
                    None
                }
            },
        }
    }
}

/// Scans the `n` answer records starting at `start`, collecting those of
/// type `qtype`.
fn scan_answers(data: &[u8], start: usize, n: u16, qtype: u16) -> (r: Result<
    Vec<AnswerRecord>,
    AresError,
>)
    requires
        start <= data@.len(),
    ensures
        match r {
            Ok(v) => spec_answers(data@, start as int, n as nat, qtype as int) == Some(
                recs_view(v@),
            ) && forall|k: int|
                0 <= k < v@.len() ==> (#[trigger] v@[k]).rdata_off + v@[k].rdlen <= data@.len(),
            Err(e) => spec_answers(data@, start as int, n as nat, qtype as int) is None && e
                == AresError::EBADRESP,
        },
{
    let mut acc: Vec<AnswerRecord> = Vec::new();
    let mut pos: usize = start;
    let mut rem: u16 = n;
    loop
        invariant
            pos <= data@.len(),
            forall|k: int|
                0 <= k < acc@.len() ==> (#[trigger] acc@[k]).rdata_off + acc@[k].rdlen
                    <= data@.len(),
            match spec_answers(data@, pos as int, rem as nat, qtype as int) {
                Some(rest) => spec_answers(data@, start as int, n as nat, qtype as int) == Some(
                    recs_view(acc@) + rest,
                ),
                None => spec_answers(data@, start as int, n as nat, qtype as int) is None,
            },
        decreases rem,
    {
        if rem == 0 {
            proof {
                assert(recs_view(acc@) + Seq::<SpecRecord>::empty() =~= recs_view(acc@));
            }
            return Ok(acc);
        }
        match name_end(data, pos) {
            None => {
                return Err(AresError::EBADRESP);
            },
            Some(j) => {
                if data.len() - j < 10 {
                    return Err(AresError::EBADRESP);
                }
                let rtype = read_u16(data, j);
                let class = read_u16(data, j + 2);
                let ttl = read_u32(data, j + 4);
                let rdlen = read_u16(data, j + 8);
                if (rdlen as usize) > data.len() - (j + 10) {
                    return Err(AresError::EBADRESP);
                }
                let next = j + 10 + rdlen as usize;
                let ghost prev = acc@;
                let ghost matched = (rtype == qtype && class == 1);
                if rtype == qtype && class == 1 {
                    let rec = AnswerRecord { rdata_off: j + 10, rdlen: rdlen as usize, ttl };
                    acc.push(rec);
                    proof {
                        assert(recs_view(acc@) =~= recs_view(prev).push(rec@));
                    }
                }
                proof {
                    let cur = SpecRecord {
                        rdata_off: j + 10,
                        rdlen: rdlen as int,
                        ttl: ttl as int,
                    };
                    match spec_answers(data@, next as int, (rem - 1) as nat, qtype as int) {
                        Some(rest2) => {
                            if matched {
                                assert(recs_view(prev) + (seq![cur] + rest2) =~= recs_view(acc@)
                                    + rest2);
                            }
                        },
                        None => {},
                    }
                }
                pos = next;
                rem = rem - 1;
            },
        }
    }
}

/// Scans a whole answer buffer, collecting the records of type `qtype` in
/// wire order. A malformed buffer yields `EBADRESP`; an answer with no
/// record of the requested type yields an empty collection.
pub fn scan(data: &[u8], qtype: u16) -> (r: Result<Vec<AnswerRecord>, AresError>)
    ensures
        match r {
            Ok(v) => spec_scan(data@, qtype as int) == Some(recs_view(v@)) && forall|k: int|
                0 <= k < v@.len() ==> (#[trigger] v@[k]).rdata_off + v@[k].rdlen <= data@.len(),
            Err(e) => spec_scan(data@, qtype as int) is None && e == AresError::EBADRESP,
        },
{
    if data.len() < 12 {
        return Err(AresError::EBADRESP);
    }
    let qd = read_u16(data, 4);
    let an = read_u16(data, 6);
    match questions_end(data, 12, qd) {
        None => Err(AresError::EBADRESP),
        Some(p) => scan_answers(data, p, an, qtype),
    }
}

} // verus!
