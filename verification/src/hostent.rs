//! Host entries and their address and alias iterators.
//!
//! A host entry is the engine's result for a whole host lookup: a name,
//! a native address-family code, and two sentinel-terminated arrays, one
//! of raw address bytes and one of alias names. The entry is held here as
//! plain values; the embedding converts the engine's native structure at
//! the callback boundary. Two ownership variants expose identical
//! read-only views: an owned entry keeps the data itself, a borrowed
//! entry is a non-owning view bounded by the callback's scope.

use vstd::prelude::*;
use vstd::std_specs::vec::vec_index;
use crate::types::{AddressFamily, IpAddress, Ipv4Address, Ipv6Address};
use crate::utils::{address_family, spec_address_family};

verus! {

/// The number of entries before the first sentinel of a
/// sentinel-terminated array; the array's whole length if no sentinel is
/// present.
pub open spec fn sentinel_index<T>(s: Seq<Option<T>>) -> int
    decreases s.len(),
{
    if s.len() == 0 {
        0
    } else if s[0] is None {
        0
    } else {
        1 + sentinel_index(s.drop_first())
    }
}

/// Every entry before the first sentinel is present, and the sentinel,
/// where one exists, is the first absent entry.
pub proof fn lemma_sentinel_index<T>(s: Seq<Option<T>>)
    ensures
        0 <= sentinel_index(s) <= s.len(),
        forall|k: int| 0 <= k < sentinel_index(s) ==> (#[trigger] s[k]) is Some,
        sentinel_index(s) < s.len() ==> s[sentinel_index(s)] is None,
    decreases s.len(),
{
    if s.len() == 0 {
    } else if s[0] is None {
    } else {
        let t = s.drop_first();
        lemma_sentinel_index(t);
        assert forall|k: int| 0 <= k < sentinel_index(s) implies (#[trigger] s[k]) is Some by {
            if k > 0 {
                assert(t[k - 1] is Some);
                assert(s[k] == t[k - 1]);
            }
        }
        if sentinel_index(s) < s.len() {
            assert(s[sentinel_index(s)] == t[sentinel_index(s) - 1]);
        }
    }
}

/// The plain data of an engine host entry.
#[derive(Debug)]
pub struct Hostent {
    /// The canonical name of the host.
    pub name: String,
    /// The native address-family code of the entries in `addr_list`.
    pub addrtype: i32,
    /// Raw address bytes, one entry per address, ended by a sentinel.
    pub addr_list: Vec<Option<Vec<u8>>>,
    /// Alias names, one entry per alias, ended by a sentinel.
    pub alias_list: Vec<Option<String>>,
}

impl Hostent {
    /// The typed family of the entry's native family code, if the code is
    /// one the engine resolves to.
    pub open spec fn spec_family(self) -> Option<AddressFamily> {
        spec_address_family(self.addrtype as int)
    }

    /// The raw bytes of each address before the sentinel, in order.
    pub open spec fn spec_addresses(self) -> Seq<Seq<u8>> {
        Seq::new(
            sentinel_index(self.addr_list@) as nat,
            |i: int| self.addr_list@[i].unwrap()@,
        )
    }

    /// Each alias before the sentinel, in order.
    pub open spec fn spec_aliases(self) -> Seq<Seq<char>> {
        Seq::new(
            sentinel_index(self.alias_list@) as nat,
            |i: int| self.alias_list@[i].unwrap()@,
        )
    }

    /// A well-formed entry carries a sentinel in both arrays, and when its
    /// family code is typed, every address entry before the sentinel holds
    /// exactly the family's width of bytes.
    pub open spec fn wf(self) -> bool {
        &&& sentinel_index(self.addr_list@) < self.addr_list@.len()
        &&& sentinel_index(self.alias_list@) < self.alias_list@.len()
        &&& match self.spec_family() {
            Some(fam) => forall|k: int|
                0 <= k < sentinel_index(self.addr_list@) ==> ((#[trigger] self.addr_list@[k])
                    matches Some(b) ==> b@.len() == fam.spec_width()),
            None => true,
        }
    }
}

/// Holds when a typed address carries exactly the raw bytes `b` decodes
/// to under family `fam`.
pub open spec fn ip_matches(a: IpAddress, fam: AddressFamily, b: Seq<u8>) -> bool {
    match fam {
        AddressFamily::INET => a is V4 && a.spec_octets() == b.subrange(0, 4),
        AddressFamily::INET6 => a is V6 && a.spec_octets() == b.subrange(0, 16),
    }
}

/// Decodes a typed address from a family and the raw bytes of one address
/// entry, reading exactly the family's width.
pub fn ip_address_from_bytes(family: AddressFamily, h_addr: &Vec<u8>) -> (a: IpAddress)
    requires
        h_addr@.len() >= family.spec_width(),
    ensures
        ip_matches(a, family, h_addr@),
{
    match family {
        AddressFamily::INET => {
            let oct: [u8; 4] = [h_addr[0], h_addr[1], h_addr[2], h_addr[3]];
            let a = IpAddress::V4(Ipv4Address { octets: oct });
            proof {
                assert(oct@ =~= h_addr@.subrange(0, 4));
            }
            a
        },
        AddressFamily::INET6 => {
            let oct: [u8; 16] = [
                h_addr[0],
                h_addr[1],
                h_addr[2],
                h_addr[3],
                h_addr[4],
                h_addr[5],
                h_addr[6],
                h_addr[7],
                h_addr[8],
                h_addr[9],
                h_addr[10],
                h_addr[11],
                h_addr[12],
                h_addr[13],
                h_addr[14],
                h_addr[15],
            ];
            let a = IpAddress::V6(Ipv6Address { octets: oct });
            proof {
                assert(oct@ =~= h_addr@.subrange(0, 16));
            }
            a
        },
    }
}

/// A capability over "has a host entry", shared by the owned and the
/// borrowed variant; both expose identical read-only views of the same
/// underlying data.
pub trait HasHostent {
    /// The entry data this value gives access to.
    spec fn hview(&self) -> Hostent;

    /// The underlying host entry.
    fn hostent(&self) -> (h: &Hostent)
        ensures
            *h == self.hview(),
    ;

    /// The hostname of this entry.
    fn hostname(&self) -> (n: &str)
        ensures
            n@ == self.hview().name@,
    ;

    /// An iterator over the entry's addresses, starting at the first.
    fn addresses(&self) -> (it: HostAddressResultsIter<'_>)
        requires
            self.hview().wf(),
        ensures
            it.wf(),
            it.family == self.hview().spec_family(),
            it.remaining() == self.hview().spec_addresses(),
    ;

    /// An iterator over the entry's aliases, starting at the first.
    fn aliases(&self) -> (it: HostAliasResultsIter<'_>)
        requires
            self.hview().wf(),
        ensures
            it.remaining() == self.hview().spec_aliases(),
    ;
}

/// A host entry whose data this value owns; releasing it releases the
/// data, exactly once, when the value is dropped.
#[derive(Debug)]
pub struct HostentOwned {
    pub inner: Hostent,
}

impl HostentOwned {
    /// Takes ownership of a host entry's data.
    pub fn new(hostent: Hostent) -> (h: HostentOwned)
        ensures
            h.hview() == hostent,
    {
        HostentOwned { inner: hostent }
    }
}

impl HasHostent for HostentOwned {
    open spec fn hview(&self) -> Hostent {
        self.inner
    }

    fn hostent(&self) -> (h: &Hostent) {
        &self.inner
    }

    fn hostname(&self) -> (n: &str) {
        self.inner.name.as_str()
    }

    fn addresses(&self) -> (it: HostAddressResultsIter<'_>) {
        make_address_iter(&self.inner)
    }

    fn aliases(&self) -> (it: HostAliasResultsIter<'_>) {
        make_alias_iter(&self.inner)
    }
}

/// A non-owning view of a host entry valid only while the borrow lasts —
/// for entry data the engine owns for the duration of one callback.
#[derive(Clone, Copy, Debug)]
pub struct HostentBorrowed<'a> {
    pub inner: &'a Hostent,
}

impl<'a> HostentBorrowed<'a> {
    /// Borrows a host entry's data.
    pub fn new(hostent: &'a Hostent) -> (h: HostentBorrowed<'a>)
        ensures
            h.hview() == *hostent,
    {
        HostentBorrowed { inner: hostent }
    }
}

impl<'a> HasHostent for HostentBorrowed<'a> {
    open spec fn hview(&self) -> Hostent {
        *self.inner
    }

    fn hostent(&self) -> (h: &Hostent) {
        self.inner
    }

    fn hostname(&self) -> (n: &str) {
        self.inner.name.as_str()
    }

    fn addresses(&self) -> (it: HostAddressResultsIter<'_>) {
        make_address_iter(self.inner)
    }

    fn aliases(&self) -> (it: HostAliasResultsIter<'_>) {
        make_alias_iter(self.inner)
    }
}

/// Ownership variant is transparent to read behaviour: an owned and a
/// borrowed entry backed by the same data agree on the hostname, the
/// family, the addresses, and the aliases their accessors expose.
pub proof fn lemma_ownership_transparent(o: HostentOwned, b: HostentBorrowed)
    requires
        o.inner == *b.inner,
    ensures
        o.hview().name@ == b.hview().name@,
        o.hview().spec_family() == b.hview().spec_family(),
        o.hview().spec_addresses() == b.hview().spec_addresses(),
        o.hview().spec_aliases() == b.hview().spec_aliases(),
{
}

/// Builds a fresh address iterator over an entry's address array.
fn make_address_iter<'a>(h: &'a Hostent) -> (it: HostAddressResultsIter<'a>)
    requires
        h.wf(),
    ensures
        it.wf(),
        it.family == h.spec_family(),
        it.remaining() == h.spec_addresses(),
{
    let it = HostAddressResultsIter {
        family: address_family(h.addrtype),
        entries: &h.addr_list,
        next: 0,
    };
    proof {
        lemma_sentinel_index(h.addr_list@);
        assert(it.remaining() =~= h.spec_addresses());
    }
    it
}

/// Builds a fresh alias iterator over an entry's alias array.
fn make_alias_iter<'a>(h: &'a Hostent) -> (it: HostAliasResultsIter<'a>)
    requires
        h.wf(),
    ensures
        it.wf(),
        it.remaining() == h.spec_aliases(),
{
    let it = HostAliasResultsIter { entries: &h.alias_list, next: 0 };
    proof {
        lemma_sentinel_index(h.alias_list@);
        assert(it.remaining() =~= h.spec_aliases());
    }
    it
}

/// Iterator of `IpAddress`es: a cursor over a sentinel-terminated array
/// of raw address entries. The sentinel is the sole termination signal;
/// entries past it are never read. A fresh iterator must be re-derived
/// from the entry to re-scan.
#[derive(Clone, Copy, Debug)]
pub struct HostAddressResultsIter<'a> {
    pub family: Option<AddressFamily>,
    pub entries: &'a Vec<Option<Vec<u8>>>,
    pub next: usize,
}

impl<'a> HostAddressResultsIter<'a> {
    /// The cursor never passes the sentinel, a sentinel exists, and every
    /// entry before it has the family's width when the family is typed.
    pub open spec fn wf(self) -> bool {
        &&& self.next <= sentinel_index(self.entries@)
        &&& sentinel_index(self.entries@) < self.entries@.len()
        &&& match self.family {
            Some(fam) => forall|k: int|
                0 <= k < sentinel_index(self.entries@) ==> ((#[trigger] self.entries@[k])
                    matches Some(b) ==> b@.len() == fam.spec_width()),
            None => true,
        }
    }

    /// The raw bytes of the entries still ahead of the cursor, up to the
    /// sentinel.
    pub open spec fn remaining(self) -> Seq<Seq<u8>> {
        let si = sentinel_index(self.entries@);
        if self.next <= si {
            Seq::new((si - self.next) as nat, |i: int| self.entries@[self.next + i].unwrap()@)
        } else {
            Seq::empty()
        }
    }

    /// Yields the address decoded from the entry under the cursor and
    /// advances, or yields `None` at the sentinel — permanently, without
    /// reading past it. An untyped family yields `None` as well.
    pub fn next(&mut self) -> (r: Option<IpAddress>)
        requires
            old(self).wf(),
        ensures
            final(self).wf(),
            final(self).entries == old(self).entries,
            final(self).family == old(self).family,
            match r {
                Some(a) => old(self).remaining().len() > 0 && old(self).family is Some
                    && ip_matches(a, old(self).family.unwrap(), old(self).remaining()[0])
                    && final(self).remaining() == old(self).remaining().drop_first(),
                None => (old(self).remaining().len() == 0 && *final(self) == *old(self)) || (old(
                    self,
                ).family is None && old(self).remaining().len() > 0 && final(self).remaining()
                    == old(self).remaining().drop_first()),
            },
    {
        proof {
            lemma_sentinel_index(self.entries@);
        }
        let ghost pre = *self;
        let entries = self.entries;
        let idx = self.next;
        let n = entries.len();
        match vec_index(entries, idx) {
            None => None,
            Some(b) => {
                proof {
                    assert(idx < sentinel_index(entries@));
                    assert(idx < n);
                    assert(pre.remaining()[0] == entries@[idx as int].unwrap()@);
                }
                let fam_opt = self.family;
                match fam_opt {
                    None => {
                        self.next = idx + 1;
                        proof {
                            assert(self.remaining() =~= pre.remaining().drop_first());
                        }
                        None
                    },
                    Some(fam) => {
                        let a = ip_address_from_bytes(fam, b);
                        self.next = idx + 1;
                        proof {
                            assert(self.remaining() =~= pre.remaining().drop_first());
                        }
                        Some(a)
                    },
                }
            },
        }
    }

    /// Collects every remaining address in order. Iteration is finite: it
    /// ends at the sentinel and reads nothing past it; an untyped family
    /// yields nothing.
    pub fn to_vec(self) -> (out: Vec<IpAddress>)
        requires
            self.wf(),
        ensures
            self.family matches Some(fam) ==> out@.len() == self.remaining().len() && forall|
                k: int,
            |
                0 <= k < out@.len() ==> ip_matches(#[trigger] out@[k], fam, self.remaining()[k]),
            self.family is None ==> out@.len() == 0,
    {
        let mut it = self;
        let mut out: Vec<IpAddress> = Vec::new();
        loop
            invariant
                it.wf(),
                it.family == self.family,
                it.entries == self.entries,
                self.wf(),
                out@.len() + it.remaining().len() == self.remaining().len(),
                it.remaining() == self.remaining().skip(out@.len() as int),
                self.family is None ==> out@.len() == 0,
                self.family matches Some(fam) ==> forall|k: int|
                    0 <= k < out@.len() ==> ip_matches(
                        #[trigger] out@[k],
                        fam,
                        self.remaining()[k],
                    ),
            decreases it.remaining().len(),
        {
            let ghost done = out@.len() as int;
            match it.next() {
                None => {
                    return out;
                },
                Some(a) => {
                    proof {
                        assert(it.remaining() =~= self.remaining().skip(done + 1));
                        assert(self.remaining().skip(done)[0] == self.remaining()[done]);
                    }
                    out.push(a);
                },
            }
        }
    }
}

/// Iterator of alias names: a cursor over a sentinel-terminated array of
/// alias entries. The sentinel is the sole termination signal; entries
/// past it are never read.
#[derive(Clone, Copy, Debug)]
pub struct HostAliasResultsIter<'a> {
    pub entries: &'a Vec<Option<String>>,
    pub next: usize,
}

impl<'a> HostAliasResultsIter<'a> {
    /// The cursor never passes the sentinel, and a sentinel exists.
    pub open spec fn wf(self) -> bool {
        &&& self.next <= sentinel_index(self.entries@)
        &&& sentinel_index(self.entries@) < self.entries@.len()
    }

    /// The aliases still ahead of the cursor, up to the sentinel.
    pub open spec fn remaining(self) -> Seq<Seq<char>> {
        let si = sentinel_index(self.entries@);
        if self.next <= si {
            Seq::new((si - self.next) as nat, |i: int| self.entries@[self.next + i].unwrap()@)
        } else {
            Seq::empty()
        }
    }

    /// Yields the alias under the cursor and advances, or yields `None`
    /// at the sentinel — permanently, without reading past it.
    pub fn next(&mut self) -> (r: Option<&'a str>)
        requires
            old(self).wf(),
        ensures
            final(self).wf(),
            final(self).entries == old(self).entries,
            match r {
                Some(s) => old(self).remaining().len() > 0 && s@ == old(self).remaining()[0]
                    && final(self).remaining() == old(self).remaining().drop_first(),
                None => old(self).remaining().len() == 0 && *final(self) == *old(self),
            },
    {
        proof {
            lemma_sentinel_index(self.entries@);
        }
        let ghost pre = *self;
        let entries = self.entries;
        let idx = self.next;
        let n = entries.len();
        match vec_index(entries, idx) {
            None => None,
            Some(s) => {
                proof {
                    assert(idx < sentinel_index(entries@));
                    assert(idx < n);
                    assert(pre.remaining()[0] == entries@[idx as int].unwrap()@);
                }
                self.next = idx + 1;
                proof {
                    assert(self.remaining() =~= pre.remaining().drop_first());
                }
                Some(s.as_str())
            },
        }
    }

    /// Collects every remaining alias in order. Iteration is finite: it
    /// ends at the sentinel and reads nothing past it.
    pub fn to_vec(self) -> (out: Vec<&'a str>)
        requires
            self.wf(),
        ensures
            out@.len() == self.remaining().len(),
            forall|k: int| 0 <= k < out@.len() ==> (#[trigger] out@[k])@ == self.remaining()[k],
    {
        let mut it = self;
        let mut out: Vec<&'a str> = Vec::new();
        loop
            invariant
                it.wf(),
                it.entries == self.entries,
                self.wf(),
                out@.len() + it.remaining().len() == self.remaining().len(),
                it.remaining() == self.remaining().skip(out@.len() as int),
                forall|k: int| 0 <= k < out@.len() ==> (#[trigger] out@[k])@
                    == self.remaining()[k],
            decreases it.remaining().len(),
        {
            let ghost done = out@.len() as int;
            match it.next() {
                None => {
                    return out;
                },
                Some(s) => {
                    proof {
                        assert(it.remaining() =~= self.remaining().skip(done + 1));
                        assert(self.remaining().skip(done)[0] == self.remaining()[done]);
                    }
                    out.push(s);
                },
            }
        }
    }
}

} // verus!
