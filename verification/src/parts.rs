//! The four wallet parts and their codecs.
//!
//! Each part has one canonical byte form; the decoder accepts exactly the
//! canonical forms, so decoding is a two-sided inverse of encoding. The
//! descriptor and data parts use the key/value format (`name = value`), the
//! cache and layer-2 parts the colon format (`name: value`). Numbers are
//! written as fixed sixteen-digit hexadecimal (see [`crate::hexnum`]), a
//! descriptor as one raw line, which is why a well-formed descriptor may
//! not hold a line break.

use crate::bytes::bytes_eq;
use crate::bytes::extend_from;
use crate::bytes::no_newline;
use crate::bytes::starts_with;
use crate::hexnum::encode_hex16;
use crate::hexnum::hex16;
use crate::hexnum::lemma_hex_enc_injective;
use crate::hexnum::lemma_hex_enc_len;
use crate::hexnum::lemma_pow16_16;
use crate::hexnum::parse_hex16;
use vstd::prelude::*;
use vstd::slice::slice_subrange;

verus! {

/// The descriptor part: how keys are derived and interpreted. Opaque,
/// immutable-by-convention configuration text.
#[derive(Debug)]
pub struct DescrPart {
    pub descr: Vec<u8>,
}

impl View for DescrPart {
    type V = Seq<u8>;

    open spec fn view(&self) -> Seq<u8> {
        self.descr@
    }
}

/// The data part: mutable domain state.
#[derive(Debug, Clone, Copy, PartialEq, Eq, Structural)]
pub struct DataPart {
    pub count: u64,
}

impl View for DataPart {
    type V = u64;

    open spec fn view(&self) -> u64 {
        self.count
    }
}

/// The cache part: derived state, safe to regenerate if lost.
#[derive(Debug, Clone, Copy, PartialEq, Eq, Structural)]
pub struct CachePart {
    pub balance: u64,
}

impl View for CachePart {
    type V = u64;

    open spec fn view(&self) -> u64 {
        self.balance
    }
}

/// A well-formed descriptor holds no line break: its canonical form is a
/// single `descr = ...` line.
pub open spec fn wf_descr(d: Seq<u8>) -> bool {
    forall|j: int| 0 <= j < d.len() ==> d[j] != 10u8
}

/// `descr = ` — the key of the descriptor line (key/value format).
pub open spec fn key_descr() -> Seq<u8> {
    seq![100u8, 101u8, 115u8, 99u8, 114u8, 32u8, 61u8, 32u8]
}

/// `count = 0x` — the key of the data line (key/value format).
pub open spec fn key_data() -> Seq<u8> {
    seq![99u8, 111u8, 117u8, 110u8, 116u8, 32u8, 61u8, 32u8, 48u8, 120u8]
}

/// `balance: 0x` — the key of the cache line (colon format).
pub open spec fn key_cache() -> Seq<u8> {
    seq![98u8, 97u8, 108u8, 97u8, 110u8, 99u8, 101u8, 58u8, 32u8, 48u8, 120u8]
}

/// The canonical form of a descriptor: `descr = {text}\n`.
pub open spec fn enc_descr(d: Seq<u8>) -> Seq<u8> {
    key_descr() + d + seq![10u8]
}

/// The canonical form of the data part: `count = 0x{16 hex}\n`.
pub open spec fn enc_data(count: u64) -> Seq<u8> {
    key_data() + hex16(count) + seq![10u8]
}

/// The canonical form of the cache part: `balance: 0x{16 hex}\n`.
pub open spec fn enc_cache(balance: u64) -> Seq<u8> {
    key_cache() + hex16(balance) + seq![10u8]
}

/// The descriptor, if any, whose canonical form is `b`.
pub open spec fn dec_descr(b: Seq<u8>) -> Option<Seq<u8>> {
    if exists|d: Seq<u8>| wf_descr(d) && enc_descr(d) == b {
        Some(choose|d: Seq<u8>| wf_descr(d) && enc_descr(d) == b)
    } else {
        None
    }
}

/// The count, if any, whose canonical form is `b`.
pub open spec fn dec_data(b: Seq<u8>) -> Option<u64> {
    if exists|c: u64| enc_data(c) == b {
        Some(choose|c: u64| enc_data(c) == b)
    } else {
        None
    }
}

/// The balance, if any, whose canonical form is `b`.
pub open spec fn dec_cache(b: Seq<u8>) -> Option<u64> {
    if exists|c: u64| enc_cache(c) == b {
        Some(choose|c: u64| enc_cache(c) == b)
    } else {
        None
    }
}

/// Decoding inverts encoding on every well-formed descriptor.
pub proof fn lemma_dec_enc_descr(d: Seq<u8>)
    requires
        wf_descr(d),
    ensures
        dec_descr(enc_descr(d)) == Some(d),
{
    let b = enc_descr(d);
    assert(wf_descr(d) && enc_descr(d) == b);
    let d2 = choose|x: Seq<u8>| wf_descr(x) && enc_descr(x) == b;
    assert(wf_descr(d2) && enc_descr(d2) == b);
    assert(d2 =~= d) by {
        assert(enc_descr(d2) == enc_descr(d));
        assert(enc_descr(d2).len() == 9 + d2.len());
        assert(enc_descr(d).len() == 9 + d.len());
        assert(d2.len() == d.len());
        assert forall|j: int| 0 <= j < d.len() implies d2[j] == d[j] by {
            assert(enc_descr(d2)[8 + j] == d2[j]);
            assert(enc_descr(d)[8 + j] == d[j]);
        }
    }
}

/// Decoding inverts encoding on every count.
pub proof fn lemma_dec_enc_data(c: u64)
    ensures
        dec_data(enc_data(c)) == Some(c),
{
    let b = enc_data(c);
    assert(enc_data(c) == b);
    let c2 = choose|x: u64| enc_data(x) == b;
    assert(enc_data(c2) == b);
    assert(c2 == c) by {
        lemma_hex_enc_len(c as nat, 16);
        lemma_hex_enc_len(c2 as nat, 16);
        assert(hex16(c2) =~= hex16(c)) by {
            assert forall|j: int| 0 <= j < 16 implies hex16(c2)[j] == hex16(c)[j] by {
                assert(enc_data(c2)[10 + j] == hex16(c2)[j]);
                assert(enc_data(c)[10 + j] == hex16(c)[j]);
            }
        }
        lemma_pow16_16();
        lemma_hex_enc_injective(c as nat, c2 as nat, 16);
    }
}

/// Decoding inverts encoding on every balance.
pub proof fn lemma_dec_enc_cache(c: u64)
    ensures
        dec_cache(enc_cache(c)) == Some(c),
{
    let b = enc_cache(c);
    assert(enc_cache(c) == b);
    let c2 = choose|x: u64| enc_cache(x) == b;
    assert(enc_cache(c2) == b);
    assert(c2 == c) by {
        lemma_hex_enc_len(c as nat, 16);
        lemma_hex_enc_len(c2 as nat, 16);
        assert(hex16(c2) =~= hex16(c)) by {
            assert forall|j: int| 0 <= j < 16 implies hex16(c2)[j] == hex16(c)[j] by {
                assert(enc_cache(c2)[11 + j] == hex16(c2)[j]);
                assert(enc_cache(c)[11 + j] == hex16(c)[j]);
            }
        }
        lemma_pow16_16();
        lemma_hex_enc_injective(c as nat, c2 as nat, 16);
    }
}

fn key_descr_bytes() -> (r: Vec<u8>)
    ensures
        r@ == key_descr(),
{
    let mut r: Vec<u8> = Vec::new();
    r.push(100);
    r.push(101);
    r.push(115);
    r.push(99);
    r.push(114);
    r.push(32);
    r.push(61);
    r.push(32);
    assert(r@ =~= key_descr());
    r
}

fn key_data_bytes() -> (r: Vec<u8>)
    ensures
        r@ == key_data(),
{
    let mut r: Vec<u8> = Vec::new();
    r.push(99);
    r.push(111);
    r.push(117);
    r.push(110);
    r.push(116);
    r.push(32);
    r.push(61);
    r.push(32);
    r.push(48);
    r.push(120);
    assert(r@ =~= key_data());
    r
}

fn key_cache_bytes() -> (r: Vec<u8>)
    ensures
        r@ == key_cache(),
{
    let mut r: Vec<u8> = Vec::new();
    r.push(98);
    r.push(97);
    r.push(108);
    r.push(97);
    r.push(110);
    r.push(99);
    r.push(101);
    r.push(58);
    r.push(32);
    r.push(48);
    r.push(120);
    assert(r@ =~= key_cache());
    r
}

impl DescrPart {
    /// A descriptor from its configuration text; rejects text that cannot
    /// be stored on one line.
    pub fn with_text(descr: Vec<u8>) -> (r: Option<DescrPart>)
        ensures
            wf_descr(descr@) ==> (r matches Some(v) && v@ == descr@),
            !wf_descr(descr@) ==> r is None,
    {
        if no_newline(descr.as_slice()) {
            Some(DescrPart { descr })
        } else {
            None
        }
    }

    /// The canonical byte form, or `None` for an ill-formed descriptor.
    pub fn to_bytes(&self) -> (r: Option<Vec<u8>>)
        ensures
            wf_descr(self@) ==> (r matches Some(bts) && bts@ == enc_descr(self@)),
            !wf_descr(self@) ==> r is None,
    {
        if !no_newline(self.descr.as_slice()) {
            return None;
        }
        let mut out = key_descr_bytes();
        extend_from(&mut out, self.descr.as_slice());
        out.push(10);
        assert(out@ =~= enc_descr(self@));
        Some(out)
    }

    /// Decodes the canonical form: `Some` exactly on encodings of
    /// well-formed descriptors.
    pub fn from_bytes(b: &[u8]) -> (r: Option<DescrPart>)
        ensures
            (r is None) == (dec_descr(b@) is None),
            r matches Some(v) ==> dec_descr(b@) == Some(v@),
    {
        let n = b.len();
        let key = key_descr_bytes();
        if n < 9 {
            proof {
                assert forall|d: Seq<u8>| !(wf_descr(d) && enc_descr(d) == b@) by {
                    assert(enc_descr(d).len() == 9 + d.len());
                }
            }
            return None;
        }
        if !starts_with(b, key.as_slice()) {
            proof {
                assert forall|d: Seq<u8>| !(wf_descr(d) && enc_descr(d) == b@) by {
                    if enc_descr(d) == b@ {
                        assert(b@.subrange(0, 8) =~= key_descr()) by {
                            assert forall|j: int| 0 <= j < 8 implies b@.subrange(0, 8)[j]
                                == key_descr()[j] by {
                                assert(enc_descr(d)[j] == key_descr()[j]);
                            }
                        }
                    }
                }
            }
            return None;
        }
        if b[n - 1] != 10 {
            proof {
                assert forall|d: Seq<u8>| !(wf_descr(d) && enc_descr(d) == b@) by {
                    if enc_descr(d) == b@ {
                        assert(enc_descr(d)[n - 1] == 10u8);
                    }
                }
            }
            return None;
        }
        let payload = slice_subrange(b, 8, n - 1);
        if !no_newline(payload) {
            proof {
                assert forall|d: Seq<u8>| !(wf_descr(d) && enc_descr(d) == b@) by {
                    if enc_descr(d) == b@ {
                        assert(d =~= b@.subrange(8, n - 1)) by {
                            assert(enc_descr(d).len() == 9 + d.len());
                            assert forall|j: int| 0 <= j < d.len() implies d[j] == b@.subrange(
                                8,
                                n - 1,
                            )[j] by {
                                assert(enc_descr(d)[8 + j] == d[j]);
                            }
                        }
                    }
                }
            }
            return None;
        }
        let mut descr: Vec<u8> = Vec::new();
        extend_from(&mut descr, payload);
        let v = DescrPart { descr };
        proof {
            assert(enc_descr(v@) =~= b@) by {
                assert(v@ == b@.subrange(8, n - 1));
                assert(b@.subrange(0, 8) == key_descr());
                assert forall|j: int| 0 <= j < n implies enc_descr(v@)[j] == b@[j] by {
                    if j < 8 {
                        assert(b@.subrange(0, 8)[j] == b@[j]);
                        assert(enc_descr(v@)[j] == key_descr()[j]);
                    } else if j < n - 1 {
                        assert(enc_descr(v@)[j] == v@[j - 8]);
                        assert(b@.subrange(8, n - 1)[j - 8] == b@[j]);
                    } else {
                        assert(enc_descr(v@)[j] == 10u8);
                    }
                }
                assert(enc_descr(v@).len() == n);
            }
            lemma_dec_enc_descr(v@);
        }
        Some(v)
    }
}

impl DataPart {
    /// The canonical byte form: `count = 0x{16 hex}\n`.
    pub fn to_bytes(&self) -> (r: Option<Vec<u8>>)
        ensures
            r matches Some(bts) && bts@ == enc_data(self@),
    {
        let mut out = key_data_bytes();
        let h = encode_hex16(self.count);
        extend_from(&mut out, h.as_slice());
        out.push(10);
        assert(out@ =~= enc_data(self@));
        Some(out)
    }

    /// Decodes the canonical form: `Some` exactly on encodings.
    pub fn from_bytes(b: &[u8]) -> (r: Option<DataPart>)
        ensures
            (r is None) == (dec_data(b@) is None),
            r matches Some(v) ==> dec_data(b@) == Some(v@),
    {
        let n = b.len();
        proof {
            assert forall|c: u64| #[trigger] enc_data(c).len() == 27 by {
                lemma_hex_enc_len(c as nat, 16);
            }
        }
        if n != 27 {
            return None;
        }
        let key = key_data_bytes();
        if !starts_with(b, key.as_slice()) {
            proof {
                assert forall|c: u64| enc_data(c) != b@ by {
                    if enc_data(c) == b@ {
                        assert(b@.subrange(0, 10) =~= key_data()) by {
                            assert forall|j: int| 0 <= j < 10 implies b@.subrange(0, 10)[j]
                                == key_data()[j] by {
                                assert(enc_data(c)[j] == key_data()[j]);
                            }
                        }
                    }
                }
            }
            return None;
        }
        if b[26] != 10 {
            proof {
                assert forall|c: u64| enc_data(c) != b@ by {
                    if enc_data(c) == b@ {
                        lemma_hex_enc_len(c as nat, 16);
                        assert(enc_data(c)[26] == 10u8);
                    }
                }
            }
            return None;
        }
        let parsed = parse_hex16(b, 10);
        proof {
            assert forall|c: u64| enc_data(c) == b@ implies hex16(c) == b@.subrange(10, 26) by {
                lemma_hex_enc_len(c as nat, 16);
                assert(hex16(c) =~= b@.subrange(10, 26)) by {
                    assert forall|j: int| 0 <= j < 16 implies hex16(c)[j] == b@.subrange(10, 26)[j] by {
                        assert(enc_data(c)[10 + j] == hex16(c)[j]);
                    }
                }
            }
        }
        match parsed {
            None => None,
            Some(c) => {
                let v = DataPart { count: c };
                proof {
                    lemma_hex_enc_len(c as nat, 16);
                    assert(enc_data(c) =~= b@) by {
                        assert(b@.subrange(0, 10) == key_data());
                        assert(b@.subrange(10, 26) == hex16(c));
                        assert forall|j: int| 0 <= j < 27 implies enc_data(c)[j] == b@[j] by {
                            if j < 10 {
                                assert(b@.subrange(0, 10)[j] == b@[j]);
                                assert(enc_data(c)[j] == key_data()[j]);
                            } else if j < 26 {
                                assert(enc_data(c)[j] == hex16(c)[j - 10]);
                                assert(b@.subrange(10, 26)[j - 10] == b@[j]);
                            } else {
                                assert(enc_data(c)[j] == 10u8);
                            }
                        }
                    }
                    lemma_dec_enc_data(c);
                }
                Some(v)
            },
        }
    }
}

impl CachePart {
    /// The canonical byte form: `balance: 0x{16 hex}\n`.
    pub fn to_bytes(&self) -> (r: Option<Vec<u8>>)
        ensures
            r matches Some(bts) && bts@ == enc_cache(self@),
    {
        let mut out = key_cache_bytes();
        let h = encode_hex16(self.balance);
        extend_from(&mut out, h.as_slice());
        out.push(10);
        assert(out@ =~= enc_cache(self@));
        Some(out)
    }

    /// Decodes the canonical form: `Some` exactly on encodings.
    pub fn from_bytes(b: &[u8]) -> (r: Option<CachePart>)
        ensures
            (r is None) == (dec_cache(b@) is None),
            r matches Some(v) ==> dec_cache(b@) == Some(v@),
    {
        let n = b.len();
        proof {
            assert forall|c: u64| #[trigger] enc_cache(c).len() == 28 by {
                lemma_hex_enc_len(c as nat, 16);
            }
        }
        if n != 28 {
            return None;
        }
        let key = key_cache_bytes();
        if !starts_with(b, key.as_slice()) {
            proof {
                assert forall|c: u64| enc_cache(c) != b@ by {
                    if enc_cache(c) == b@ {
                        assert(b@.subrange(0, 11) =~= key_cache()) by {
                            assert forall|j: int| 0 <= j < 11 implies b@.subrange(0, 11)[j]
                                == key_cache()[j] by {
                                assert(enc_cache(c)[j] == key_cache()[j]);
                            }
                        }
                    }
                }
            }
            return None;
        }
        if b[27] != 10 {
            proof {
                assert forall|c: u64| enc_cache(c) != b@ by {
                    if enc_cache(c) == b@ {
                        lemma_hex_enc_len(c as nat, 16);
                        assert(enc_cache(c)[27] == 10u8);
                    }
                }
            }
            return None;
        }
        let parsed = parse_hex16(b, 11);
        proof {
            assert forall|c: u64| enc_cache(c) == b@ implies hex16(c) == b@.subrange(11, 27) by {
                lemma_hex_enc_len(c as nat, 16);
                assert(hex16(c) =~= b@.subrange(11, 27)) by {
                    assert forall|j: int| 0 <= j < 16 implies hex16(c)[j] == b@.subrange(11, 27)[j] by {
                        assert(enc_cache(c)[11 + j] == hex16(c)[j]);
                    }
                }
            }
        }
        match parsed {
            None => None,
            Some(c) => {
                let v = CachePart { balance: c };
                proof {
                    lemma_hex_enc_len(c as nat, 16);
                    assert(enc_cache(c) =~= b@) by {
                        assert(b@.subrange(0, 11) == key_cache());
                        assert(b@.subrange(11, 27) == hex16(c));
                        assert forall|j: int| 0 <= j < 28 implies enc_cache(c)[j] == b@[j] by {
                            if j < 11 {
                                assert(b@.subrange(0, 11)[j] == b@[j]);
                                assert(enc_cache(c)[j] == key_cache()[j]);
                            } else if j < 27 {
                                assert(enc_cache(c)[j] == hex16(c)[j - 11]);
                                assert(b@.subrange(11, 27)[j - 11] == b@[j]);
                            } else {
                                assert(enc_cache(c)[j] == 10u8);
                            }
                        }
                    }
                    lemma_dec_enc_cache(c);
                }
                Some(v)
            },
        }
    }
}


/// The optional layer-2 extension part: either absent, or a bundle of the
/// extension's own descriptor, data and cache sub-parts.
#[derive(Debug)]
pub enum Layer2Part {
    NoLayer2,
    Layer2 { descr: DescrPart, data: DataPart, cache: CachePart },
}

/// The mathematical value of a layer-2 extension part.
pub enum Layer2V {
    Absent,
    Present { descr: Seq<u8>, count: u64, balance: u64 },
}

impl View for Layer2Part {
    type V = Layer2V;

    open spec fn view(&self) -> Layer2V {
        match self {
            Layer2Part::NoLayer2 => Layer2V::Absent,
            Layer2Part::Layer2 { descr, data, cache } => Layer2V::Present {
                descr: descr@,
                count: data@,
                balance: cache@,
            },
        }
    }
}

/// A present extension is well formed when its bundled descriptor is.
pub open spec fn wf_layer2(l: Layer2V) -> bool {
    match l {
        Layer2V::Absent => true,
        Layer2V::Present { descr, count, balance } => wf_descr(descr),
    }
}

/// `layer2: none\n` — the whole form of an absent extension (colon format).
pub open spec fn l2_none() -> Seq<u8> {
    seq![108u8, 97u8, 121u8, 101u8, 114u8, 50u8, 58u8, 32u8, 110u8, 111u8, 110u8, 101u8, 10u8]
}

/// `layer2: some\n` — the first line of a present extension (colon format).
pub open spec fn l2_some() -> Seq<u8> {
    seq![108u8, 97u8, 121u8, 101u8, 114u8, 50u8, 58u8, 32u8, 115u8, 111u8, 109u8, 101u8, 10u8]
}

/// The canonical form of the extension part: the marker line alone, or the
/// marker line followed by the bundled sub-parts in their own canonical
/// forms.
pub open spec fn enc_layer2(l: Layer2V) -> Seq<u8> {
    match l {
        Layer2V::Absent => l2_none(),
        Layer2V::Present { descr, count, balance } => l2_some() + enc_descr(descr) + enc_data(count)
            + enc_cache(balance),
    }
}

/// The extension value, if any, whose canonical form is `b`.
pub open spec fn dec_layer2(b: Seq<u8>) -> Option<Layer2V> {
    if exists|l: Layer2V| wf_layer2(l) && enc_layer2(l) == b {
        Some(choose|l: Layer2V| wf_layer2(l) && enc_layer2(l) == b)
    } else {
        None
    }
}

/// Where each piece of a present extension's form lies.
pub proof fn lemma_enc_layer2_segments(d: Seq<u8>, c: u64, bl: u64)
    ensures
        ({
            let e = enc_layer2(Layer2V::Present { descr: d, count: c, balance: bl });
            e.len() == 77 + d.len() && e.subrange(0, 13) == l2_some() && e.subrange(
                13,
                e.len() - 55,
            ) == enc_descr(d) && e.subrange(e.len() - 55, e.len() - 28) == enc_data(c)
                && e.subrange(e.len() - 28, e.len() as int) == enc_cache(bl)
        }),
{
    lemma_hex_enc_len(c as nat, 16);
    lemma_hex_enc_len(bl as nat, 16);
    let e = enc_layer2(Layer2V::Present { descr: d, count: c, balance: bl });
    assert(enc_descr(d).len() == 9 + d.len());
    assert(enc_data(c).len() == 27);
    assert(enc_cache(bl).len() == 28);
    assert(e.len() == 77 + d.len());
    assert(e.subrange(0, 13) =~= l2_some()) by {
        assert forall|j: int| 0 <= j < 13 implies e.subrange(0, 13)[j] == l2_some()[j] by {
            assert(e[j] == l2_some()[j]);
        }
    }
    assert(e.subrange(13, e.len() - 55) =~= enc_descr(d)) by {
        assert forall|j: int| 0 <= j < 9 + d.len() implies e.subrange(13, e.len() - 55)[j]
            == enc_descr(d)[j] by {
            assert(e[13 + j] == enc_descr(d)[j]);
        }
    }
    assert(e.subrange(e.len() - 55, e.len() - 28) =~= enc_data(c)) by {
        assert forall|j: int| 0 <= j < 27 implies e.subrange(e.len() - 55, e.len() - 28)[j]
            == enc_data(c)[j] by {
            assert(e[e.len() - 55 + j] == enc_data(c)[j]);
        }
    }
    assert(e.subrange(e.len() - 28, e.len() as int) =~= enc_cache(bl)) by {
        assert forall|j: int| 0 <= j < 28 implies e.subrange(e.len() - 28, e.len() as int)[j]
            == enc_cache(bl)[j] by {
            assert(e[e.len() - 28 + j] == enc_cache(bl)[j]);
        }
    }
}

/// Decoding inverts encoding on every well-formed extension value.
pub proof fn lemma_dec_enc_layer2(l: Layer2V)
    requires
        wf_layer2(l),
    ensures
        dec_layer2(enc_layer2(l)) == Some(l),
{
    let b = enc_layer2(l);
    assert(wf_layer2(l) && enc_layer2(l) == b);
    let l2 = choose|x: Layer2V| wf_layer2(x) && enc_layer2(x) == b;
    assert(wf_layer2(l2) && enc_layer2(l2) == b);
    match l {
        Layer2V::Absent => {
            match l2 {
                Layer2V::Absent => {},
                Layer2V::Present { descr, count, balance } => {
                    lemma_enc_layer2_segments(descr, count, balance);
                    assert(enc_layer2(l2).len() >= 77);
                    assert(b.len() == 13);
                },
            }
        },
        Layer2V::Present { descr: d1, count: c1, balance: bl1 } => {
            lemma_enc_layer2_segments(d1, c1, bl1);
            match l2 {
                Layer2V::Absent => {
                    assert(b.len() >= 77);
                    assert(enc_layer2(l2).len() == 13);
                },
                Layer2V::Present { descr: d2, count: c2, balance: bl2 } => {
                    lemma_enc_layer2_segments(d2, c2, bl2);
                    assert(d1.len() == d2.len());
                    assert(enc_descr(d1) == enc_descr(d2));
                    assert(d1 =~= d2) by {
                        assert forall|j: int| 0 <= j < d1.len() implies d1[j] == d2[j] by {
                            assert(enc_descr(d1)[8 + j] == d1[j]);
                            assert(enc_descr(d2)[8 + j] == d2[j]);
                        }
                    }
                    assert(enc_data(c1) == enc_data(c2));
                    lemma_dec_enc_data(c1);
                    lemma_dec_enc_data(c2);
                    assert(c1 == c2) by {
                        assert(dec_data(enc_data(c1)) == Some(c1));
                        assert(dec_data(enc_data(c2)) == Some(c2));
                    }
                    assert(enc_cache(bl1) == enc_cache(bl2));
                    lemma_dec_enc_cache(bl1);
                    lemma_dec_enc_cache(bl2);
                    assert(bl1 == bl2) by {
                        assert(dec_cache(enc_cache(bl1)) == Some(bl1));
                        assert(dec_cache(enc_cache(bl2)) == Some(bl2));
                    }
                },
            }
        },
    }
}

/// What a successful descriptor decode says of its input.
pub proof fn lemma_dec_descr_inv(b: Seq<u8>)
    requires
        dec_descr(b) is Some,
    ensures
        wf_descr(dec_descr(b).unwrap()),
        enc_descr(dec_descr(b).unwrap()) == b,
{
    let m = choose|d: Seq<u8>| wf_descr(d) && enc_descr(d) == b;
    assert(wf_descr(m) && enc_descr(m) == b);
}

/// What a successful data decode says of its input.
pub proof fn lemma_dec_data_inv(b: Seq<u8>)
    requires
        dec_data(b) is Some,
    ensures
        enc_data(dec_data(b).unwrap()) == b,
{
    let m = choose|c: u64| enc_data(c) == b;
    assert(enc_data(m) == b);
}

/// What a successful cache decode says of its input.
pub proof fn lemma_dec_cache_inv(b: Seq<u8>)
    requires
        dec_cache(b) is Some,
    ensures
        enc_cache(dec_cache(b).unwrap()) == b,
{
    let m = choose|c: u64| enc_cache(c) == b;
    assert(enc_cache(m) == b);
}

fn l2_none_bytes() -> (r: Vec<u8>)
    ensures
        r@ == l2_none(),
{
    let mut r: Vec<u8> = Vec::new();
    r.push(108);
    r.push(97);
    r.push(121);
    r.push(101);
    r.push(114);
    r.push(50);
    r.push(58);
    r.push(32);
    r.push(110);
    r.push(111);
    r.push(110);
    r.push(101);
    r.push(10);
    assert(r@ =~= l2_none());
    r
}

fn l2_some_bytes() -> (r: Vec<u8>)
    ensures
        r@ == l2_some(),
{
    let mut r: Vec<u8> = Vec::new();
    r.push(108);
    r.push(97);
    r.push(121);
    r.push(101);
    r.push(114);
    r.push(50);
    r.push(58);
    r.push(32);
    r.push(115);
    r.push(111);
    r.push(109);
    r.push(101);
    r.push(10);
    assert(r@ =~= l2_some());
    r
}

impl Layer2Part {
    /// The canonical byte form, or `None` when the bundled descriptor is
    /// ill-formed.
    pub fn to_bytes(&self) -> (r: Option<Vec<u8>>)
        ensures
            wf_layer2(self@) ==> (r matches Some(bts) && bts@ == enc_layer2(self@)),
            !wf_layer2(self@) ==> r is None,
    {
        match self {
            Layer2Part::NoLayer2 => Some(l2_none_bytes()),
            Layer2Part::Layer2 { descr, data, cache } => {
                match descr.to_bytes() {
                    None => None,
                    Some(db) => {
                        let mut out = l2_some_bytes();
                        extend_from(&mut out, db.as_slice());
                        let dab = match data.to_bytes() {
                            Some(x) => x,
                            None => {
                                return None;
                            },
                        };
                        extend_from(&mut out, dab.as_slice());
                        let cb = match cache.to_bytes() {
                            Some(x) => x,
                            None => {
                                return None;
                            },
                        };
                        extend_from(&mut out, cb.as_slice());
                        assert(out@ =~= enc_layer2(self@));
                        Some(out)
                    },
                }
            },
        }
    }

    /// Decodes the canonical form: `Some` exactly on encodings of
    /// well-formed extension values.
    pub fn from_bytes(b: &[u8]) -> (r: Option<Layer2Part>)
        ensures
            (r is None) == (dec_layer2(b@) is None),
            r matches Some(v) ==> dec_layer2(b@) == Some(v@),
    {
        let n = b.len();
        let none_line = l2_none_bytes();
        if bytes_eq(b, none_line.as_slice()) {
            proof {
                lemma_dec_enc_layer2(Layer2V::Absent);
            }
            return Some(Layer2Part::NoLayer2);
        }
        let some_line = l2_some_bytes();
        if n < 77 {
            proof {
                assert forall|l: Layer2V| !(wf_layer2(l) && enc_layer2(l) == b@) by {
                    match l {
                        Layer2V::Absent => {},
                        Layer2V::Present { descr, count, balance } => {
                            lemma_enc_layer2_segments(descr, count, balance);
                        },
                    }
                }
            }
            return None;
        }
        if !starts_with(b, some_line.as_slice()) {
            proof {
                assert forall|l: Layer2V| !(wf_layer2(l) && enc_layer2(l) == b@) by {
                    match l {
                        Layer2V::Absent => {
                            assert(enc_layer2(l).len() == 13);
                        },
                        Layer2V::Present { descr, count, balance } => {
                            lemma_enc_layer2_segments(descr, count, balance);
                        },
                    }
                }
            }
            return None;
        }
        let seg1 = slice_subrange(b, 13, n - 55);
        let seg2 = slice_subrange(b, n - 55, n - 28);
        let seg3 = slice_subrange(b, n - 28, n);
        proof {
            assert forall|l: Layer2V| wf_layer2(l) && enc_layer2(l) == b@ implies (l matches
            Layer2V::Present { descr, count, balance } && seg1@ == enc_descr(descr) && seg2@
                == enc_data(count) && seg3@ == enc_cache(balance)) by {
                match l {
                    Layer2V::Absent => {
                        assert(enc_layer2(l).len() == 13);
                    },
                    Layer2V::Present { descr, count, balance } => {
                        lemma_enc_layer2_segments(descr, count, balance);
                    },
                }
            }
        }
        let vd = match DescrPart::from_bytes(seg1) {
            Some(x) => x,
            None => {
                proof {
                    assert forall|l: Layer2V| !(wf_layer2(l) && enc_layer2(l) == b@) by {
                        if wf_layer2(l) && enc_layer2(l) == b@ {
                            match l {
                                Layer2V::Absent => {},
                                Layer2V::Present { descr, count, balance } => {
                                    lemma_dec_enc_descr(descr);
                                },
                            }
                        }
                    }
                }
                return None;
            },
        };
        let vda = match DataPart::from_bytes(seg2) {
            Some(x) => x,
            None => {
                proof {
                    assert forall|l: Layer2V| !(wf_layer2(l) && enc_layer2(l) == b@) by {
                        if wf_layer2(l) && enc_layer2(l) == b@ {
                            match l {
                                Layer2V::Absent => {},
                                Layer2V::Present { descr, count, balance } => {
                                    lemma_dec_enc_data(count);
                                },
                            }
                        }
                    }
                }
                return None;
            },
        };
        let vc = match CachePart::from_bytes(seg3) {
            Some(x) => x,
            None => {
                proof {
                    assert forall|l: Layer2V| !(wf_layer2(l) && enc_layer2(l) == b@) by {
                        if wf_layer2(l) && enc_layer2(l) == b@ {
                            match l {
                                Layer2V::Absent => {},
                                Layer2V::Present { descr, count, balance } => {
                                    lemma_dec_enc_cache(balance);
                                },
                            }
                        }
                    }
                }
                return None;
            },
        };
        let v = Layer2Part::Layer2 { descr: vd, data: vda, cache: vc };
        proof {
            lemma_dec_descr_inv(seg1@);
            lemma_dec_data_inv(seg2@);
            lemma_dec_cache_inv(seg3@);
            let ghost m = v@;
            assert(wf_layer2(m));
            lemma_enc_layer2_segments(vd@, vda@, vc@);
            assert(enc_layer2(m) =~= b@) by {
                assert(enc_layer2(m).len() == 77 + vd@.len());
                assert(seg1@.len() == 9 + vd@.len());
                assert(enc_layer2(m).len() == n);
                assert forall|j: int| 0 <= j < n implies enc_layer2(m)[j] == b@[j] by {
                    if j < 13 {
                        assert(enc_layer2(m)[j] == l2_some()[j]);
                        assert(b@.subrange(0, 13)[j] == b@[j]);
                    } else if j < n - 55 {
                        assert(enc_layer2(m)[j] == enc_descr(vd@)[j - 13]);
                        assert(b@.subrange(13, n - 55)[j - 13] == b@[j]);
                    } else if j < n - 28 {
                        assert(enc_layer2(m)[j] == enc_data(vda@)[j - (n - 55)]);
                        assert(b@.subrange(n - 55, n - 28)[j - (n - 55)] == b@[j]);
                    } else {
                        assert(enc_layer2(m)[j] == enc_cache(vc@)[j - (n - 28)]);
                        assert(b@.subrange(n - 28, n as int)[j - (n - 28)] == b@[j]);
                    }
                }
            }
            lemma_dec_enc_layer2(m);
        }
        Some(v)
    }
}

} // verus!
