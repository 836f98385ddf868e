//! The wallet aggregate: the four parts persisted as a unit.

use crate::parts::CachePart;
use crate::parts::DataPart;
use crate::parts::DescrPart;
use crate::parts::Layer2Part;
use crate::parts::Layer2V;
use crate::parts::wf_descr;
use crate::parts::wf_layer2;
use vstd::prelude::*;

verus! {

/// A wallet in memory: descriptor, data, cache and the optional layer-2
/// extension. The orchestrator persists and reassembles it part by part;
/// it owns no storage resource itself.
#[derive(Debug)]
pub struct Wallet {
    descr: DescrPart,
    data: DataPart,
    cache: CachePart,
    layer2: Layer2Part,
}

/// The mathematical value of a wallet.
pub struct WalletV {
    pub descr: Seq<u8>,
    pub count: u64,
    pub balance: u64,
    pub layer2: Layer2V,
}

impl View for Wallet {
    type V = WalletV;

    closed spec fn view(&self) -> WalletV {
        WalletV {
            descr: self.descr@,
            count: self.data@,
            balance: self.cache@,
            layer2: self.layer2@,
        }
    }
}

/// A wallet is well formed when each of its parts is.
pub open spec fn wf_wallet(w: WalletV) -> bool {
    wf_descr(w.descr) && wf_layer2(w.layer2)
}

impl Wallet {
    /// Reassembles a wallet from its four parts.
    pub fn with(descr: DescrPart, data: DataPart, cache: CachePart, layer2: Layer2Part) -> (w:
        Wallet)
        ensures
            w@ == (WalletV { descr: descr@, count: data@, balance: cache@, layer2: layer2@ }),
    {
        Wallet { descr, data, cache, layer2 }
    }

    /// The descriptor part.
    pub fn descr(&self) -> (r: &DescrPart)
        ensures
            r@ == self@.descr,
    {
        &self.descr
    }

    /// The data part.
    pub fn data(&self) -> (r: &DataPart)
        ensures
            r@ == self@.count,
    {
        &self.data
    }

    /// The cache part.
    pub fn cache(&self) -> (r: &CachePart)
        ensures
            r@ == self@.balance,
    {
        &self.cache
    }

    /// The layer-2 extension part.
    pub fn layer2(&self) -> (r: &Layer2Part)
        ensures
            r@ == self@.layer2,
    {
        &self.layer2
    }
}

} // verus!
