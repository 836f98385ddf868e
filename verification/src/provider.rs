//! Backends, the store capability, and the whole-wallet orchestrator.
//!
//! [`StoreProvider`] is the uniform synchronous load/store contract: one
//! implementation per (backend, part) pair, all sharing the naming rule of
//! [`crate::naming`] and the codecs of [`crate::parts`], so a wallet written
//! through one backend is read back through any other. [`FsContainer`] is
//! the direct local backend; [`OpendalContainer`] is the remote backend,
//! whose operator retries transient faults up to a bounded budget.
//!
//! A missing layer-2 object loads as the absent extension on every backend
//! (the extension is optional and `NoLayer2` is its unambiguous default);
//! a missing object of any other part is an error, never a default.

use crate::connector::Connector;
use crate::errors::IoFailure;
use crate::errors::LoadError;
use crate::errors::StoreError;
use crate::naming::Part;
use crate::naming::part_key;
use crate::naming::part_key_spec;
use crate::parts::CachePart;
use crate::parts::DataPart;
use crate::parts::DescrPart;
use crate::parts::Layer2Part;
use crate::parts::Layer2V;
use crate::parts::dec_cache;
use crate::parts::dec_data;
use crate::parts::dec_descr;
use crate::parts::dec_layer2;
use crate::parts::enc_cache;
use crate::parts::enc_data;
use crate::parts::enc_descr;
use crate::parts::enc_layer2;
use crate::parts::lemma_dec_enc_cache;
use crate::parts::lemma_dec_enc_data;
use crate::parts::lemma_dec_enc_descr;
use crate::parts::lemma_dec_enc_layer2;
use crate::parts::wf_descr;
use crate::parts::wf_layer2;
use crate::wallet::Wallet;
use crate::wallet::WalletV;
use crate::wallet::wf_wallet;
use vstd::prelude::*;

verus! {

/// A value that is one of the four wallet parts: it knows which part it
/// is, its codec, and what loading yields when its object is absent.
pub trait PartValue: View + Sized {
    /// Which of the four parts this type is.
    spec fn part() -> Part;

    /// Well-formedness: what the codec can represent.
    spec fn wf_v(m: Self::V) -> bool;

    /// The canonical byte form of a value.
    spec fn enc_v(m: Self::V) -> Seq<u8>;

    /// The value a byte form denotes: `Some` exactly on canonical forms of
    /// well-formed values.
    spec fn dec_v(b: Seq<u8>) -> Option<Self::V>;

    /// What loading yields when the part's object is absent: the absent
    /// extension for the layer-2 part, nothing (an error) for the others.
    spec fn on_missing() -> Option<Self::V>;

    /// Decoding inverts encoding on well-formed values.
    proof fn lemma_dec_enc(m: Self::V)
        requires
            Self::wf_v(m),
        ensures
            Self::dec_v(Self::enc_v(m)) == Some(m),
    ;

    /// Which part this is, at run time.
    fn part_kind() -> (p: Part)
        ensures
            p == Self::part(),
    ;

    /// Encodes the value, or refuses an ill-formed one.
    fn encode(&self) -> (r: Option<Vec<u8>>)
        ensures
            Self::wf_v(self@) ==> (r matches Some(bts) && bts@ == Self::enc_v(self@)),
            !Self::wf_v(self@) ==> r is None,
    ;

    /// Decodes a byte form.
    fn decode(b: &[u8]) -> (r: Option<Self>)
        ensures
            (r is None) == (Self::dec_v(b@) is None),
            r matches Some(v) ==> Self::dec_v(b@) == Some(v@),
    ;

    /// The value loaded in place of an absent object, if any.
    fn absent_value() -> (r: Option<Self>)
        ensures
            match Self::on_missing() {
                Some(m) => r matches Some(v) && v@ == m,
                None => r is None,
            },
    ;
}

impl PartValue for DescrPart {
    open spec fn part() -> Part {
        Part::Descr
    }

    open spec fn wf_v(m: Seq<u8>) -> bool {
        wf_descr(m)
    }

    open spec fn enc_v(m: Seq<u8>) -> Seq<u8> {
        enc_descr(m)
    }

    open spec fn dec_v(b: Seq<u8>) -> Option<Seq<u8>> {
        dec_descr(b)
    }

    open spec fn on_missing() -> Option<Seq<u8>> {
        None
    }

    proof fn lemma_dec_enc(m: Seq<u8>) {
        lemma_dec_enc_descr(m);
    }

    fn part_kind() -> (p: Part) {
        Part::Descr
    }

    fn encode(&self) -> (r: Option<Vec<u8>>) {
        self.to_bytes()
    }

    fn decode(b: &[u8]) -> (r: Option<Self>) {
        DescrPart::from_bytes(b)
    }

    fn absent_value() -> (r: Option<Self>) {
        None
    }
}

impl PartValue for DataPart {
    open spec fn part() -> Part {
        Part::Data
    }

    open spec fn wf_v(m: u64) -> bool {
        true
    }

    open spec fn enc_v(m: u64) -> Seq<u8> {
        enc_data(m)
    }

    open spec fn dec_v(b: Seq<u8>) -> Option<u64> {
        dec_data(b)
    }

    open spec fn on_missing() -> Option<u64> {
        None
    }

    proof fn lemma_dec_enc(m: u64) {
        lemma_dec_enc_data(m);
    }

    fn part_kind() -> (p: Part) {
        Part::Data
    }

    fn encode(&self) -> (r: Option<Vec<u8>>) {
        self.to_bytes()
    }

    fn decode(b: &[u8]) -> (r: Option<Self>) {
        DataPart::from_bytes(b)
    }

    fn absent_value() -> (r: Option<Self>) {
        None
    }
}

impl PartValue for CachePart {
    open spec fn part() -> Part {
        Part::Cache
    }

    open spec fn wf_v(m: u64) -> bool {
        true
    }

    open spec fn enc_v(m: u64) -> Seq<u8> {
        enc_cache(m)
    }

    open spec fn dec_v(b: Seq<u8>) -> Option<u64> {
        dec_cache(b)
    }

    open spec fn on_missing() -> Option<u64> {
        None
    }

    proof fn lemma_dec_enc(m: u64) {
        lemma_dec_enc_cache(m);
    }

    fn part_kind() -> (p: Part) {
        Part::Cache
    }

    fn encode(&self) -> (r: Option<Vec<u8>>) {
        self.to_bytes()
    }

    fn decode(b: &[u8]) -> (r: Option<Self>) {
        CachePart::from_bytes(b)
    }

    fn absent_value() -> (r: Option<Self>) {
        None
    }
}

impl PartValue for Layer2Part {
    open spec fn part() -> Part {
        Part::Layer2
    }

    open spec fn wf_v(m: Layer2V) -> bool {
        wf_layer2(m)
    }

    open spec fn enc_v(m: Layer2V) -> Seq<u8> {
        enc_layer2(m)
    }

    open spec fn dec_v(b: Seq<u8>) -> Option<Layer2V> {
        dec_layer2(b)
    }

    open spec fn on_missing() -> Option<Layer2V> {
        Some(Layer2V::Absent)
    }

    proof fn lemma_dec_enc(m: Layer2V) {
        lemma_dec_enc_layer2(m);
    }

    fn part_kind() -> (p: Part) {
        Part::Layer2
    }

    fn encode(&self) -> (r: Option<Vec<u8>>) {
        self.to_bytes()
    }

    fn decode(b: &[u8]) -> (r: Option<Self>) {
        Layer2Part::from_bytes(b)
    }

    fn absent_value() -> (r: Option<Self>) {
        Some(Layer2Part::NoLayer2)
    }
}

/// What loading one part from `objects` at `prefix` must yield, once the
/// store answers: the decoded value, a decode error on malformed bytes, or
/// — for an absent object — the part's default or a not-found error.
pub open spec fn load_part_outcome<T: PartValue>(
    objects: Map<Seq<u8>, Seq<u8>>,
    prefix: Seq<u8>,
) -> Result<T::V, LoadError> {
    let k = part_key_spec(prefix, T::part());
    if objects.contains_key(k) {
        match T::dec_v(objects[k]) {
            Some(m) => Ok(m),
            None => Err(LoadError::Decode),
        }
    } else {
        match T::on_missing() {
            Some(m) => Ok(m),
            None => Err(LoadError::Io(IoFailure::NotFound)),
        }
    }
}

/// The uniform synchronous load/store capability of one part on one
/// backend. The model is the backend's keyed object store, its pending
/// transient-fault budget, its bounded attempt budget, and the prefix under
/// which it addresses this wallet's parts.
pub trait StoreProvider<T: PartValue>: Sized {
    /// The objects of the backing store, by key.
    spec fn objects(&self) -> Map<Seq<u8>, Seq<u8>>;

    /// Pending transient faults of the backing store.
    spec fn failures(&self) -> nat;

    /// How many times one operation is attempted before a transient fault
    /// is surfaced.
    spec fn attempts(&self) -> nat;

    /// The key prefix: the local root directory or the wallet's identifier.
    spec fn prefix(&self) -> Seq<u8>;

    /// Loads this part: reads the object at the part's key and decodes it.
    /// Fewer pending faults than the attempt budget are invisible; more
    /// surface as a transient `Io` error.
    fn load(&mut self) -> (r: Result<T, LoadError>)
        ensures
            final(self).objects() == old(self).objects(),
            final(self).attempts() == old(self).attempts(),
            final(self).prefix() == old(self).prefix(),
            final(self).failures() <= old(self).failures(),
            old(self).failures() >= old(self).attempts() ==> (r == Err::<T, LoadError>(
                LoadError::Io(IoFailure::Transient),
            ) && final(self).failures() == old(self).failures() - old(self).attempts()),
            old(self).failures() < old(self).attempts() ==> (final(self).failures() == 0 && (
            match load_part_outcome::<T>(old(self).objects(), old(self).prefix()) {
                Ok(m) => r matches Ok(v) && v@ == m,
                Err(e) => r == Err::<T, LoadError>(e),
            })),
    ;

    /// Stores this part: encodes the value and overwrites the object at the
    /// part's key. An ill-formed value is refused before anything is
    /// written; a failed write leaves the store unchanged.
    fn store(&mut self, value: &T) -> (r: Result<(), StoreError>)
        ensures
            final(self).attempts() == old(self).attempts(),
            final(self).prefix() == old(self).prefix(),
            final(self).failures() <= old(self).failures(),
            !T::wf_v(value@) ==> (r == Err::<(), StoreError>(StoreError::Encode)
                && final(self).objects() == old(self).objects()
                && final(self).failures() == old(self).failures()),
            (T::wf_v(value@) && old(self).failures() >= old(self).attempts()) ==> (r == Err::<
                (),
                StoreError,
            >(StoreError::Io(IoFailure::Transient)) && final(self).objects() == old(self).objects()
                && final(self).failures() == old(self).failures() - old(self).attempts()),
            (T::wf_v(value@) && old(self).failures() < old(self).attempts()) ==> (r == Ok::<
                (),
                StoreError,
            >(()) && final(self).objects() == old(self).objects().insert(
                part_key_spec(old(self).prefix(), T::part()),
                T::enc_v(value@),
            ) && final(self).failures() == 0),
    ;
}

/// The local synchronous backend: parts live at `{root}/{part}.{ext}` in
/// its connector, and every operation is attempted exactly once.
#[derive(Debug)]
pub struct FsContainer<C: Connector> {
    conn: C,
    root: Vec<u8>,
}

impl<C: Connector> FsContainer<C> {
    /// The objects of the backing store.
    pub closed spec fn objects_spec(&self) -> Map<Seq<u8>, Seq<u8>> {
        self.conn.objects()
    }

    /// Pending transient faults of the backing store.
    pub closed spec fn failures_spec(&self) -> nat {
        self.conn.failures_left()
    }

    /// The root directory all part keys start with.
    pub closed spec fn prefix_spec(&self) -> Seq<u8> {
        self.root@
    }

    /// A local backend rooted at `root`.
    pub fn new(conn: C, root: Vec<u8>) -> (r: FsContainer<C>)
        ensures
            r.objects_spec() == conn.objects(),
            r.failures_spec() == conn.failures_left(),
            r.prefix_spec() == root@,
    {
        FsContainer { conn, root }
    }

    /// Hands the connector back, for pointing another backend at the same
    /// store.
    pub fn into_conn(self) -> (r: C)
        ensures
            r.objects() == self.objects_spec(),
            r.failures_left() == self.failures_spec(),
    {
        self.conn
    }
}

impl<C: Connector, T: PartValue> StoreProvider<T> for FsContainer<C> {
    open spec fn objects(&self) -> Map<Seq<u8>, Seq<u8>> {
        self.objects_spec()
    }

    open spec fn failures(&self) -> nat {
        self.failures_spec()
    }

    open spec fn attempts(&self) -> nat {
        1
    }

    open spec fn prefix(&self) -> Seq<u8> {
        self.prefix_spec()
    }

    fn load(&mut self) -> (r: Result<T, LoadError>) {
        let key = part_key(self.root.as_slice(), T::part_kind());
        match self.conn.read(key.as_slice()) {
            Ok(bts) => match T::decode(bts.as_slice()) {
                Some(v) => Ok(v),
                None => Err(LoadError::Decode),
            },
            Err(IoFailure::NotFound) => match T::absent_value() {
                Some(v) => Ok(v),
                None => Err(LoadError::Io(IoFailure::NotFound)),
            },
            Err(IoFailure::Transient) => Err(LoadError::Io(IoFailure::Transient)),
        }
    }

    fn store(&mut self, value: &T) -> (r: Result<(), StoreError>) {
        match value.encode() {
            None => Err(StoreError::Encode),
            Some(bts) => {
                let key = part_key(self.root.as_slice(), T::part_kind());
                match self.conn.write(key.as_slice(), bts.as_slice()) {
                    Ok(_) => Ok(()),
                    Err(f) => Err(StoreError::Io(f)),
                }
            },
        }
    }
}

/// The retry-wrapped connector of the remote backend. Every read or write
/// is attempted up to the configured budget (never fewer than once) before
/// a transient fault is surfaced.
#[derive(Debug)]
pub struct OpendalOperator<C: Connector> {
    conn: C,
    attempts: u64,
}

impl<C: Connector> OpendalOperator<C> {
    /// The objects of the backing store.
    pub closed spec fn objects_spec(&self) -> Map<Seq<u8>, Seq<u8>> {
        self.conn.objects()
    }

    /// Pending transient faults of the backing store.
    pub closed spec fn failures_spec(&self) -> nat {
        self.conn.failures_left()
    }

    /// The attempt budget; at least one attempt is always made.
    pub closed spec fn attempts_spec(&self) -> nat {
        if self.attempts == 0 {
            1nat
        } else {
            self.attempts as nat
        }
    }

    /// Wraps a connector with a bounded retry budget.
    pub fn new(conn: C, attempts: u64) -> (r: OpendalOperator<C>)
        ensures
            r.objects_spec() == conn.objects(),
            r.failures_spec() == conn.failures_left(),
            r.attempts_spec() == if attempts == 0 {
                1nat
            } else {
                attempts as nat
            },
    {
        OpendalOperator { conn, attempts }
    }

    /// Hands the connector back.
    pub fn into_conn(self) -> (r: C)
        ensures
            r.objects() == self.objects_spec(),
            r.failures_left() == self.failures_spec(),
    {
        self.conn
    }

    fn effective_attempts(&self) -> (r: u64)
        ensures
            r as nat == self.attempts_spec(),
            r >= 1,
    {
        if self.attempts == 0 {
            1
        } else {
            self.attempts
        }
    }

    /// Reads `key` with retry.
    pub fn read(&mut self, key: &[u8]) -> (r: Result<Vec<u8>, IoFailure>)
        ensures
            final(self).objects_spec() == old(self).objects_spec(),
            final(self).attempts_spec() == old(self).attempts_spec(),
            final(self).failures_spec() <= old(self).failures_spec(),
            old(self).failures_spec() >= old(self).attempts_spec() ==> (r == Err::<
                Vec<u8>,
                IoFailure,
            >(IoFailure::Transient) && final(self).failures_spec() == old(self).failures_spec()
                - old(self).attempts_spec()),
            old(self).failures_spec() < old(self).attempts_spec() ==> (final(self).failures_spec()
                == 0 && (old(self).objects_spec().contains_key(key@) ==> (r matches Ok(v) && v@
                == old(self).objects_spec()[key@])) && (!old(self).objects_spec().contains_key(key@)
                ==> r == Err::<Vec<u8>, IoFailure>(IoFailure::NotFound))),
    {
        let a = self.effective_attempts();
        crate::retry::read_with_retry(&mut self.conn, key, a)
    }

    /// Writes `value` at `key` with retry.
    pub fn write(&mut self, key: &[u8], value: &[u8]) -> (r: Result<(), IoFailure>)
        ensures
            final(self).attempts_spec() == old(self).attempts_spec(),
            final(self).failures_spec() <= old(self).failures_spec(),
            old(self).failures_spec() >= old(self).attempts_spec() ==> (r == Err::<(), IoFailure>(
                IoFailure::Transient,
            ) && final(self).objects_spec() == old(self).objects_spec()
                && final(self).failures_spec() == old(self).failures_spec()
                - old(self).attempts_spec()),
            old(self).failures_spec() < old(self).attempts_spec() ==> (r == Ok::<(), IoFailure>(())
                && final(self).objects_spec() == old(self).objects_spec().insert(key@, value@)
                && final(self).failures_spec() == 0),
    {
        let a = self.effective_attempts();
        crate::retry::write_with_retry(&mut self.conn, key, value, a)
    }
}

/// The remote object-storage backend: parts live at
/// `{user id}/{part}.{ext}` behind a retry-wrapped operator.
#[derive(Debug)]
pub struct OpendalContainer<C: Connector> {
    operator: OpendalOperator<C>,
    user_id: Vec<u8>,
}

impl<C: Connector> OpendalContainer<C> {
    /// The objects of the backing store.
    pub closed spec fn objects_spec(&self) -> Map<Seq<u8>, Seq<u8>> {
        self.operator.objects_spec()
    }

    /// Pending transient faults of the backing store.
    pub closed spec fn failures_spec(&self) -> nat {
        self.operator.failures_spec()
    }

    /// The attempt budget of the operator.
    pub closed spec fn attempts_spec(&self) -> nat {
        self.operator.attempts_spec()
    }

    /// The wallet identifier all part keys start with.
    pub closed spec fn prefix_spec(&self) -> Seq<u8> {
        self.user_id@
    }

    /// A remote backend for the wallet `user_id`, storing through
    /// `operator`. The operator is built once at startup and handed to
    /// every container that needs it.
    pub fn make_container(operator: OpendalOperator<C>, user_id: Vec<u8>) -> (r: OpendalContainer<
        C,
    >)
        ensures
            r.objects_spec() == operator.objects_spec(),
            r.failures_spec() == operator.failures_spec(),
            r.attempts_spec() == operator.attempts_spec(),
            r.prefix_spec() == user_id@,
    {
        OpendalContainer { operator, user_id }
    }

    /// Hands the operator back.
    pub fn into_operator(self) -> (r: OpendalOperator<C>)
        ensures
            r.objects_spec() == self.objects_spec(),
            r.failures_spec() == self.failures_spec(),
            r.attempts_spec() == self.attempts_spec(),
    {
        self.operator
    }
}

impl<C: Connector, T: PartValue> StoreProvider<T> for OpendalContainer<C> {
    open spec fn objects(&self) -> Map<Seq<u8>, Seq<u8>> {
        self.objects_spec()
    }

    open spec fn failures(&self) -> nat {
        self.failures_spec()
    }

    open spec fn attempts(&self) -> nat {
        self.attempts_spec()
    }

    open spec fn prefix(&self) -> Seq<u8> {
        self.prefix_spec()
    }

    fn load(&mut self) -> (r: Result<T, LoadError>) {
        let key = part_key(self.user_id.as_slice(), T::part_kind());
        match self.operator.read(key.as_slice()) {
            Ok(bts) => match T::decode(bts.as_slice()) {
                Some(v) => Ok(v),
                None => Err(LoadError::Decode),
            },
            Err(IoFailure::NotFound) => match T::absent_value() {
                Some(v) => Ok(v),
                None => Err(LoadError::Io(IoFailure::NotFound)),
            },
            Err(IoFailure::Transient) => Err(LoadError::Io(IoFailure::Transient)),
        }
    }

    fn store(&mut self, value: &T) -> (r: Result<(), StoreError>) {
        match value.encode() {
            None => Err(StoreError::Encode),
            Some(bts) => {
                let key = part_key(self.user_id.as_slice(), T::part_kind());
                match self.operator.write(key.as_slice(), bts.as_slice()) {
                    Ok(_) => Ok(()),
                    Err(f) => Err(StoreError::Io(f)),
                }
            },
        }
    }
}

/// The discriminated configuration of the remote backend's store service.
#[derive(Debug, Clone)]
pub enum StoreBackendConfig {
    /// A local filesystem service rooted at `root`.
    Fs { root: Vec<u8> },
    /// A remote object-storage service.
    S3 { bucket: Vec<u8>, region: Vec<u8> },
}

impl Default for StoreBackendConfig {
    /// The filesystem service rooted at the current directory, `./`.
    fn default() -> (r: StoreBackendConfig)
        ensures
            r matches StoreBackendConfig::Fs { root } && root@ == seq![46u8, 47u8],
    {
        let mut root: Vec<u8> = Vec::new();
        root.push(46);
        root.push(47);
        assert(root@ =~= seq![46u8, 47u8]);
        StoreBackendConfig::Fs { root }
    }
}

/// The remote backend's configuration: which store service to connect to.
#[derive(Debug, Clone)]
pub struct OpendalConfig {
    pub backend: StoreBackendConfig,
}

/// The store after one wallet is written whole at `prefix`: each part's
/// object overwritten with the part's canonical form.
pub open spec fn stored_wallet_map(
    objects: Map<Seq<u8>, Seq<u8>>,
    prefix: Seq<u8>,
    w: WalletV,
) -> Map<Seq<u8>, Seq<u8>> {
    objects.insert(part_key_spec(prefix, Part::Descr), enc_descr(w.descr)).insert(
        part_key_spec(prefix, Part::Data),
        enc_data(w.count),
    ).insert(part_key_spec(prefix, Part::Cache), enc_cache(w.balance)).insert(
        part_key_spec(prefix, Part::Layer2),
        enc_layer2(w.layer2),
    )
}

/// What loading a whole wallet from `objects` at `prefix` must yield: the
/// four part outcomes combined fail-fast, in part order.
pub open spec fn wallet_load_outcome(objects: Map<Seq<u8>, Seq<u8>>, prefix: Seq<u8>) -> Result<
    WalletV,
    LoadError,
> {
    match load_part_outcome::<DescrPart>(objects, prefix) {
        Err(e) => Err(e),
        Ok(d) => match load_part_outcome::<DataPart>(objects, prefix) {
            Err(e) => Err(e),
            Ok(c) => match load_part_outcome::<CachePart>(objects, prefix) {
                Err(e) => Err(e),
                Ok(bl) => match load_part_outcome::<Layer2Part>(objects, prefix) {
                    Err(e) => Err(e),
                    Ok(l2) => Ok(WalletV { descr: d, count: c, balance: bl, layer2: l2 }),
                },
            },
        },
    }
}

/// The four parts of one wallet live under four distinct keys.
pub proof fn lemma_part_keys_distinct(prefix: Seq<u8>)
    ensures
        part_key_spec(prefix, Part::Descr) != part_key_spec(prefix, Part::Data),
        part_key_spec(prefix, Part::Descr) != part_key_spec(prefix, Part::Cache),
        part_key_spec(prefix, Part::Descr) != part_key_spec(prefix, Part::Layer2),
        part_key_spec(prefix, Part::Data) != part_key_spec(prefix, Part::Cache),
        part_key_spec(prefix, Part::Data) != part_key_spec(prefix, Part::Layer2),
        part_key_spec(prefix, Part::Cache) != part_key_spec(prefix, Part::Layer2),
{
    let kd = part_key_spec(prefix, Part::Descr);
    let ka = part_key_spec(prefix, Part::Data);
    let kc = part_key_spec(prefix, Part::Cache);
    let kl = part_key_spec(prefix, Part::Layer2);
    assert(kd.len() == prefix.len() + 11);
    assert(ka.len() == prefix.len() + 10);
    assert(kc.len() == prefix.len() + 11);
    assert(kl.len() == prefix.len() + 12);
    assert(kd[prefix.len() as int + 1] == 100u8);
    assert(kc[prefix.len() as int + 1] == 99u8);
}

/// Round trip of one part, on any backend: loading a part that was just
/// stored yields the stored value. Both backends' contracts are phrased
/// over the same outcome spec, store map and key rule, so this also says
/// that a part written by one backend is read back unchanged by the other.
pub proof fn lemma_part_roundtrip<T: PartValue>(
    objects: Map<Seq<u8>, Seq<u8>>,
    prefix: Seq<u8>,
    m: T::V,
)
    requires
        T::wf_v(m),
    ensures
        load_part_outcome::<T>(
            objects.insert(part_key_spec(prefix, T::part()), T::enc_v(m)),
            prefix,
        ) == Ok::<T::V, LoadError>(m),
{
    T::lemma_dec_enc(m);
}

/// Round trip of a whole wallet, on any backend: loading a wallet that was
/// just stored whole yields an equal wallet. As with the part-level round
/// trip, the statement is backend-independent: a wallet stored through the
/// local backend at a root is reconstructed by the remote backend reading
/// the same store under the same prefix, and the other way round.
pub proof fn lemma_wallet_roundtrip(objects: Map<Seq<u8>, Seq<u8>>, prefix: Seq<u8>, w: WalletV)
    requires
        wf_wallet(w),
    ensures
        wallet_load_outcome(stored_wallet_map(objects, prefix, w), prefix) == Ok::<
            WalletV,
            LoadError,
        >(w),
{
    lemma_part_keys_distinct(prefix);
    let m2 = stored_wallet_map(objects, prefix, w);
    assert(m2[part_key_spec(prefix, Part::Descr)] == enc_descr(w.descr));
    assert(m2[part_key_spec(prefix, Part::Data)] == enc_data(w.count));
    assert(m2[part_key_spec(prefix, Part::Cache)] == enc_cache(w.balance));
    assert(m2[part_key_spec(prefix, Part::Layer2)] == enc_layer2(w.layer2));
    lemma_dec_enc_descr(w.descr);
    lemma_dec_enc_data(w.count);
    lemma_dec_enc_cache(w.balance);
    lemma_dec_enc_layer2(w.layer2);
}

/// Loading a wallet whose data object is missing fails; no partially
/// populated wallet is returned. When the descriptor before it loads
/// cleanly the error is precisely the not-found one.
pub proof fn lemma_missing_data_fails(objects: Map<Seq<u8>, Seq<u8>>, prefix: Seq<u8>)
    requires
        !objects.contains_key(part_key_spec(prefix, Part::Data)),
    ensures
        wallet_load_outcome(objects, prefix) is Err,
        load_part_outcome::<DescrPart>(objects, prefix) is Ok ==> wallet_load_outcome(
            objects,
            prefix,
        ) == Err::<WalletV, LoadError>(LoadError::Io(IoFailure::NotFound)),
{
}

/// Serialized stores of one part never interleave: after two whole-object
/// writes under the same key, the stored object is the second write's
/// bytes - always one submitted value whole, never a mixture. The connector
/// writes objects atomically and exclusive access serializes the calls; for
/// a shared async file handle the per-part lock in the surrounding program
/// is what realizes the exclusive access.
pub proof fn lemma_exclusive_stores_serialize(
    objects: Map<Seq<u8>, Seq<u8>>,
    prefix: Seq<u8>,
    p: Part,
    b1: Seq<u8>,
    b2: Seq<u8>,
)
    ensures
        ({
            let k = part_key_spec(prefix, p);
            let m2 = objects.insert(k, b1).insert(k, b2);
            m2[k] == b2 && (m2[k] == b1 || m2[k] == b2)
        }),
{
}

impl<C: Connector> FsContainer<C> {
    /// Loads the whole wallet: one load per part, surfacing the first
    /// error and never a partially populated wallet.
    pub fn load_wallet(&mut self) -> (r: Result<Wallet, LoadError>)
        ensures
            final(self).objects_spec() == old(self).objects_spec(),
            final(self).prefix_spec() == old(self).prefix_spec(),
            final(self).failures_spec() <= old(self).failures_spec(),
            old(self).failures_spec() == 0 ==> (final(self).failures_spec() == 0 && (
            match wallet_load_outcome(old(self).objects_spec(), old(self).prefix_spec()) {
                Ok(m) => r matches Ok(w) && w@ == m,
                Err(e) => r == Err::<Wallet, LoadError>(e),
            })),
            old(self).failures_spec() > 0 ==> r == Err::<Wallet, LoadError>(
                LoadError::Io(IoFailure::Transient),
            ),
    {
        let d: Result<DescrPart, LoadError> = self.load();
        let d = match d {
            Ok(x) => x,
            Err(e) => {
                return Err(e);
            },
        };
        let da: Result<DataPart, LoadError> = self.load();
        let da = match da {
            Ok(x) => x,
            Err(e) => {
                return Err(e);
            },
        };
        let c: Result<CachePart, LoadError> = self.load();
        let c = match c {
            Ok(x) => x,
            Err(e) => {
                return Err(e);
            },
        };
        let l2: Result<Layer2Part, LoadError> = self.load();
        let l2 = match l2 {
            Ok(x) => x,
            Err(e) => {
                return Err(e);
            },
        };
        Ok(Wallet::with(d, da, c, l2))
    }

    /// Stores the whole wallet: one store per part, surfacing the first
    /// error. There is no rollback: when a later part fails, the parts
    /// before it remain overwritten, exactly as the contract states.
    pub fn store_wallet(&mut self, w: &Wallet) -> (r: Result<(), StoreError>)
        ensures
            final(self).prefix_spec() == old(self).prefix_spec(),
            final(self).failures_spec() <= old(self).failures_spec(),
            (old(self).failures_spec() == 0 && wf_wallet(w@)) ==> (r == Ok::<(), StoreError>(())
                && final(self).objects_spec() == stored_wallet_map(
                old(self).objects_spec(),
                old(self).prefix_spec(),
                w@,
            ) && final(self).failures_spec() == 0),
            !wf_descr(w@.descr) ==> (r == Err::<(), StoreError>(StoreError::Encode)
                && final(self).objects_spec() == old(self).objects_spec()
                && final(self).failures_spec() == old(self).failures_spec()),
            (old(self).failures_spec() == 0 && wf_descr(w@.descr) && !wf_layer2(w@.layer2)) ==> (r
                == Err::<(), StoreError>(StoreError::Encode)
                && final(self).objects_spec()
                == old(self).objects_spec().insert(
                part_key_spec(old(self).prefix_spec(), Part::Descr),
                enc_descr(w@.descr),
            ).insert(part_key_spec(old(self).prefix_spec(), Part::Data), enc_data(w@.count)).insert(
                part_key_spec(old(self).prefix_spec(), Part::Cache),
                enc_cache(w@.balance),
            )),
            (old(self).failures_spec() > 0 && wf_descr(w@.descr)) ==> (r == Err::<(), StoreError>(
                StoreError::Io(IoFailure::Transient),
            ) && final(self).objects_spec() == old(self).objects_spec()),
    {
        match self.store(w.descr()) {
            Ok(_) => {},
            Err(e) => {
                return Err(e);
            },
        }
        match self.store(w.data()) {
            Ok(_) => {},
            Err(e) => {
                return Err(e);
            },
        }
        match self.store(w.cache()) {
            Ok(_) => {},
            Err(e) => {
                return Err(e);
            },
        }
        match self.store(w.layer2()) {
            Ok(_) => {},
            Err(e) => {
                return Err(e);
            },
        }
        Ok(())
    }
}

impl<C: Connector> OpendalContainer<C> {
    /// Loads the whole wallet through the retry-wrapped operator: one load
    /// per part, surfacing the first error and never a partially populated
    /// wallet. A burst of fewer transient faults than the attempt budget is
    /// masked entirely; a longer burst surfaces as a transient `Io` error.
    pub fn load_wallet(&mut self) -> (r: Result<Wallet, LoadError>)
        ensures
            final(self).objects_spec() == old(self).objects_spec(),
            final(self).prefix_spec() == old(self).prefix_spec(),
            final(self).attempts_spec() == old(self).attempts_spec(),
            final(self).failures_spec() <= old(self).failures_spec(),
            old(self).failures_spec() < old(self).attempts_spec() ==> (final(self).failures_spec()
                == 0 && (match wallet_load_outcome(
                old(self).objects_spec(),
                old(self).prefix_spec(),
            ) {
                Ok(m) => r matches Ok(w) && w@ == m,
                Err(e) => r == Err::<Wallet, LoadError>(e),
            })),
            old(self).failures_spec() >= old(self).attempts_spec() ==> r == Err::<
                Wallet,
                LoadError,
            >(LoadError::Io(IoFailure::Transient)),
    {
        let d: Result<DescrPart, LoadError> = self.load();
        let d = match d {
            Ok(x) => x,
            Err(e) => {
                return Err(e);
            },
        };
        let da: Result<DataPart, LoadError> = self.load();
        let da = match da {
            Ok(x) => x,
            Err(e) => {
                return Err(e);
            },
        };
        let c: Result<CachePart, LoadError> = self.load();
        let c = match c {
            Ok(x) => x,
            Err(e) => {
                return Err(e);
            },
        };
        let l2: Result<Layer2Part, LoadError> = self.load();
        let l2 = match l2 {
            Ok(x) => x,
            Err(e) => {
                return Err(e);
            },
        };
        Ok(Wallet::with(d, da, c, l2))
    }

    /// Stores the whole wallet through the retry-wrapped operator: one
    /// store per part, surfacing the first error. No rollback: when a later
    /// part fails, the parts before it remain overwritten.
    pub fn store_wallet(&mut self, w: &Wallet) -> (r: Result<(), StoreError>)
        ensures
            final(self).prefix_spec() == old(self).prefix_spec(),
            final(self).attempts_spec() == old(self).attempts_spec(),
            final(self).failures_spec() <= old(self).failures_spec(),
            (old(self).failures_spec() < old(self).attempts_spec() && wf_wallet(w@)) ==> (r
                == Ok::<(), StoreError>(()) && final(self).objects_spec() == stored_wallet_map(
                old(self).objects_spec(),
                old(self).prefix_spec(),
                w@,
            ) && final(self).failures_spec() == 0),
            !wf_descr(w@.descr) ==> (r == Err::<(), StoreError>(StoreError::Encode)
                && final(self).objects_spec() == old(self).objects_spec()
                && final(self).failures_spec() == old(self).failures_spec()),
            (old(self).failures_spec() < old(self).attempts_spec() && wf_descr(w@.descr)
                && !wf_layer2(w@.layer2)) ==> (r == Err::<(), StoreError>(StoreError::Encode)
                && final(self).objects_spec() == old(self).objects_spec().insert(
                part_key_spec(old(self).prefix_spec(), Part::Descr),
                enc_descr(w@.descr),
            ).insert(part_key_spec(old(self).prefix_spec(), Part::Data), enc_data(w@.count)).insert(
                part_key_spec(old(self).prefix_spec(), Part::Cache),
                enc_cache(w@.balance),
            )),
            (old(self).failures_spec() >= old(self).attempts_spec() && wf_descr(w@.descr)) ==> (r
                == Err::<(), StoreError>(StoreError::Io(IoFailure::Transient))
                && final(self).objects_spec() == old(self).objects_spec()),
    {
        match self.store(w.descr()) {
            Ok(_) => {},
            Err(e) => {
                return Err(e);
            },
        }
        match self.store(w.data()) {
            Ok(_) => {},
            Err(e) => {
                return Err(e);
            },
        }
        match self.store(w.cache()) {
            Ok(_) => {},
            Err(e) => {
                return Err(e);
            },
        }
        match self.store(w.layer2()) {
            Ok(_) => {},
            Err(e) => {
                return Err(e);
            },
        }
        Ok(())
    }
}

} // verus!
