//! The worker coordinator: the ledger side of node identities, storage
//! reports and completion reports, and the decisions a node's periodic
//! worker takes on each tick.
use std::collections::HashMap;
use vstd::prelude::*;

use crate::data_assets::{
    finalize_spec, AssetMetadataView, Error as StoreError, MetadataProvider, Pallet as Store,
    ReleaseRequest, ResultsHandler,
};
use crate::primitives::{AccountId, AssetId, IngestionCommand};

verus! {

/// Configuration items a node is allowed to set on its storage daemon.
#[derive(PartialEq, Eq, Structural, Clone, Copy, Debug)]
pub enum IpfsConfigKey {
    StorageMax,
}

impl IpfsConfigKey {
    /// The daemon's name for this configuration item.
    pub fn as_ref(&self) -> (r: &'static str)
        ensures
            r@ == "Datastore.StorageMax"@,
    {
        match self {
            IpfsConfigKey::StorageMax => "Datastore.StorageMax",
        }
    }
}

/// Storage settings of a node.
#[derive(Default)]
pub struct Configuration {
    pub storage_config: u128,
    pub ready: bool,
}

/// Settings of the worker coordinator.
pub struct Config {
    /// number of ticks between two synchronisations of the storage
    /// daemon's configuration; zero never synchronises
    pub node_config_block_duration: u32,
}

/// Events recorded by the coordinator's ledger side.
#[derive(PartialEq, Eq, Structural, Clone, Copy, Debug)]
pub enum Event {
    IdentitySubmitted(AccountId),
    ConfigurationSyncSubmitted(AccountId),
    IngestionComplete,
}

/// Failures of the coordinator.
#[derive(PartialEq, Eq, Structural, Clone, Copy, Debug)]
pub enum Error {
    /// the public key is already associated with another account
    InvalidPublicKey,
    /// the multiaddress is invalid
    InvalidMultiaddress,
    /// the content identifier is invalid
    InvalidCID,
    /// communication with the storage daemon failed
    IpfsError,
    /// the storage daemon is not running or is unreachable
    IpfsNotAvailable,
    /// a response of the storage daemon could not be parsed
    ResponseParsingFailure,
    /// the storage daemon's configuration could not be updated
    ConfigUpdateFailure,
}

/// Abstract value of an [`IpfsIdentity`].
pub struct IpfsIdentityView {
    pub public_key: Seq<u8>,
    pub account: AccountId,
    pub multiaddresses: Seq<Seq<u8>>,
}

/// A storage daemon's public key, the account that controls it, and the
/// locators it is reachable at.
pub struct IpfsIdentity {
    pub public_key: Vec<u8>,
    pub account: AccountId,
    pub multiaddresses: Vec<Vec<u8>>,
}

/// Abstract value of a list of locators.
pub open spec fn locators_view(v: Seq<Vec<u8>>) -> Seq<Seq<u8>> {
    v.map_values(|a: Vec<u8>| a@)
}

impl View for IpfsIdentity {
    type V = IpfsIdentityView;

    open spec fn view(&self) -> IpfsIdentityView {
        IpfsIdentityView {
            public_key: self.public_key@,
            account: self.account,
            multiaddresses: locators_view(self.multiaddresses@),
        }
    }
}

/// Whether some record of `s` is for the daemon key `k`.
pub open spec fn registered(s: Seq<IpfsIdentity>, k: Seq<u8>) -> bool {
    exists|i: int| 0 <= i < s.len() && #[trigger] s[i].public_key@ == k
}

/// Whether no two records of `s` are for the same daemon key.
pub open spec fn keys_unique(s: Seq<IpfsIdentity>) -> bool {
    forall|i: int, j: int|
        0 <= i < s.len() && 0 <= j < s.len() && #[trigger] s[i].public_key@
            == #[trigger] s[j].public_key@ ==> i == j
}

/// The daemon key to identity map that the records `s` describe.
pub open spec fn registry_of(s: Seq<IpfsIdentity>) -> Map<Seq<u8>, IpfsIdentityView> {
    Map::new(
        |k: Seq<u8>| registered(s, k),
        |k: Seq<u8>| s[choose|i: int| 0 <= i < s.len() && #[trigger] s[i].public_key@ == k]@,
    )
}

/// The record at `i` is what the registry holds for its key.
proof fn lemma_registry_at(s: Seq<IpfsIdentity>, i: int)
    requires
        keys_unique(s),
        0 <= i < s.len(),
    ensures
        registry_of(s).contains_key(s[i].public_key@),
        registry_of(s)[s[i].public_key@] == s[i]@,
{
    let k = s[i].public_key@;
    assert(registered(s, k));
    let j = choose|j: int| 0 <= j < s.len() && #[trigger] s[j].public_key@ == k;
    assert(s[j].public_key@ == s[i].public_key@);
}

/// Abstract state of the coordinator's ledger side.
pub struct LedgerView {
    /// daemon public key to identity
    pub identities: Map<Seq<u8>, IpfsIdentityView>,
    /// reported storage size of each account
    pub stats: Map<AccountId, u128>,
}

/// The coordinator's ledger side: which account controls which storage
/// daemon, and the storage each account reported.
pub struct Pallet {
    identities: Vec<IpfsIdentity>,
    stats: HashMap<AccountId, u128>,
}

impl View for Pallet {
    type V = LedgerView;

    closed spec fn view(&self) -> LedgerView {
        LedgerView { identities: registry_of(self.identities@), stats: self.stats@ }
    }
}

impl Pallet {
    /// Internal consistency: one record per daemon key.
    pub closed spec fn wf(&self) -> bool {
        keys_unique(self.identities@)
    }

    /// A ledger side with no identity and no report.
    pub fn new() -> (r: Pallet)
        ensures
            r.wf(),
            r@.identities == Map::<Seq<u8>, IpfsIdentityView>::empty(),
            r@.stats == Map::<AccountId, u128>::empty(),
    {
        let r = Pallet { identities: Vec::new(), stats: HashMap::new() };
        assert(r@.identities =~= Map::<Seq<u8>, IpfsIdentityView>::empty());
        r
    }

    /// Position of the record for daemon key `public_key`.
    fn find_identity(&self, public_key: &Vec<u8>) -> (r: Option<usize>)
        requires
            self.wf(),
        ensures
            match r {
                Some(i) => i < self.identities@.len() && self.identities@[i as int].public_key@
                    == public_key@,
                None => !registered(self.identities@, public_key@),
            },
    {
        let mut i: usize = 0;
        while i < self.identities.len()
            invariant
                0 <= i <= self.identities@.len(),
                forall|j: int| 0 <= j < i ==> self.identities@[j].public_key@ != public_key@,
            decreases self.identities@.len() - i,
        {
            if crate::primitives::bytes_eq(&self.identities[i].public_key, public_key) {
                return Some(i);
            }
            i = i + 1;
        }
        None
    }

    /// The account that controls the daemon with key `public_key`.
    pub fn account_of(&self, public_key: &Vec<u8>) -> (r: Option<AccountId>)
        requires
            self.wf(),
        ensures
            r == (if self@.identities.contains_key(public_key@) {
                Some(self@.identities[public_key@].account)
            } else {
                None
            }),
    {
        match self.find_identity(public_key) {
            Some(i) => {
                proof {
                    lemma_registry_at(self.identities@, i as int);
                }
                Some(self.identities[i].account)
            },
            None => None,
        }
    }

    /// Storage size last reported by `who`; zero when it reported none.
    pub fn stats(&self, who: AccountId) -> (r: u128)
        ensures
            r == (if self@.stats.contains_key(who) {
                self@.stats[who]
            } else {
                0
            }),
    {
        match self.stats.get(&who) {
            Some(v) => *v,
            None => 0,
        }
    }

    /// Records that `who` controls the daemon with key `public_key`,
    /// reachable at `multiaddresses`. A key already held by another
    /// account is refused.
    pub fn submit_ipfs_identity(
        &mut self,
        who: AccountId,
        public_key: Vec<u8>,
        multiaddresses: Vec<Vec<u8>>,
    ) -> (r: Result<Event, Error>)
        requires
            old(self).wf(),
        ensures
            final(self).wf(),
            (old(self)@.identities.contains_key(public_key@)
                && old(self)@.identities[public_key@].account != who) <==> r == Err::<
                Event,
                Error,
            >(Error::InvalidPublicKey),
            r is Err <==> (old(self)@.identities.contains_key(public_key@)
                && old(self)@.identities[public_key@].account != who),
            r is Err ==> final(self)@ == old(self)@,
            r is Ok ==> r == Ok::<Event, Error>(Event::IdentitySubmitted(who)) && final(self)@ == (
            LedgerView {
                identities: old(self)@.identities.insert(
                    public_key@,
                    IpfsIdentityView {
                        public_key: public_key@,
                        account: who,
                        multiaddresses: locators_view(multiaddresses@),
                    },
                ),
                ..old(self)@
            }),
    {
        let ghost s = self.identities@;
        let found = self.find_identity(&public_key);
        let record = IpfsIdentity { public_key, account: who, multiaddresses };
        let ghost k = record.public_key@;
        match found {
            Some(i) => {
                proof {
                    lemma_registry_at(s, i as int);
                }
                if self.identities[i].account != who {
                    return Err(Error::InvalidPublicKey);
                }
                self.identities.set(i, record);
                proof {
                    let t = self.identities@;
                    assert(t == s.update(i as int, record));
                    assert forall|a: int, b: int|
                        0 <= a < t.len() && 0 <= b < t.len() && #[trigger] t[a].public_key@
                            == #[trigger] t[b].public_key@ implies a == b by {
                        assert(t[a].public_key@ == s[a].public_key@);
                        assert(t[b].public_key@ == s[b].public_key@);
                    }
                    let expected = registry_of(s).insert(k, record@);
                    assert forall|q: Seq<u8>| #[trigger] registered(t, q) == expected.contains_key(q) by {
                        if registered(t, q) {
                            let a = choose|a: int| 0 <= a < t.len() && #[trigger] t[a].public_key@ == q;
                            assert(s[a].public_key@ == q);
                        }
                        if registered(s, q) {
                            let a = choose|a: int| 0 <= a < s.len() && #[trigger] s[a].public_key@ == q;
                            assert(t[a].public_key@ == q);
                        }
                    }
                    assert forall|q: Seq<u8>| registered(t, q) implies #[trigger] registry_of(t)[q]
                        == expected[q] by {
                        let a = choose|a: int| 0 <= a < t.len() && #[trigger] t[a].public_key@ == q;
                        lemma_registry_at(t, a);
                        if q != k {
                            assert(a != i);
                            assert(t[a] == s[a]);
                            lemma_registry_at(s, a);
                        }
                    }
                    assert(registry_of(t) =~= expected);
                }
            },
            None => {
                self.identities.push(record);
                proof {
                    let t = self.identities@;
                    assert(t == s.push(record));
                    assert forall|a: int, b: int|
                        0 <= a < t.len() && 0 <= b < t.len() && #[trigger] t[a].public_key@
                            == #[trigger] t[b].public_key@ implies a == b by {
                        if a < s.len() && b == s.len() {
                            assert(s[a].public_key@ == k);
                        }
                        if b < s.len() && a == s.len() {
                            assert(s[b].public_key@ == k);
                        }
                    }
                    let expected = registry_of(s).insert(k, record@);
                    assert forall|q: Seq<u8>| #[trigger] registered(t, q) == expected.contains_key(q) by {
                        if registered(t, q) && q != k {
                            let a = choose|a: int| 0 <= a < t.len() && #[trigger] t[a].public_key@ == q;
                            assert(a < s.len());
                            assert(s[a].public_key@ == q);
                        }
                        if registered(s, q) {
                            let a = choose|a: int| 0 <= a < s.len() && #[trigger] s[a].public_key@ == q;
                            assert(t[a].public_key@ == q);
                        }
                        if q == k {
                            assert(t[s.len() as int].public_key@ == q);
                        }
                    }
                    assert forall|q: Seq<u8>| registered(t, q) implies #[trigger] registry_of(t)[q]
                        == expected[q] by {
                        let a = choose|a: int| 0 <= a < t.len() && #[trigger] t[a].public_key@ == q;
                        lemma_registry_at(t, a);
                        if q != k {
                            assert(a != s.len());
                            assert(t[a] == s[a]);
                            lemma_registry_at(s, a);
                        }
                    }
                    assert(registry_of(t) =~= expected);
                }
            },
        }
        Ok(Event::IdentitySubmitted(who))
    }

    /// Records the storage size `who` reported, replacing its last report.
    pub fn submit_config_complete(&mut self, who: AccountId, reported_storage_size: u128) -> (r:
        Event)
        requires
            old(self).wf(),
        ensures
            final(self).wf(),
            final(self)@ == (LedgerView {
                stats: old(self)@.stats.insert(who, reported_storage_size),
                ..old(self)@
            }),
            r == Event::ConfigurationSyncSubmitted(who),
    {
        self.stats.insert(who, reported_storage_size);
        Event::ConfigurationSyncSubmitted(who)
    }

    /// Applies the completion report of custodian `who` for `cmd` to the
    /// store. A report for a command that is no longer queued for `who`
    /// is a silent no-op, so redundant reports of racing workers are safe.
    pub fn submit_ingestion_completed(
        &self,
        store: &mut Store,
        who: AccountId,
        cmd: &IngestionCommand,
    ) -> (r: Result<Option<AssetId>, StoreError>)
        ensures
            (final(store)@, r) == finalize_spec(old(store)@, who, cmd@),
            old(store).wf() ==> final(store).wf(),
    {
        if !store.contains_request(who, cmd) {
            return Ok(None);
        }
        store.create_asset_class(who, cmd)
    }
}

/// Every how many ticks the worker checks that its storage daemon is
/// reachable.
pub const LIVENESS_PERIOD: u64 = 5;

/// Which steps the worker runs on one tick.
#[derive(PartialEq, Eq, Structural, Clone, Copy, Debug)]
pub struct TickPlan {
    /// push the ledger's storage quota to the daemon and report usage
    pub sync_config: bool,
    /// process the ingestion queue addressed to this node
    pub process_ingestion: bool,
    /// process the pending release commands
    pub process_ejection: bool,
}

/// The periodic worker of one node: what it last learnt of its storage
/// daemon, and the account that controls that daemon.
pub struct Worker {
    pub config_period: u32,
    /// whether the daemon answered the last liveness check
    pub daemon_available: bool,
    /// account associated on the ledger with the daemon's key
    pub account: Option<AccountId>,
}

/// Whether the daemon-dependent steps may run: the daemon answered, its
/// key is associated with an account, and the node is an active validator.
pub open spec fn worker_ready(w: Worker, is_validator: bool) -> bool {
    w.daemon_available && w.account.is_some() && is_validator
}

impl Worker {
    /// A worker that has not checked its daemon yet.
    pub fn new(config: &Config) -> (r: Worker)
        ensures
            r.config_period == config.node_config_block_duration,
            !r.daemon_available,
            r.account.is_none(),
    {
        Worker { config_period: config.node_config_block_duration, daemon_available: false, account: None }
    }

    /// Whether tick `block_number` checks that the daemon is reachable.
    pub fn liveness_due(block_number: u64) -> (r: bool)
        ensures
            r == (block_number % LIVENESS_PERIOD == 0),
    {
        block_number % LIVENESS_PERIOD == 0
    }

    /// Records the outcome of a liveness check: the daemon's public key,
    /// or `None` when it did not answer. Without an answer every step
    /// that needs the daemon is skipped until a later check succeeds.
    pub fn record_liveness(&mut self, ledger: &Pallet, identity: Option<&Vec<u8>>)
        requires
            ledger.wf(),
        ensures
            final(self).config_period == old(self).config_period,
            final(self).daemon_available == identity.is_some(),
            final(self).account == match identity {
                None => None,
                Some(k) => if ledger@.identities.contains_key(k@) {
                    Some(ledger@.identities[k@].account)
                } else {
                    None
                },
            },
    {
        match identity {
            None => {
                self.daemon_available = false;
                self.account = None;
            },
            Some(k) => {
                self.daemon_available = true;
                self.account = ledger.account_of(k);
            },
        }
    }

    /// The steps of tick `block_number`: configuration sync every
    /// `config_period` ticks, ingestion and release processing on every
    /// tick, each only when the worker is ready.
    pub fn offchain_worker(&self, block_number: u64, is_validator: bool) -> (r: TickPlan)
        ensures
            r.sync_config == (worker_ready(*self, is_validator) && self.config_period != 0
                && block_number % (self.config_period as u64) == 0),
            r.process_ingestion == worker_ready(*self, is_validator),
            r.process_ejection == worker_ready(*self, is_validator),
    {
        let ready = self.daemon_available && self.account.is_some() && is_validator;
        let sync_due = self.config_period != 0 && block_number % (self.config_period as u64) == 0;
        TickPlan { sync_config: ready && sync_due, process_ingestion: ready, process_ejection: ready }
    }
}

/// Where the processing of one queued ingestion command stands.
#[derive(PartialEq, Eq, Structural, Clone, Copy, Debug)]
pub enum IngestionStep {
    /// connect to the command's locator
    Connect,
    /// fetch the content
    Fetch,
    /// leave the locator; `fetched` says whether the content arrived
    Disconnect { fetched: bool },
    /// submit the completion report
    Report,
    /// give up for this tick; the command stays queued
    Skip,
    /// finished
    Done,
}

/// The step after `step`, whose outside work `succeeded` or not.
pub open spec fn next_step_spec(step: IngestionStep, succeeded: bool) -> IngestionStep {
    match step {
        IngestionStep::Connect => if succeeded {
            IngestionStep::Fetch
        } else {
            IngestionStep::Skip
        },
        IngestionStep::Fetch => IngestionStep::Disconnect { fetched: succeeded },
        IngestionStep::Disconnect { fetched } => if fetched {
            IngestionStep::Report
        } else {
            IngestionStep::Skip
        },
        IngestionStep::Report => IngestionStep::Done,
        IngestionStep::Skip => IngestionStep::Skip,
        IngestionStep::Done => IngestionStep::Done,
    }
}

/// Whether `step` is the end of a command's processing for this tick.
pub open spec fn is_final(step: IngestionStep) -> bool {
    step == IngestionStep::Skip || step == IngestionStep::Done
}

impl IngestionStep {
    /// The step after this one, given whether its outside work succeeded.
    /// A transport failure before the content arrived skips the command
    /// for this tick; a failed disconnect or report does not.
    pub fn next(self, succeeded: bool) -> (r: IngestionStep)
        ensures
            r == next_step_spec(self, succeeded),
    {
        match self {
            IngestionStep::Connect => if succeeded {
                IngestionStep::Fetch
            } else {
                IngestionStep::Skip
            },
            IngestionStep::Fetch => IngestionStep::Disconnect { fetched: succeeded },
            IngestionStep::Disconnect { fetched } => if fetched {
                IngestionStep::Report
            } else {
                IngestionStep::Skip
            },
            IngestionStep::Report => IngestionStep::Done,
            IngestionStep::Skip => IngestionStep::Skip,
            IngestionStep::Done => IngestionStep::Done,
        }
    }
}

/// A report is submitted only after the content arrived: a command whose
/// processing reports went through a successful fetch.
pub proof fn lemma_report_needs_fetch(step: IngestionStep, succeeded: bool)
    ensures
        next_step_spec(step, succeeded) == IngestionStep::Report ==> step
            == (IngestionStep::Disconnect { fetched: true }),
        next_step_spec(step, succeeded) == (IngestionStep::Disconnect { fetched: true }) ==> step
            == IngestionStep::Fetch && succeeded,
        is_final(step) ==> next_step_spec(step, succeeded) == step,
{
}

/// Decimal digits of `n`, in ASCII.
pub open spec fn decimal(n: nat) -> Seq<u8>
    decreases n,
{
    if n < 10 {
        seq![(48 + n) as u8]
    } else {
        decimal(n / 10).push((48 + n % 10) as u8)
    }
}

/// Appends the decimal digits of `n` to `out`.
fn push_decimal(n: u128, out: &mut Vec<u8>)
    ensures
        final(out)@ == old(out)@ + decimal(n as nat),
    decreases n,
{
    if n >= 10 {
        push_decimal(n / 10, out);
    }
    let digit: u8 = (48 + n % 10) as u8;
    out.push(digit);
    proof {
        if n >= 10 {
            assert(final(out)@ =~= old(out)@ + decimal(n as nat));
        } else {
            assert(final(out)@ =~= old(out)@ + decimal(n as nat));
        }
    }
}

/// A request to set one configuration item of the storage daemon.
pub struct IpfsConfigRequest {
    pub key: IpfsConfigKey,
    pub value: Vec<u8>,
    pub boolean: Option<bool>,
    pub json: Option<bool>,
}

/// The request that sets the daemon's storage quota to the
/// `storage_max_gb` that the ledger asks of the node.
pub fn ipfs_update_configs(storage_max_gb: u128) -> (r: IpfsConfigRequest)
    ensures
        r.key == IpfsConfigKey::StorageMax,
        r.value@ == decimal(storage_max_gb as nat),
        r.boolean.is_none(),
        r.json.is_none(),
{
    let mut value: Vec<u8> = Vec::new();
    push_decimal(storage_max_gb, &mut value);
    assert(value@ =~= decimal(storage_max_gb as nat));
    IpfsConfigRequest { key: IpfsConfigKey::StorageMax, value, boolean: None, json: None }
}

/// Abstract value of a [`Release`].
pub struct ReleaseView {
    pub requester: AccountId,
    pub asset_id: AssetId,
    pub cid: Seq<u8>,
}

/// A release the worker can serve now: the content `cid` of asset
/// `asset_id` goes to the retrieval cache for `requester`.
pub struct Release {
    pub requester: AccountId,
    pub asset_id: AssetId,
    pub cid: Vec<u8>,
}

impl View for Release {
    type V = ReleaseView;

    open spec fn view(&self) -> ReleaseView {
        ReleaseView { requester: self.requester, asset_id: self.asset_id, cid: self.cid@ }
    }
}

/// Abstract value of a sequence of releases.
pub open spec fn releases_view(s: Seq<Release>) -> Seq<ReleaseView> {
    s.map_values(|r: Release| r@)
}

/// The releases that can be served of `reqs`, in order: those whose
/// asset has metadata. The others are deferred, as their metadata may
/// still arrive.
pub open spec fn servable(assets: Map<AssetId, AssetMetadataView>, reqs: Seq<ReleaseRequest>) -> Seq<
    ReleaseView,
>
    decreases reqs.len(),
{
    if reqs.len() == 0 {
        Seq::empty()
    } else {
        let prev = servable(assets, reqs.drop_last());
        let q = reqs.last();
        if assets.contains_key(q.asset_id) {
            prev.push(
                ReleaseView {
                    requester: q.requester,
                    asset_id: q.asset_id,
                    cid: assets[q.asset_id].cid,
                },
            )
        } else {
            prev
        }
    }
}

/// The releases of `requests` that the worker can serve from the
/// metadata registered in `store`, in queue order.
pub fn plan_releases(store: &Store, requests: &Vec<ReleaseRequest>) -> (r: Vec<Release>)
    ensures
        releases_view(r@) == servable(store@.assets, requests@),
{
    let mut out: Vec<Release> = Vec::new();
    let mut i: usize = 0;
    while i < requests.len()
        invariant
            0 <= i <= requests@.len(),
            releases_view(out@) == servable(store@.assets, requests@.subrange(0, i as int)),
        decreases requests@.len() - i,
    {
        let q = requests[i];
        let ghost before = out@;
        proof {
            assert(requests@.subrange(0, i + 1).drop_last() =~= requests@.subrange(0, i as int));
        }
        match store.get(q.asset_id) {
            Some(meta) => {
                out.push(Release { requester: q.requester, asset_id: q.asset_id, cid: meta.cid });
                proof {
                    assert(releases_view(out@) =~= releases_view(before).push(out@.last()@));
                }
            },
            None => {},
        }
        i = i + 1;
    }
    assert(requests@.subrange(0, requests@.len() as int) =~= requests@);
    out
}

} // verus!
