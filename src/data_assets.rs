//! Queue store and result handler: the per-custodian ingestion queues,
//! the staging map of encrypted-but-unregistered datasets, and the
//! registry of asset metadata.
use std::collections::HashMap;
use vstd::prelude::*;

use crate::pre::{
    decrypt_fragment, fragment_outcome, recombine, recombine_outcome, too_few, PreError,
};
use crate::primitives::{
    bytes_view, commands_view, contains_command, copy_bytes, copy_commands, lemma_remove_value_absent,
    remove_first, AccountId, AssetId, Balance,
    EncryptedFragment, IngestionCommand, IngestionCommandView,
};

verus! {

broadcast use vstd::std_specs::hash::group_hash_axioms;

/// Abstract value of an [`AssetMetadata`].
pub struct AssetMetadataView {
    pub cid: Seq<u8>,
    pub public_key: Seq<u8>,
}

/// Metadata of a registered asset class.
pub struct AssetMetadata {
    /// the content identifier of the data
    pub cid: Vec<u8>,
    /// the public key associated with the encryption artifacts
    pub public_key: Vec<u8>,
}

impl View for AssetMetadata {
    type V = AssetMetadataView;

    open spec fn view(&self) -> AssetMetadataView {
        AssetMetadataView { cid: self.cid@, public_key: self.public_key@ }
    }
}

impl AssetMetadata {
    /// A copy of this record.
    pub fn duplicate(&self) -> (r: AssetMetadata)
        ensures
            r@ == self@,
    {
        AssetMetadata { cid: copy_bytes(&self.cid), public_key: copy_bytes(&self.public_key) }
    }
}

/// Capsules and encrypted secret key that let a delegatee recover the
/// key of a dataset.
pub struct SecretStuff {
    pub data_capsule: Vec<u8>,
    pub sk_capsule: Vec<u8>,
    pub sk_ciphertext: Vec<u8>,
}

/// A capsule together with the ciphertext it was produced with.
pub struct EncryptedData {
    pub capsule: Vec<u8>,
    pub ciphertext: Vec<u8>,
}

/// A request by `caller` to recover the capsule tied to `public_key`.
pub struct CapsuleRecoveryRequest {
    pub caller: AccountId,
    pub public_key: Vec<u8>,
}

/// Events recorded by the queue store.
#[derive(PartialEq, Eq, Structural, Clone, Copy, Debug)]
pub enum Event {
    /// A request to add bytes was queued.
    CreatedIngestionRequest,
}

/// Failures of the queue store.
#[derive(PartialEq, Eq, Structural, Clone, Copy, Debug)]
pub enum Error {
    /// A new asset class could not be created: the identifiers are exhausted.
    CantCreateAssetClass,
}

/// Initial configuration of the store.
pub struct GenesisConfig {
    pub initial_asset_id: AssetId,
    pub delay: u32,
}

impl Default for GenesisConfig {
    /// The configuration a fresh network starts from.
    fn default() -> (r: GenesisConfig)
        ensures
            r.initial_asset_id == 2,
            r.delay == 10,
    {
        GenesisConfig { initial_asset_id: 2, delay: 10 }
    }
}

/// A request that the content of asset `asset_id` be released to
/// `requester`.
#[derive(PartialEq, Eq, Structural, Clone, Copy, Debug)]
pub struct ReleaseRequest {
    pub requester: AccountId,
    pub asset_id: AssetId,
}

/// Abstract state of the store.
pub struct StoreView {
    /// ingestion queue of each custodian that has one
    pub queues: Map<AccountId, Seq<IngestionCommandView>>,
    /// owner to public key of the dataset staged but not yet registered
    pub staging: Map<AccountId, Seq<u8>>,
    /// registered assets
    pub assets: Map<AssetId, AssetMetadataView>,
    /// identifier that the next registered asset receives
    pub next_asset_id: AssetId,
    /// number of blocks a request's bond stays locked
    pub delay: u32,
    /// the global queue of release requests, in order of submission
    pub releases: Seq<ReleaseRequest>,
}

/// The ingestion queue of custodian `g`; empty when it has none.
pub open spec fn queue_of(s: StoreView, g: AccountId) -> Seq<IngestionCommandView> {
    if s.queues.contains_key(g) {
        s.queues[g]
    } else {
        Seq::empty()
    }
}

/// `c` appended to the queue of custodian `g`.
pub open spec fn enqueue_spec(s: StoreView, g: AccountId, c: IngestionCommandView) -> StoreView {
    StoreView { queues: s.queues.insert(g, queue_of(s, g).push(c)), ..s }
}

/// The first entry equal to `c` removed from the queue of `g`; the
/// state unchanged when the queue holds no such entry.
pub open spec fn remove_spec(s: StoreView, g: AccountId, c: IngestionCommandView) -> StoreView {
    if queue_of(s, g).contains(c) {
        StoreView { queues: s.queues.insert(g, queue_of(s, g).remove_value(c)), ..s }
    } else {
        s
    }
}

/// `public_key` staged for `owner`, replacing what was staged before.
pub open spec fn stage_spec(s: StoreView, owner: AccountId, public_key: Seq<u8>) -> StoreView {
    StoreView { staging: s.staging.insert(owner, public_key), ..s }
}

/// Outcome of a completion report by custodian `who` for command `c`:
/// the new state and the identifier of the asset registered, if any.
///
/// A report registers an asset only when `c` is still queued for `who`
/// and its owner has a staged dataset; it then consumes the staged key
/// and the first queued copy of `c`. Any other report changes nothing.
pub open spec fn finalize_spec(s: StoreView, who: AccountId, c: IngestionCommandView) -> (
    StoreView,
    Result<Option<AssetId>, Error>,
) {
    if !queue_of(s, who).contains(c) || !s.staging.contains_key(c.owner) {
        (s, Ok(None))
    } else if s.next_asset_id == u32::MAX {
        (s, Err(Error::CantCreateAssetClass))
    } else {
        let id = s.next_asset_id;
        (
            StoreView {
                queues: s.queues.insert(who, queue_of(s, who).remove_value(c)),
                staging: s.staging.remove(c.owner),
                assets: s.assets.insert(
                    id,
                    AssetMetadataView { cid: c.cid, public_key: s.staging[c.owner] },
                ),
                next_asset_id: (id + 1) as u32,
                delay: s.delay,
                releases: s.releases,
            },
            Ok(Some(id)),
        )
    }
}

/// Every registered asset lies below the identifier handed out next.
pub open spec fn ids_below_next(s: StoreView) -> bool {
    forall|id: AssetId| #[trigger] s.assets.contains_key(id) ==> id < s.next_asset_id
}

/// A registered asset is never overwritten: a completion report keeps
/// every earlier record as it was, and keeps identifiers below the next.
pub proof fn lemma_registered_assets_are_immutable(
    s: StoreView,
    who: AccountId,
    c: IngestionCommandView,
)
    requires
        ids_below_next(s),
    ensures
        ids_below_next(finalize_spec(s, who, c).0),
        forall|id: AssetId| #[trigger]
            s.assets.contains_key(id) ==> finalize_spec(s, who, c).0.assets.contains_key(id)
                && finalize_spec(s, who, c).0.assets[id] == s.assets[id],
{
}

/// Completion of a command takes effect at most once: of two reports
/// for the same command, by the same or by different custodians, at most
/// one changes the store, and once one has registered an asset the other
/// is a no-op.
pub proof fn lemma_completion_at_most_once(
    s: StoreView,
    w1: AccountId,
    w2: AccountId,
    c: IngestionCommandView,
)
    ensures
        finalize_spec(s, w1, c).0 == s || finalize_spec(finalize_spec(s, w1, c).0, w2, c).0
            == finalize_spec(s, w1, c).0,
        finalize_spec(s, w1, c).1 matches Ok(Some(_)) ==> finalize_spec(
            finalize_spec(s, w1, c).0,
            w2,
            c,
        ) == (finalize_spec(s, w1, c).0, Ok::<Option<AssetId>, Error>(None)),
        ids_below_next(s) ==> (finalize_spec(s, w1, c).1 matches Ok(Some(id)) ==> !s.assets.contains_key(id)
            && finalize_spec(s, w1, c).0.assets.dom() == s.assets.dom().insert(id)
            && finalize_spec(s, w1, c).0.next_asset_id == id + 1),
{
    if ids_below_next(s) {
        if let Ok(Some(id)) = finalize_spec(s, w1, c).1 {
            assert(finalize_spec(s, w1, c).0.assets.dom() =~= s.assets.dom().insert(id));
        }
    }
}

/// Staging twice for one owner keeps only the second key: the same
/// store as staging the second key alone.
pub proof fn lemma_staging_overwrites(
    s: StoreView,
    owner: AccountId,
    k1: Seq<u8>,
    k2: Seq<u8>,
)
    ensures
        stage_spec(stage_spec(s, owner, k1), owner, k2) == stage_spec(s, owner, k2),
        stage_spec(stage_spec(s, owner, k1), owner, k2).staging[owner] == k2,
{
    assert(stage_spec(stage_spec(s, owner, k1), owner, k2).staging =~= stage_spec(
        s,
        owner,
        k2,
    ).staging);
}

/// Removing, or reporting completion of, a command that is not queued
/// leaves the store as it was.
pub proof fn lemma_absent_command_is_noop(s: StoreView, g: AccountId, c: IngestionCommandView)
    requires
        !queue_of(s, g).contains(c),
    ensures
        remove_spec(s, g, c) == s,
        finalize_spec(s, g, c) == (s, Ok::<Option<AssetId>, Error>(None)),
{
}

/// A command queued twice by accident on a queue that did not hold it,
/// and reported twice, yields one asset: the first report registers it, the second changes nothing, and
/// one copy of the command stays queued.
pub proof fn lemma_duplicate_enqueue_registers_once(
    s: StoreView,
    g: AccountId,
    c: IngestionCommandView,
)
    requires
        !queue_of(s, g).contains(c),
        s.staging.contains_key(c.owner),
        s.next_asset_id < u32::MAX,
    ensures
        ({
            let s1 = enqueue_spec(enqueue_spec(s, g, c), g, c);
            let (s2, r2) = finalize_spec(s1, g, c);
            let (s3, r3) = finalize_spec(s2, g, c);
            &&& r2 == Ok::<Option<AssetId>, Error>(Some(s.next_asset_id))
            &&& r3 == Ok::<Option<AssetId>, Error>(None)
            &&& s3 == s2
            &&& s3.assets == s.assets.insert(
                s.next_asset_id,
                AssetMetadataView { cid: c.cid, public_key: s.staging[c.owner] },
            )
            &&& queue_of(s3, g) == queue_of(s, g).push(c)
            &&& s3.next_asset_id == s.next_asset_id + 1
            &&& ids_below_next(s) ==> !s3.assets.contains_key(s3.next_asset_id)
        }),
{
    let q = queue_of(s, g);
    let s1 = enqueue_spec(enqueue_spec(s, g, c), g, c);
    let q2 = q.push(c).push(c);
    assert(queue_of(s1, g) == q2);
    assert(q2[q.len() as int] == c);
    assert(q2.contains(c));
    q2.index_of_first_ensures(c);
    let k = q2.index_of_first(c).unwrap();
    assert(k == q.len()) by {
        if k < q.len() {
            assert(q[k] == q2[k]);
            assert(q.contains(c));
        }
    }
    assert(q2.remove(k) =~= q.push(c));
}

/// The ledger-side store of ingestion commands, staged datasets and
/// registered assets. Every operation is one all-or-nothing update.
pub struct Pallet {
    ingestion_commands: HashMap<AccountId, Vec<IngestionCommand>>,
    next_asset_id: AssetId,
    metadata: HashMap<AssetId, AssetMetadata>,
    delay: u32,
    ingestion_staging: HashMap<AccountId, Vec<u8>>,
    release_requests: Vec<ReleaseRequest>,
}

impl View for Pallet {
    type V = StoreView;

    closed spec fn view(&self) -> StoreView {
        StoreView {
            queues: self.ingestion_commands@.map_values(
                |v: Vec<IngestionCommand>| commands_view(v@),
            ),
            staging: self.ingestion_staging@.map_values(|v: Vec<u8>| v@),
            assets: self.metadata@.map_values(|m: AssetMetadata| m@),
            next_asset_id: self.next_asset_id,
            delay: self.delay,
            releases: self.release_requests@,
        }
    }
}

impl Pallet {
    /// Validity of the store: every registered asset lies below the
    /// identifier handed out next, so a newly registered identifier is
    /// fresh.
    pub open spec fn wf(&self) -> bool {
        ids_below_next(self@)
    }

    /// A store built from its genesis configuration: no queues, nothing
    /// staged, no assets.
    pub fn new(config: &GenesisConfig) -> (r: Pallet)
        ensures
            r@.queues == Map::<AccountId, Seq<IngestionCommandView>>::empty(),
            r@.staging == Map::<AccountId, Seq<u8>>::empty(),
            r@.assets == Map::<AssetId, AssetMetadataView>::empty(),
            r@.next_asset_id == config.initial_asset_id,
            r@.delay == config.delay,
            r@.releases == Seq::<ReleaseRequest>::empty(),
            r.wf(),
    {
        let r = Pallet {
            ingestion_commands: HashMap::new(),
            next_asset_id: config.initial_asset_id,
            metadata: HashMap::new(),
            delay: config.delay,
            ingestion_staging: HashMap::new(),
            release_requests: Vec::new(),
        };
        proof {
            assert(r@.queues =~= Map::<AccountId, Seq<IngestionCommandView>>::empty());
            assert(r@.staging =~= Map::<AccountId, Seq<u8>>::empty());
            assert(r@.assets =~= Map::<AssetId, AssetMetadataView>::empty());
        }
        r
    }

    /// Number of blocks a request's bond stays locked.
    pub fn delay(&self) -> (r: u32)
        ensures
            r == self@.delay,
    {
        self.delay
    }

    /// Identifier that the next registered asset receives.
    pub fn next_asset_id(&self) -> (r: AssetId)
        ensures
            r == self@.next_asset_id,
    {
        self.next_asset_id
    }

    /// Takes the key staged for `owner` out of the staging map.
    pub fn take_staged(&mut self, owner: AccountId) -> (r: Option<Vec<u8>>)
        ensures
            old(self).wf() ==> final(self).wf(),
            r.is_some() == old(self)@.staging.contains_key(owner),
            r matches Some(k) ==> k@ == old(self)@.staging[owner],
            final(self)@ == (StoreView { staging: old(self)@.staging.remove(owner), ..old(self)@ }),
    {
        let r = self.ingestion_staging.remove(&owner);
        proof {
            assert(self@.staging =~= old(self)@.staging.remove(owner));
        }
        r
    }

    /// Appends a request to release asset `asset_id` to `requester`.
    pub fn request_release(&mut self, requester: AccountId, asset_id: AssetId)
        ensures
            old(self).wf() ==> final(self).wf(),
            final(self)@ == (StoreView {
                releases: old(self)@.releases.push(ReleaseRequest { requester, asset_id }),
                ..old(self)@
            }),
    {
        self.release_requests.push(ReleaseRequest { requester, asset_id });
    }

    /// The pending release requests, in order of submission.
    pub fn release_requests(&self) -> (r: Vec<ReleaseRequest>)
        ensures
            r@ == self@.releases,
    {
        let mut r: Vec<ReleaseRequest> = Vec::new();
        let mut i: usize = 0;
        while i < self.release_requests.len()
            invariant
                0 <= i <= self.release_requests@.len(),
                r@ == self.release_requests@.subrange(0, i as int),
            decreases self.release_requests@.len() - i,
        {
            r.push(self.release_requests[i]);
            i = i + 1;
            assert(r@ =~= self.release_requests@.subrange(0, i as int));
        }
        assert(r@ =~= self.release_requests@);
        r
    }

    /// Marks `req` as served: removes its first pending copy. A request
    /// that is no longer pending is a no-op.
    pub fn complete_release(&mut self, req: ReleaseRequest) -> (found: bool)
        ensures
            old(self).wf() ==> final(self).wf(),
            found == old(self)@.releases.contains(req),
            final(self)@ == (StoreView {
                releases: old(self)@.releases.remove_value(req),
                ..old(self)@
            }),
    {
        let ghost s = self.release_requests@;
        let mut i: usize = 0;
        while i < self.release_requests.len()
            invariant
                self@ == old(self)@,
                s == self.release_requests@,
                0 <= i <= s.len(),
                forall|j: int| 0 <= j < i ==> s[j] != req,
            decreases s.len() - i,
        {
            if self.release_requests[i] == req {
                proof {
                    s.index_of_first_ensures(req);
                    assert(s[i as int] == req);
                }
                self.release_requests.remove(i);
                proof {
                    assert(self@.assets == old(self)@.assets);
                    assert(self@.next_asset_id == old(self)@.next_asset_id);
                }
                return true;
            }
            i = i + 1;
        }
        proof {
            if s.contains(req) {
                let k = choose|k: int| 0 <= k < s.len() && s[k] == req;
                assert(s[k] == req);
            }
            lemma_remove_value_absent(s, req);
        }
        false
    }

    /// Empties the release queue at once, handing its requests to the
    /// caller in order.
    pub fn drain_release_requests(&mut self) -> (r: Vec<ReleaseRequest>)
        ensures
            old(self).wf() ==> final(self).wf(),
            r@ == old(self)@.releases,
            final(self)@ == (StoreView { releases: Seq::<ReleaseRequest>::empty(), ..old(self)@ }),
    {
        let r = self.release_requests.split_off(0);
        assert(self@.releases =~= Seq::<ReleaseRequest>::empty());
        r
    }

    /// Takes the queue of `g` out of the map, leaving the map without it.
    fn take_queue(&mut self, g: AccountId) -> (r: Vec<IngestionCommand>)
        ensures
            commands_view(r@) == queue_of(old(self)@, g),
            final(self)@ == (StoreView { queues: old(self)@.queues.remove(g), ..old(self)@ }),
    {
        let r = match self.ingestion_commands.remove(&g) {
            Some(v) => v,
            None => Vec::new(),
        };
        proof {
            assert(self@.queues =~= old(self)@.queues.remove(g));
            if !old(self)@.queues.contains_key(g) {
                assert(commands_view(r@) =~= Seq::<IngestionCommandView>::empty());
            }
        }
        r
    }

    /// Puts `v` back as the queue of `g`.
    fn put_queue(&mut self, g: AccountId, v: Vec<IngestionCommand>)
        ensures
            final(self)@ == (StoreView {
                queues: old(self)@.queues.insert(g, commands_view(v@)),
                ..old(self)@
            }),
    {
        self.ingestion_commands.insert(g, v);
        proof {
            assert(self@.queues =~= old(self)@.queues.insert(g, commands_view(v@)));
        }
    }

    /// Appends an ingestion request of `who` to the queue of custodian
    /// `gateway`. Duplicates are kept: they are reconciled when
    /// completion is reported.
    pub fn create_request(
        &mut self,
        who: AccountId,
        gateway: AccountId,
        cid: Vec<u8>,
        multiaddress: Vec<u8>,
        estimated_size_gb: u128,
        min_asset_balance: Balance,
    ) -> (r: Event)
        ensures
            old(self).wf() ==> final(self).wf(),
            final(self)@ == enqueue_spec(
                old(self)@,
                gateway,
                IngestionCommandView {
                    owner: who,
                    cid: cid@,
                    multiaddress: multiaddress@,
                    estimated_size_gb,
                    balance: min_asset_balance,
                },
            ),
            r == Event::CreatedIngestionRequest,
    {
        let cmd = IngestionCommand {
            owner: who,
            cid,
            multiaddress,
            estimated_size_gb,
            balance: min_asset_balance,
        };
        let mut commands = self.take_queue(gateway);
        let ghost before = commands@;
        commands.push(cmd);
        proof {
            assert(commands_view(commands@) =~= commands_view(before).push(cmd@));
        }
        self.put_queue(gateway, commands);
        proof {
            assert(self@.queues =~= enqueue_spec(old(self)@, gateway, cmd@).queues);
        }
        Event::CreatedIngestionRequest
    }

    /// Removes the first queued command of `gateway` equal to `cmd`.
    /// Removing a command that is not queued changes nothing.
    pub fn remove_request(&mut self, gateway: AccountId, cmd: &IngestionCommand) -> (found: bool)
        ensures
            old(self).wf() ==> final(self).wf(),
            found == queue_of(old(self)@, gateway).contains(cmd@),
            final(self)@ == remove_spec(old(self)@, gateway, cmd@),
    {
        if !self.ingestion_commands.contains_key(&gateway) {
            return false;
        }
        let mut commands = self.take_queue(gateway);
        let found = remove_first(&mut commands, cmd);
        if found {
            self.put_queue(gateway, commands);
            proof {
                assert(self@.queues =~= remove_spec(old(self)@, gateway, cmd@).queues);
            }
        } else {
            proof {
                lemma_remove_value_absent(queue_of(old(self)@, gateway), cmd@);
            }
            self.put_queue(gateway, commands);
            proof {
                assert(self@.queues =~= old(self)@.queues);
                assert(self@ == old(self)@);
            }
        }
        found
    }

    /// Whether custodian `gateway` has a queued command equal to `cmd`.
    pub fn contains_request(&self, gateway: AccountId, cmd: &IngestionCommand) -> (r: bool)
        ensures
            r == queue_of(self@, gateway).contains(cmd@),
    {
        match self.ingestion_commands.get(&gateway) {
            Some(v) => contains_command(v, cmd),
            None => false,
        }
    }

    /// Cancels a request of `who` before it is served: removes the first
    /// copy of `cmd` queued for `gateway`. Only the owner of a request may
    /// cancel it; any other call changes nothing.
    pub fn kill_request(&mut self, who: AccountId, gateway: AccountId, cmd: &IngestionCommand) -> (r:
        bool)
        ensures
            old(self).wf() ==> final(self).wf(),
            r == (cmd.owner == who && queue_of(old(self)@, gateway).contains(cmd@)),
            final(self)@ == if cmd.owner == who {
                remove_spec(old(self)@, gateway, cmd@)
            } else {
                old(self)@
            },
    {
        if cmd.owner != who {
            return false;
        }
        self.remove_request(gateway, cmd)
    }

    /// Hands out the next asset identifier and advances the counter;
    /// `None` when the identifiers are exhausted.
    fn get_and_increment_asset_id(&mut self) -> (r: Option<AssetId>)
        ensures
            old(self)@.next_asset_id == u32::MAX ==> r.is_none() && final(self)@ == old(self)@,
            old(self)@.next_asset_id < u32::MAX ==> r == Some(old(self)@.next_asset_id)
                && final(self)@ == (StoreView {
                next_asset_id: (old(self)@.next_asset_id + 1) as u32,
                ..old(self)@
            }),
    {
        let next = self.next_asset_id;
        if next == u32::MAX {
            return None;
        }
        self.next_asset_id = next + 1;
        Some(next)
    }
}

/// The serialised capsule fragments that the sealed fragments
/// `encrypted` open to with `secret`, in order.
pub open spec fn opened_fragments(encrypted: Seq<EncryptedFragment>, secret: Seq<u8>) -> Seq<
    Seq<u8>,
> {
    Seq::new(
        encrypted.len(),
        |i: int|
            match fragment_outcome(encrypted[i]@, secret) {
                Ok(b) => b,
                Err(_) => Seq::empty(),
            },
    )
}

/// Whether every sealed fragment of `encrypted` opens with `secret` to a
/// capsule fragment.
pub open spec fn all_open(encrypted: Seq<EncryptedFragment>, secret: Seq<u8>) -> bool {
    forall|i: int| 0 <= i < encrypted.len() ==> #[trigger] fragment_outcome(encrypted[i]@, secret) is Ok
}

/// The failure of the first sealed fragment of `encrypted` that does not
/// open with `secret` is `e`.
pub open spec fn first_failure(encrypted: Seq<EncryptedFragment>, secret: Seq<u8>, e: PreError) -> bool {
    exists|i: int|
        0 <= i < encrypted.len() && fragment_outcome(encrypted[i]@, secret) == Err::<Seq<u8>, PreError>(e)
            && forall|j: int| 0 <= j < i ==> #[trigger] fragment_outcome(encrypted[j]@, secret) is Ok
}

impl Pallet {
    /// Recovers every serialised capsule fragment of `encrypted`, in
    /// order; fails with the failure of the first one that cannot be
    /// recovered.
    pub fn decrypt_capsule_fragments(encrypted: &Vec<EncryptedFragment>, secret: &Vec<u8>) -> (r:
        Result<Vec<Vec<u8>>, PreError>)
        ensures
            r is Ok <==> all_open(encrypted@, secret@),
            r matches Ok(v) ==> bytes_view(v@) == opened_fragments(encrypted@, secret@),
            r matches Err(e) ==> first_failure(encrypted@, secret@, e),
    {
        let mut out: Vec<Vec<u8>> = Vec::new();
        let mut i: usize = 0;
        while i < encrypted.len()
            invariant
                0 <= i <= encrypted@.len(),
                forall|j: int| 0 <= j < i ==> #[trigger] fragment_outcome(encrypted@[j]@, secret@) is Ok,
                bytes_view(out@) == opened_fragments(encrypted@, secret@).subrange(0, i as int),
            decreases encrypted@.len() - i,
        {
            match decrypt_fragment(&encrypted[i], secret) {
                Ok(b) => {
                    let ghost before = out@;
                    out.push(b);
                    proof {
                        assert(bytes_view(out@) =~= bytes_view(before).push(b@));
                        assert(opened_fragments(encrypted@, secret@).subrange(0, i + 1) =~= opened_fragments(
                            encrypted@,
                            secret@,
                        ).subrange(0, i as int).push(b@));
                    }
                },
                Err(e) => {
                    return Err(e);
                },
            }
            i = i + 1;
        }
        assert(opened_fragments(encrypted@, secret@).subrange(0, i as int) =~= opened_fragments(
            encrypted@,
            secret@,
        ));
        Ok(out)
    }

    /// Decrypts `ciphertext` as a delegatee: recovers the sealed capsule
    /// fragments with the X25519 secret key `box_secret`, then recombines
    /// them with the serialised umbral secret key `receiving`.
    pub fn decrypt(
        encrypted: &Vec<EncryptedFragment>,
        box_secret: &Vec<u8>,
        receiving: &Vec<u8>,
        delegating: &Vec<u8>,
        capsule: &Vec<u8>,
        threshold: usize,
        ciphertext: &Vec<u8>,
    ) -> (r: Result<Vec<u8>, PreError>)
        ensures
            all_open(encrypted@, box_secret@) ==> match r {
                Ok(p) => recombine_outcome(
                    receiving@,
                    delegating@,
                    capsule@,
                    threshold,
                    opened_fragments(encrypted@, box_secret@),
                    ciphertext@,
                ) == Ok::<Seq<u8>, PreError>(p@),
                Err(e) => recombine_outcome(
                    receiving@,
                    delegating@,
                    capsule@,
                    threshold,
                    opened_fragments(encrypted@, box_secret@),
                    ciphertext@,
                ) == Err::<Seq<u8>, PreError>(e),
            },
            !all_open(encrypted@, box_secret@) ==> r is Err,
            r matches Err(e) ==> first_failure(encrypted@, box_secret@, e) || (all_open(
                encrypted@,
                box_secret@,
            ) && (e == PreError::InsufficientFragments || e == PreError::RecombinationFailed)),
            r is Ok ==> all_open(encrypted@, box_secret@) && !too_few(
                encrypted@.len() as int,
                threshold,
            ),
    {
        let fragments = match Self::decrypt_capsule_fragments(encrypted, box_secret) {
            Ok(v) => v,
            Err(e) => {
                return Err(e);
            },
        };
        recombine(receiving, delegating, capsule, threshold, &fragments, ciphertext)
    }
}

/// Maps a validator identifier to the validator it designates.
pub struct ValidatorOf;

impl ValidatorOf {
    /// Every validator identifier designates itself.
    pub fn convert(account: AccountId) -> (r: Option<AccountId>)
        ensures
            r == Some(account),
    {
        Some(account)
    }
}

/// Read access to the metadata of registered assets.
pub trait MetadataProvider {
    /// Metadata registered under `asset_id`, if any.
    fn get(&self, asset_id: AssetId) -> Option<AssetMetadata>;
}

impl MetadataProvider for Pallet {
    fn get(&self, asset_id: AssetId) -> (r: Option<AssetMetadata>)
        ensures
            r.is_some() == self@.assets.contains_key(asset_id),
            r.is_some() ==> r.unwrap()@ == self@.assets[asset_id],
    {
        match self.metadata.get(&asset_id) {
            Some(m) => Some(m.duplicate()),
            None => None,
        }
    }
}

/// Access to the ingestion queues and the staging map.
pub trait QueueManager {
    /// Stages `public_key` as the dataset of `owner` awaiting registration.
    fn add_ingestion_staging(&mut self, owner: AccountId, public_key: Vec<u8>);

    /// The ingestion commands queued for custodian `gateway`, in order.
    fn ingestion_requests(&self, gateway: AccountId) -> Vec<IngestionCommand>;
}

impl QueueManager for Pallet {
    /// An owner has at most one staged dataset: staging again replaces
    /// the key staged before.
    fn add_ingestion_staging(&mut self, owner: AccountId, public_key: Vec<u8>)
        ensures
            old(self).wf() ==> final(self).wf(),
            final(self)@ == stage_spec(old(self)@, owner, public_key@),
    {
        self.ingestion_staging.insert(owner, public_key);
        proof {
            assert(self@.staging =~= stage_spec(old(self)@, owner, public_key@).staging);
        }
    }

    fn ingestion_requests(&self, gateway: AccountId) -> (r: Vec<IngestionCommand>)
        ensures
            commands_view(r@) == queue_of(self@, gateway),
    {
        match self.ingestion_commands.get(&gateway) {
            Some(v) => copy_commands(v),
            None => {
                let r: Vec<IngestionCommand> = Vec::new();
                proof {
                    assert(commands_view(r@) =~= Seq::<IngestionCommandView>::empty());
                }
                r
            },
        }
    }
}

/// Turns a completed, staged ingestion into a registered asset.
pub trait ResultsHandler {
    /// Registers the dataset staged for `cmd.owner` as an asset, on the
    /// report of custodian `who`.
    fn create_asset_class(&mut self, who: AccountId, cmd: &IngestionCommand) -> Result<
        Option<AssetId>,
        Error,
    >;
}

impl ResultsHandler for Pallet {
    fn create_asset_class(&mut self, who: AccountId, cmd: &IngestionCommand) -> (r: Result<
        Option<AssetId>,
        Error,
    >)
        ensures
            old(self).wf() ==> final(self).wf(),
            (final(self)@, r) == finalize_spec(old(self)@, who, cmd@),
            old(self).wf() ==> (r matches Ok(Some(id)) ==> !old(self)@.assets.contains_key(id)),
    {
        let staged = match self.ingestion_staging.get(&cmd.owner) {
            None => {
                return Ok(None);
            },
            Some(k) => copy_bytes(k),
        };
        if !self.contains_request(who, cmd) {
            return Ok(None);
        }
        let id = match self.get_and_increment_asset_id() {
            None => {
                return Err(Error::CantCreateAssetClass);
            },
            Some(id) => id,
        };
        let ghost mid = self@;
        let meta = AssetMetadata { cid: copy_bytes(&cmd.cid), public_key: staged };
        self.metadata.insert(id, meta);
        self.ingestion_staging.remove(&cmd.owner);
        proof {
            assert(self@.assets =~= mid.assets.insert(id, meta@));
            assert(self@.staging =~= mid.staging.remove(cmd.owner));
            assert(self@.queues =~= mid.queues);
        }
        self.remove_request(who, cmd);
        proof {
            assert(self@.queues =~= finalize_spec(old(self)@, who, cmd@).0.queues);
        }
        Ok(Some(id))
    }
}

} // verus!
