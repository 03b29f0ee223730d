//! Bridge registry: metadata about bridges (connected sets of anchors) and the
//! bridge each resource belongs to, grown from signed anchor-update proposals.
use vstd::prelude::*;
use crate::storage::{
    entries_map, has_key, keys_distinct, lemma_entries_map_at, lemma_entries_map_empty,
    lemma_entries_map_push, lemma_entries_map_update,
};
use crate::proposal::{
    anchor_update_resource_ids, lemma_resource_id_at, resource_id_at, resource_id_eq, Proposal,
    ProposalKind, ResourceId, ANCHOR_UPDATE_PROPOSAL_LENGTH,
};

verus! {

/// Index of a bridge. `0` stands for "no bridge".
pub type BridgeIndex = u32;

/// Descriptive information about a bridge.
pub struct BridgeInfo {
    /// Additional (key, value) fields.
    pub additional: Vec<(Vec<u8>, Vec<u8>)>,
    pub display: Vec<u8>,
}

impl BridgeInfo {
    /// Empty information.
    pub fn empty() -> (r: BridgeInfo)
        ensures
            r.additional@.len() == 0,
            r.display@.len() == 0,
    {
        BridgeInfo { additional: Vec::new(), display: Vec::new() }
    }
}

/// What the registry stores about one bridge.
pub struct BridgeMetadata {
    /// The resources linked by the bridge.
    pub resource_ids: Vec<ResourceId>,
    pub info: BridgeInfo,
}

/// Limits under which the registry runs.
#[derive(Clone, Copy)]
pub struct Config {
    /// Most additional fields a bridge's information may hold.
    pub max_additional_fields: u32,
    /// Most resources a bridge may hold.
    pub max_resources: u32,
}

/// Errors of the registry.
#[derive(PartialEq, Eq, Structural, Clone, Copy, Debug)]
pub enum Error {
    /// Parameters haven't been initialized
    ParametersNotInitialized,
    /// Error during verification
    VerifyError,
    /// Proposal is not signed and should not be processed
    ProposalNotSigned,
    /// Resources map to different bridge indices
    BridgeIndexError,
    /// Too many additional fields.
    TooManyFields,
    /// Bridge does not exist.
    BridgeNotFound,
    /// Too many resources.
    TooManyResources,
    /// Input out of bounds
    OutOfBounds,
}

/// Why a call to the registry was refused.
#[derive(PartialEq, Eq, Structural, Clone, Copy, Debug)]
pub enum DispatchError {
    /// The caller is not the privileged origin.
    BadOrigin,
    /// The registry refused the call.
    Module(Error),
}

/// The registry's storage.
pub struct Pallet {
    config: Config,
    next_bridge_index: BridgeIndex,
    bridges: Vec<(BridgeIndex, BridgeMetadata)>,
    resource_to_bridge_index: Vec<(ResourceId, BridgeIndex)>,
}

/// A bridge respects the registry's bounds.
pub open spec fn bridge_within_bounds(config: Config, b: BridgeMetadata) -> bool {
    &&& b.resource_ids@.len() <= config.max_resources
    &&& b.info.additional@.len() <= config.max_additional_fields
}

/// The bridge index recorded for `r`, or `0` when none is.
pub open spec fn index_or_zero(m: Map<ResourceId, BridgeIndex>, r: ResourceId) -> BridgeIndex {
    if m.contains_key(r) {
        m[r]
    } else {
        0
    }
}

/// The target resource of an anchor-update proposal (its header's resource id).
pub open spec fn anchor_target(data: Seq<u8>) -> ResourceId {
    resource_id_at(data, 0)
}

/// The source resource of an anchor-update proposal.
pub open spec fn anchor_source(data: Seq<u8>) -> ResourceId {
    resource_id_at(data, 72)
}

impl Pallet {
    /// `self` and `other` hold the same storage.
    pub open spec fn same_storage(&self, other: &Pallet) -> bool {
        &&& self.config() == other.config()
        &&& self.next_index() == other.next_index()
        &&& self.bridges_map() == other.bridges_map()
        &&& self.resource_map() == other.resource_map()
    }

    /// Every resource recorded at a bridge index other than `0` is listed by
    /// the bridge stored at that index, and that index was already handed out
    /// (it is below the next index).
    pub open spec fn consistent(&self) -> bool {
        forall|r: ResourceId|
            #[trigger] self.resource_map().contains_key(r) && self.resource_map()[r] != 0 ==> {
                &&& self.resource_map()[r] < self.next_index()
                &&& self.bridges_map().contains_key(self.resource_map()[r])
                &&& self.bridges_map()[self.resource_map()[r]].resource_ids@.contains(r)
            }
    }

    /// Every resource that a stored bridge (other than `0`) lists is recorded
    /// at that bridge: the bridge records agree with the resource map.
    pub open spec fn lists_map_back(&self) -> bool {
        forall|i: BridgeIndex, r: ResourceId|
            i != 0 && #[trigger] self.bridges_map().contains_key(i) && #[trigger] self.bridges_map()[i].resource_ids@.contains(r)
                ==> index_or_zero(self.resource_map(), r) == i
    }

    /// What handling a signed anchor update linking `src` and `dest` does,
    /// taking the registry from `pre` to `post` with result `r`.
    pub open spec fn anchor_update_outcome(
        pre: &Pallet,
        post: &Pallet,
        src: ResourceId,
        dest: ResourceId,
        r: Result<(), DispatchError>,
    ) -> bool {
        let si = index_or_zero(pre.resource_map(), src);
        let di = index_or_zero(pre.resource_map(), dest);
        let n = pre.next_index();
        if si == 0 && di == 0 {
            // Neither resource has a bridge: both join a new bridge at the next index.
            if pre.config().max_resources < 2 {
                r == Err::<(), DispatchError>(DispatchError::Module(Error::OutOfBounds))
            } else {
                &&& r is Ok
                &&& post.next_index() == n + 1
                &&& post.resource_map() == pre.resource_map().insert(src, n).insert(dest, n)
                &&& post.bridges_map() == pre.bridges_map().insert(n, post.bridges_map()[n])
                &&& post.bridges_map()[n].resource_ids@ == seq![src, dest]
                &&& post.bridges_map()[n].info.additional@.len() == 0
                &&& post.bridges_map()[n].info.display@.len() == 0
            }
        } else if si == 0 || di == 0 {
            // One resource has a bridge: the other joins it.
            let (joining, b) = if si == 0 { (src, di) } else { (dest, si) };
            if !pre.bridges_map().contains_key(b) {
                r == Err::<(), DispatchError>(DispatchError::Module(Error::BridgeNotFound))
            } else if pre.bridges_map()[b].resource_ids@.len() >= pre.config().max_resources {
                r == Err::<(), DispatchError>(DispatchError::Module(Error::TooManyResources))
            } else {
                &&& r is Ok
                &&& post.next_index() == n
                &&& post.resource_map() == pre.resource_map().insert(joining, b)
                &&& post.bridges_map() == pre.bridges_map().insert(b, post.bridges_map()[b])
                &&& post.bridges_map()[b].resource_ids@ == pre.bridges_map()[b].resource_ids@.push(joining)
                &&& post.bridges_map()[b].info == pre.bridges_map()[b].info
            }
        } else if si == di {
            // Both already belong to the same bridge.
            r is Ok && post.same_storage(pre)
        } else {
            r == Err::<(), DispatchError>(DispatchError::Module(Error::BridgeIndexError))
        }
    }

    /// The limits of the registry.
    pub closed spec fn config(&self) -> Config {
        self.config
    }

    /// The index the next new bridge receives.
    pub closed spec fn next_index(&self) -> BridgeIndex {
        self.next_bridge_index
    }

    /// The stored bridges, by index.
    pub closed spec fn bridges_map(&self) -> Map<BridgeIndex, BridgeMetadata> {
        entries_map(self.bridges@)
    }

    /// The bridge index recorded for each resource.
    pub closed spec fn resource_map(&self) -> Map<ResourceId, BridgeIndex> {
        entries_map(self.resource_to_bridge_index@)
    }

    /// The storage is well formed: keys are distinct and every stored bridge
    /// respects the bounds.
    pub closed spec fn wf(&self) -> bool {
        &&& keys_distinct(self.bridges@)
        &&& keys_distinct(self.resource_to_bridge_index@)
        &&& forall|i: int|
            0 <= i < self.bridges@.len() ==> bridge_within_bounds(
                self.config,
                #[trigger] self.bridges@[i].1,
            )
    }

    /// Every stored bridge respects the bounds (a consequence of `wf`).
    pub proof fn lemma_wf_bounds(&self)
        requires
            self.wf(),
        ensures
            forall|b: BridgeIndex|
                #[trigger] self.bridges_map().contains_key(b) ==> bridge_within_bounds(
                    self.config(),
                    self.bridges_map()[b],
                ),
    {
        assert forall|b: BridgeIndex| #[trigger] self.bridges_map().contains_key(b) implies bridge_within_bounds(
            self.config(),
            self.bridges_map()[b],
        ) by {
            let i = choose|i: int| 0 <= i < self.bridges@.len() && #[trigger] self.bridges@[i].0 == b;
            lemma_entries_map_at(self.bridges@, i);
        }
    }

    /// Empty storage.
    pub fn new(config: Config) -> (r: Pallet)
        ensures
            r.wf(),
            r.config() == config,
            r.next_index() == 0,
            r.bridges_map() == Map::<BridgeIndex, BridgeMetadata>::empty(),
            r.resource_map() == Map::<ResourceId, BridgeIndex>::empty(),
            r.consistent(),
            r.lists_map_back(),
    {
        proof {
            lemma_entries_map_empty::<BridgeIndex, BridgeMetadata>();
            lemma_entries_map_empty::<ResourceId, BridgeIndex>();
        }
        Pallet {
            config,
            next_bridge_index: 0,
            bridges: Vec::new(),
            resource_to_bridge_index: Vec::new(),
        }
    }

    /// The index the next new bridge receives.
    pub fn next_bridge_index(&self) -> (r: BridgeIndex)
        ensures
            r == self.next_index(),
    {
        self.next_bridge_index
    }

    fn find_bridge(&self, index: BridgeIndex) -> (r: Option<usize>)
        requires
            self.wf(),
        ensures
            match r {
                Some(i) => i < self.bridges@.len() && self.bridges@[i as int].0 == index,
                None => !self.bridges_map().contains_key(index),
            },
    {
        let mut i: usize = 0;
        while i < self.bridges.len()
            invariant
                i <= self.bridges@.len(),
                forall|j: int| 0 <= j < i ==> self.bridges@[j].0 != index,
            decreases self.bridges@.len() - i,
        {
            if self.bridges[i].0 == index {
                return Some(i);
            }
            i = i + 1;
        }
        None
    }

    fn find_resource(&self, r: &ResourceId) -> (res: Option<usize>)
        requires
            self.wf(),
        ensures
            match res {
                Some(i) => i < self.resource_to_bridge_index@.len()
                    && self.resource_to_bridge_index@[i as int].0 == *r,
                None => !self.resource_map().contains_key(*r),
            },
    {
        let mut i: usize = 0;
        while i < self.resource_to_bridge_index.len()
            invariant
                i <= self.resource_to_bridge_index@.len(),
                forall|j: int| 0 <= j < i ==> self.resource_to_bridge_index@[j].0 != *r,
            decreases self.resource_to_bridge_index@.len() - i,
        {
            if resource_id_eq(&self.resource_to_bridge_index[i].0, r) {
                return Some(i);
            }
            i = i + 1;
        }
        None
    }

    /// The bridge index recorded for `r`, or `0` when none is.
    pub fn resource_to_bridge_index(&self, r: &ResourceId) -> (res: BridgeIndex)
        requires
            self.wf(),
        ensures
            res == index_or_zero(self.resource_map(), *r),
    {
        match self.find_resource(r) {
            Some(i) => {
                proof {
                    lemma_entries_map_at(self.resource_to_bridge_index@, i as int);
                }
                self.resource_to_bridge_index[i].1
            },
            None => 0,
        }
    }

    /// The bridge stored at `index`, if any.
    pub fn bridges(&self, index: BridgeIndex) -> (res: Option<&BridgeMetadata>)
        requires
            self.wf(),
        ensures
            match res {
                Some(m) => self.bridges_map().contains_key(index) && *m == self.bridges_map()[index],
                None => !self.bridges_map().contains_key(index),
            },
    {
        match self.find_bridge(index) {
            Some(i) => {
                proof {
                    lemma_entries_map_at(self.bridges@, i as int);
                }
                Some(&self.bridges[i].1)
            },
            None => None,
        }
    }

    /// Whether a bridge is stored at `index`.
    pub fn bridge_exists(&self, index: BridgeIndex) -> (res: bool)
        requires
            self.wf(),
        ensures
            res == self.bridges_map().contains_key(index),
    {
        match self.find_bridge(index) {
            Some(i) => {
                proof {
                    lemma_entries_map_at(self.bridges@, i as int);
                }
                true
            },
            None => false,
        }
    }

    /// Records `index` as the bridge of `r`.
    fn set_resource_index(&mut self, r: ResourceId, index: BridgeIndex)
        requires
            old(self).wf(),
        ensures
            final(self).wf(),
            final(self).config() == old(self).config(),
            final(self).next_index() == old(self).next_index(),
            final(self).bridges_map() == old(self).bridges_map(),
            final(self).bridges@ == old(self).bridges@,
            final(self).resource_map() == old(self).resource_map().insert(r, index),
    {
        match self.find_resource(&r) {
            Some(i) => {
                proof {
                    lemma_entries_map_update(self.resource_to_bridge_index@, i as int, index);
                }
                self.resource_to_bridge_index.set(i, (r, index));
            },
            None => {
                proof {
                    if has_key(self.resource_to_bridge_index@, r) {
                        let j = choose|j: int|
                            0 <= j < self.resource_to_bridge_index@.len()
                                && #[trigger] self.resource_to_bridge_index@[j].0 == r;
                        lemma_entries_map_at(self.resource_to_bridge_index@, j);
                    }
                    lemma_entries_map_push(self.resource_to_bridge_index@, r, index);
                }
                self.resource_to_bridge_index.push((r, index));
            },
        }
    }

    /// Stores `meta` as the bridge at `index`.
    fn set_bridge(&mut self, index: BridgeIndex, meta: BridgeMetadata)
        requires
            old(self).wf(),
            bridge_within_bounds(old(self).config(), meta),
        ensures
            final(self).wf(),
            final(self).config() == old(self).config(),
            final(self).next_index() == old(self).next_index(),
            final(self).bridges_map() == old(self).bridges_map().insert(index, meta),
            final(self).resource_map() == old(self).resource_map(),
    {
        match self.find_bridge(index) {
            Some(i) => {
                proof {
                    lemma_entries_map_update(self.bridges@, i as int, meta);
                }
                self.bridges.set(i, (index, meta));
            },
            None => {
                proof {
                    if has_key(self.bridges@, index) {
                        let j = choose|j: int|
                            0 <= j < self.bridges@.len() && #[trigger] self.bridges@[j].0 == index;
                        lemma_entries_map_at(self.bridges@, j);
                    }
                    lemma_entries_map_push(self.bridges@, index, meta);
                }
                self.bridges.push((index, meta));
            },
        }
    }

    /// Appends `r` to the resources of the bridge stored in entry `i`.
    fn push_bridge_resource(&mut self, i: usize, r: ResourceId)
        requires
            old(self).wf(),
            i < old(self).bridges@.len(),
            old(self).bridges@[i as int].1.resource_ids@.len() < old(self).config().max_resources,
        ensures
            final(self).wf(),
            final(self).config() == old(self).config(),
            final(self).next_index() == old(self).next_index(),
            final(self).resource_map() == old(self).resource_map(),
            final(self).bridges_map() == old(self).bridges_map().insert(
                old(self).bridges@[i as int].0,
                (BridgeMetadata {
                    resource_ids: final(self).bridges@[i as int].1.resource_ids,
                    info: old(self).bridges@[i as int].1.info,
                }),
            ),
            final(self).bridges@[i as int].1.resource_ids@ == old(self).bridges@[
                i as int
            ].1.resource_ids@.push(r),
    {
        let (index, meta) = self.bridges.remove(i);
        let BridgeMetadata { resource_ids, info } = meta;
        let mut resource_ids = resource_ids;
        resource_ids.push(r);
        let new_meta = BridgeMetadata { resource_ids, info };
        proof {
            lemma_entries_map_update(old(self).bridges@, i as int, new_meta);
        }
        self.bridges.insert(i, (index, new_meta));
        proof {
            assert(self.bridges@ =~= old(self).bridges@.update(i as int, (index, new_meta)));
        }
    }

    /// Sets the information of the bridge at `bridge_index`, creating an
    /// empty bridge there if none exists. Only the privileged origin may call it.
    pub fn set_metadata(&mut self, is_force_origin: bool, bridge_index: BridgeIndex, info: BridgeInfo) -> (r:
        Result<(), DispatchError>)
        requires
            old(self).wf(),
        ensures
            final(self).wf(),
            final(self).config() == old(self).config(),
            final(self).next_index() == old(self).next_index(),
            final(self).resource_map() == old(self).resource_map(),
            !is_force_origin ==> r == Err::<(), DispatchError>(DispatchError::BadOrigin),
            is_force_origin && info.additional@.len() > old(self).config().max_additional_fields
                ==> r == Err::<(), DispatchError>(DispatchError::Module(Error::TooManyFields)),
            r is Err ==> final(self).bridges_map() == old(self).bridges_map(),
            old(self).consistent() ==> final(self).consistent(),
            old(self).lists_map_back() ==> final(self).lists_map_back(),
            is_force_origin && info.additional@.len() <= old(self).config().max_additional_fields
                ==> {
                &&& r is Ok
                &&& final(self).bridges_map() == old(self).bridges_map().insert(
                    bridge_index,
                    final(self).bridges_map()[bridge_index],
                )
                &&& final(self).bridges_map()[bridge_index].info == info
                &&& final(self).bridges_map()[bridge_index].resource_ids@ == (if old(
                    self,
                ).bridges_map().contains_key(bridge_index) {
                    old(self).bridges_map()[bridge_index].resource_ids@
                } else {
                    Seq::<ResourceId>::empty()
                })
            },
    {
        if !is_force_origin {
            return Err(DispatchError::BadOrigin);
        }
        let extra_fields = info.additional.len();
        if extra_fields > self.config.max_additional_fields as usize {
            return Err(DispatchError::Module(Error::TooManyFields));
        }
        match self.find_bridge(bridge_index) {
            Some(i) => {
                proof {
                    lemma_entries_map_at(self.bridges@, i as int);
                }
                let (index, meta) = self.bridges.remove(i);
                let new_meta = BridgeMetadata { resource_ids: meta.resource_ids, info };
                proof {
                    lemma_entries_map_update(old(self).bridges@, i as int, new_meta);
                }
                self.bridges.insert(i, (index, new_meta));
                proof {
                    assert(self.bridges@ =~= old(self).bridges@.update(i as int, (index, new_meta)));
                    lemma_entries_map_at(self.bridges@, i as int);
                }
            },
            None => {
                let new_meta = BridgeMetadata { resource_ids: Vec::new(), info };
                self.set_bridge(bridge_index, new_meta);
            },
        }
        proof {
            if old(self).consistent() {
                assert forall|r: ResourceId|
                    #[trigger] self.resource_map().contains_key(r) && self.resource_map()[r] != 0 implies {
                        &&& self.resource_map()[r] < self.next_index()
                        &&& self.bridges_map().contains_key(self.resource_map()[r])
                        &&& self.bridges_map()[self.resource_map()[r]].resource_ids@.contains(r)
                    } by {
                    assert(old(self).resource_map().contains_key(r));
                }
            }
            if old(self).lists_map_back() {
                assert forall|i: BridgeIndex, r: ResourceId|
                    i != 0 && #[trigger] self.bridges_map().contains_key(i) && #[trigger] self.bridges_map()[i].resource_ids@.contains(
                        r,
                    ) implies index_or_zero(self.resource_map(), r) == i by {
                    if i != bridge_index {
                        assert(old(self).bridges_map().contains_key(i));
                        assert(old(self).bridges_map()[i] == self.bridges_map()[i]);
                    } else {
                        assert(old(self).bridges_map().contains_key(i));
                    }
                }
            }
        }
        Ok(())
    }

    /// Records `bridge_index` as the bridge of every resource in
    /// `resource_ids`. Only the privileged origin may call it, with at most
    /// `max_resources` resources.
    pub fn force_reset_indices(
        &mut self,
        is_force_origin: bool,
        resource_ids: Vec<ResourceId>,
        bridge_index: BridgeIndex,
    ) -> (r: Result<(), DispatchError>)
        requires
            old(self).wf(),
        ensures
            final(self).wf(),
            final(self).config() == old(self).config(),
            final(self).next_index() == old(self).next_index(),
            final(self).bridges_map() == old(self).bridges_map(),
            !is_force_origin ==> r == Err::<(), DispatchError>(DispatchError::BadOrigin),
            is_force_origin && resource_ids@.len() > old(self).config().max_resources ==> r == Err::<
                (),
                DispatchError,
            >(DispatchError::Module(Error::TooManyResources)),
            r is Err ==> final(self).resource_map() == old(self).resource_map(),
            is_force_origin && resource_ids@.len() <= old(self).config().max_resources ==> {
                &&& r is Ok
                &&& final(self).resource_map() == old(self).resource_map().union_prefer_right(
                    Map::new(|x: ResourceId| resource_ids@.contains(x), |x: ResourceId| bridge_index),
                )
            },
    {
        if !is_force_origin {
            return Err(DispatchError::BadOrigin);
        }
        let max_resources = self.config.max_resources as usize;
        if resource_ids.len() > max_resources {
            return Err(DispatchError::Module(Error::TooManyResources));
        }
        let mut i: usize = 0;
        while i < resource_ids.len()
            invariant
                self.wf(),
                i <= resource_ids@.len(),
                self.config() == old(self).config(),
                self.next_index() == old(self).next_index(),
                self.bridges_map() == old(self).bridges_map(),
                self.resource_map() == old(self).resource_map().union_prefer_right(
                    Map::new(
                        |x: ResourceId| resource_ids@.subrange(0, i as int).contains(x),
                        |x: ResourceId| bridge_index,
                    ),
                ),
            decreases resource_ids@.len() - i,
        {
            let rid = resource_ids[i];
            self.set_resource_index(rid, bridge_index);
            proof {
                let pre = resource_ids@.subrange(0, i as int);
                assert(resource_ids@.subrange(0, i + 1) =~= pre.push(rid));
                assert forall|x: ResourceId| #[trigger] pre.push(rid).contains(x) == (pre.contains(x) || x == rid) by {
                    if pre.contains(x) {
                        let k = choose|k: int| 0 <= k < pre.len() && pre[k] == x;
                        assert(pre.push(rid)[k] == x);
                    }
                    if x == rid {
                        assert(pre.push(rid)[pre.len() as int] == x);
                    }
                    if pre.push(rid).contains(x) && x != rid {
                        let k = choose|k: int| 0 <= k < pre.len() + 1 && pre.push(rid)[k] == x;
                        assert(pre[k] == x);
                    }
                }
                assert(self.resource_map() =~= old(self).resource_map().union_prefer_right(
                    Map::new(
                        |x: ResourceId| resource_ids@.subrange(0, i + 1).contains(x),
                        |x: ResourceId| bridge_index,
                    ),
                ));
            }
            i = i + 1;
        }
        proof {
            assert(resource_ids@.subrange(0, i as int) =~= resource_ids@);
        }
        Ok(())
    }

    /// The anchor update with payload `data` opens a new bridge: neither of its
    /// resources has a bridge, and a bridge may hold two resources.
    pub open spec fn creates_bridge(&self, data: Seq<u8>) -> bool {
        &&& index_or_zero(self.resource_map(), anchor_source(data)) == 0
        &&& index_or_zero(self.resource_map(), anchor_target(data)) == 0
        &&& self.config().max_resources >= 2
    }

    /// Whether the anchor update with payload `data` would open a new bridge,
    /// which takes the next bridge index.
    pub fn creates_new_bridge(&self, data: &[u8]) -> (r: bool)
        requires
            self.wf(),
            data@.len() == ANCHOR_UPDATE_PROPOSAL_LENGTH,
        ensures
            r == self.creates_bridge(data@),
    {
        let (dest, src) = anchor_update_resource_ids(data);
        proof {
            lemma_resource_id_at(data@, 0, dest.0);
            lemma_resource_id_at(data@, 72, src.0);
        }
        self.resource_to_bridge_index(&src) == 0 && self.resource_to_bridge_index(&dest) == 0
            && self.config.max_resources >= 2
    }

    /// Handles a signed proposal: an anchor update links its source and target
    /// resources into one bridge, creating the bridge when neither has one.
    /// A refused proposal leaves the registry as it was.
    pub fn on_signed_proposal(&mut self, proposal: &Proposal) -> (r: Result<(), DispatchError>)
        requires
            old(self).wf(),
            proposal is Signed && proposal.spec_kind() == ProposalKind::AnchorUpdate ==> {
                &&& proposal.spec_data().len() == ANCHOR_UPDATE_PROPOSAL_LENGTH
                &&& Pallet::creates_bridge(&*old(self), proposal.spec_data()) ==> old(self).next_index() < u32::MAX
            },
        ensures
            final(self).wf(),
            final(self).config() == old(self).config(),
            r is Err ==> final(self).same_storage(&*old(self)),
            final(self).next_index() == old(self).next_index() || final(self).next_index()
                == old(self).next_index() + 1,
            old(self).consistent() ==> final(self).consistent(),
            old(self).lists_map_back() ==> final(self).lists_map_back(),
            r is Ok && proposal is Signed && proposal.spec_kind() == ProposalKind::AnchorUpdate
                && old(self).next_index() >= 1 ==> {
                let src = anchor_source(proposal.spec_data());
                let dest = anchor_target(proposal.spec_data());
                &&& index_or_zero(final(self).resource_map(), src) == index_or_zero(
                    final(self).resource_map(),
                    dest,
                )
                &&& index_or_zero(final(self).resource_map(), src) != 0
            },
            !(proposal is Signed) ==> r == Err::<(), DispatchError>(
                DispatchError::Module(Error::ProposalNotSigned),
            ),
            proposal is Signed && proposal.spec_kind() != ProposalKind::AnchorUpdate ==> r is Ok
                && final(self).same_storage(&*old(self)),
            proposal is Signed && proposal.spec_kind() == ProposalKind::AnchorUpdate
                ==> Pallet::anchor_update_outcome(
                &*old(self),
                &*final(self),
                anchor_source(proposal.spec_data()),
                anchor_target(proposal.spec_data()),
                r,
            ),
    {
        if !proposal.is_signed() {
            return Err(DispatchError::Module(Error::ProposalNotSigned));
        }
        if proposal.kind() != ProposalKind::AnchorUpdate {
            return Ok(());
        }
        let data = proposal.data();
        let (dest, src) = anchor_update_resource_ids(data.as_slice());
        proof {
            lemma_resource_id_at(data@, 0, dest.0);
            lemma_resource_id_at(data@, 72, src.0);
        }
        let si = self.resource_to_bridge_index(&src);
        let di = self.resource_to_bridge_index(&dest);
        if si == 0 || di == 0 {
            if si == 0 && di == 0 {
                let next = self.next_bridge_index;
                if self.config.max_resources < 2 {
                    return Err(DispatchError::Module(Error::OutOfBounds));
                }
                self.set_resource_index(src, next);
                self.set_resource_index(dest, next);
                let mut ids: Vec<ResourceId> = Vec::new();
                ids.push(src);
                ids.push(dest);
                let meta = BridgeMetadata { resource_ids: ids, info: BridgeInfo::empty() };
                self.set_bridge(next, meta);
                self.next_bridge_index = next + 1;
                proof {
                    assert(ids@ =~= seq![src, dest]);
                }
            } else {
                let (r_id, b) = if si == 0 {
                    (src, di)
                } else {
                    (dest, si)
                };
                match self.find_bridge(b) {
                    None => {
                        return Err(DispatchError::Module(Error::BridgeNotFound));
                    },
                    Some(i) => {
                        proof {
                            lemma_entries_map_at(self.bridges@, i as int);
                        }
                        if self.bridges[i].1.resource_ids.len() >= self.config.max_resources as usize {
                            return Err(DispatchError::Module(Error::TooManyResources));
                        }
                        self.set_resource_index(r_id, b);
                        self.push_bridge_resource(i, r_id);
                    },
                }
            }
        } else if si != di {
            return Err(DispatchError::Module(Error::BridgeIndexError));
        }
        proof {
            assert(Pallet::anchor_update_outcome(&*old(self), &*self, src, dest, Ok(())));
            if old(self).consistent() {
                Pallet::lemma_anchor_update_keeps_consistency(&*old(self), &*self, src, dest);
            }
            if old(self).lists_map_back() {
                Pallet::lemma_anchor_update_keeps_lists_mapped(&*old(self), &*self, src, dest);
            }
        }
        Ok(())
    }

    proof fn lemma_anchor_update_keeps_lists_mapped(pre: &Pallet, post: &Pallet, src: ResourceId, dest: ResourceId)
        requires
            pre.lists_map_back(),
            Pallet::anchor_update_outcome(pre, post, src, dest, Ok(())),
        ensures
            post.lists_map_back(),
    {
        let si = index_or_zero(pre.resource_map(), src);
        let di = index_or_zero(pre.resource_map(), dest);
        let n = pre.next_index();
        if si == 0 && di == 0 {
            assert forall|i: BridgeIndex, r: ResourceId|
                i != 0 && #[trigger] post.bridges_map().contains_key(i) && #[trigger] post.bridges_map()[i].resource_ids@.contains(
                    r,
                ) implies index_or_zero(post.resource_map(), r) == i by {
                if i == n {
                    let k = choose|k: int| 0 <= k < 2 && post.bridges_map()[n].resource_ids@[k] == r;
                    assert(k == 0 || k == 1);
                } else {
                    assert(pre.bridges_map().contains_key(i) && pre.bridges_map()[i] == post.bridges_map()[i]);
                    assert(index_or_zero(pre.resource_map(), r) == i);
                }
            }
        } else if si == 0 || di == 0 {
            let (joining, b) = if si == 0 { (src, di) } else { (dest, si) };
            assert forall|i: BridgeIndex, r: ResourceId|
                i != 0 && #[trigger] post.bridges_map().contains_key(i) && #[trigger] post.bridges_map()[i].resource_ids@.contains(
                    r,
                ) implies index_or_zero(post.resource_map(), r) == i by {
                if i == b {
                    let old_ids = pre.bridges_map()[b].resource_ids@;
                    let k = choose|k: int| 0 <= k < old_ids.len() + 1 && post.bridges_map()[b].resource_ids@[k] == r;
                    if k < old_ids.len() {
                        assert(old_ids[k] == r);
                        assert(old_ids.contains(r));
                        assert(index_or_zero(pre.resource_map(), r) == b);
                    }
                } else {
                    assert(pre.bridges_map().contains_key(i) && pre.bridges_map()[i] == post.bridges_map()[i]);
                    assert(index_or_zero(pre.resource_map(), r) == i);
                }
            }
        }
    }

    proof fn lemma_anchor_update_keeps_consistency(
        pre: &Pallet,
        post: &Pallet,
        src: ResourceId,
        dest: ResourceId,
    )
        requires
            pre.consistent(),
            Pallet::anchor_update_outcome(pre, post, src, dest, Ok(())),
        ensures
            post.consistent(),
    {
        let si = index_or_zero(pre.resource_map(), src);
        let di = index_or_zero(pre.resource_map(), dest);
        let n = pre.next_index();
        if si == 0 && di == 0 {
            assert forall|r: ResourceId|
                #[trigger] post.resource_map().contains_key(r) && post.resource_map()[r] != 0 implies {
                    &&& post.resource_map()[r] < post.next_index()
                    &&& post.bridges_map().contains_key(post.resource_map()[r])
                    &&& post.bridges_map()[post.resource_map()[r]].resource_ids@.contains(r)
                } by {
                if r == src {
                    assert(post.bridges_map()[n].resource_ids@[0] == src);
                } else if r == dest {
                    assert(post.bridges_map()[n].resource_ids@[1] == dest);
                } else {
                    assert(pre.resource_map().contains_key(r));
                }
            }
        } else if si == 0 || di == 0 {
            let (joining, b) = if si == 0 { (src, di) } else { (dest, si) };
            assert(pre.resource_map().contains_key(if si == 0 { dest } else { src }));
            assert forall|r: ResourceId|
                #[trigger] post.resource_map().contains_key(r) && post.resource_map()[r] != 0 implies {
                    &&& post.resource_map()[r] < post.next_index()
                    &&& post.bridges_map().contains_key(post.resource_map()[r])
                    &&& post.bridges_map()[post.resource_map()[r]].resource_ids@.contains(r)
                } by {
                let old_ids = pre.bridges_map()[b].resource_ids@;
                if r == joining {
                    assert(post.bridges_map()[b].resource_ids@[old_ids.len() as int] == joining);
                } else {
                    assert(pre.resource_map().contains_key(r));
                    if post.resource_map()[r] == b {
                        let q = choose|q: int| 0 <= q < old_ids.len() && old_ids[q] == r;
                        assert(post.bridges_map()[b].resource_ids@[q] == r);
                    }
                }
            }
        }
    }
}


/// When the registry is consistent and its bridge records map back, a
/// resource is recorded at bridge `i` (other than `0`) exactly when that
/// bridge is stored and lists it; so no resource belongs to two bridges.
pub proof fn lemma_bridge_records_agree(p: &Pallet, r: ResourceId, i: BridgeIndex, j: BridgeIndex)
    requires
        p.consistent(),
        p.lists_map_back(),
        i != 0,
        j != 0,
    ensures
        index_or_zero(p.resource_map(), r) == i <==> (p.bridges_map().contains_key(i)
            && p.bridges_map()[i].resource_ids@.contains(r)),
        p.bridges_map().contains_key(i) && p.bridges_map()[i].resource_ids@.contains(r) && p.bridges_map().contains_key(j)
            && p.bridges_map()[j].resource_ids@.contains(r) ==> i == j,
{
    if index_or_zero(p.resource_map(), r) == i {
        assert(p.resource_map().contains_key(r));
    }
}

/// When an accepted anchor update links a resource that has no bridge to the
/// bridge `b` of the other resource, the resource joins `b` at the end of its
/// list, `b` keeps its information, and no other bridge or counter changes.
pub proof fn lemma_joining_keeps_bridge_info(
    pre: &Pallet,
    post: &Pallet,
    src: ResourceId,
    dest: ResourceId,
    joining: ResourceId,
    b: BridgeIndex,
)
    requires
        Pallet::anchor_update_outcome(pre, post, src, dest, Ok(())),
        b != 0,
        (joining == src && index_or_zero(pre.resource_map(), src) == 0 && index_or_zero(pre.resource_map(), dest) == b)
            || (joining == dest && index_or_zero(pre.resource_map(), dest) == 0 && index_or_zero(
            pre.resource_map(),
            src,
        ) == b),
    ensures
        pre.bridges_map().contains_key(b),
        post.bridges_map().contains_key(b),
        post.bridges_map()[b].info == pre.bridges_map()[b].info,
        post.bridges_map()[b].resource_ids@ == pre.bridges_map()[b].resource_ids@.push(joining),
        forall|i: BridgeIndex| i != b ==> #[trigger] post.bridges_map().contains_key(i) == pre.bridges_map().contains_key(i)
            && (pre.bridges_map().contains_key(i) ==> post.bridges_map()[i] == pre.bridges_map()[i]),
        index_or_zero(post.resource_map(), joining) == b,
        post.next_index() == pre.next_index(),
{
    assert(post.bridges_map().contains_key(b));
}

/// Re-submitting an anchor update that was accepted changes nothing: the two
/// resources already share a bridge, so the second submission is accepted and
/// leaves the registry as it was.
pub proof fn lemma_anchor_update_idempotent(
    p0: &Pallet,
    p1: &Pallet,
    p2: &Pallet,
    src: ResourceId,
    dest: ResourceId,
    r1: Result<(), DispatchError>,
    r2: Result<(), DispatchError>,
)
    requires
        p0.next_index() >= 1,
        r1 is Ok,
        Pallet::anchor_update_outcome(p0, p1, src, dest, r1),
        Pallet::anchor_update_outcome(p1, p2, src, dest, r2),
    ensures
        r2 is Ok,
        p2.same_storage(p1),
{
}

/// The bridges that the registry holds from genesis.
pub struct GenesisConfig {
    pub bridges: Vec<BridgeMetadata>,
}

/// The index genesis gives resource `r`: one plus the position of the last
/// genesis bridge that lists it, or `0` when none does.
pub open spec fn genesis_index_of(bridges: Seq<BridgeMetadata>, r: ResourceId) -> int
    decreases bridges.len(),
{
    if bridges.len() == 0 {
        0
    } else if bridges.last().resource_ids@.contains(r) {
        bridges.len() as int
    } else {
        genesis_index_of(bridges.drop_last(), r)
    }
}

/// The resource map that genesis builds from `bridges`.
pub open spec fn genesis_resource_map(bridges: Seq<BridgeMetadata>) -> Map<ResourceId, BridgeIndex> {
    Map::new(
        |r: ResourceId| genesis_index_of(bridges, r) != 0,
        |r: ResourceId| genesis_index_of(bridges, r) as BridgeIndex,
    )
}

/// The bridge map that genesis builds from `bridges`: bridge `i` at index `i + 1`.
pub open spec fn genesis_bridges_map(bridges: Seq<BridgeMetadata>) -> Map<BridgeIndex, BridgeMetadata> {
    Map::new(|b: BridgeIndex| 1 <= b <= bridges.len(), |b: BridgeIndex| bridges[b - 1])
}

proof fn lemma_genesis_index_listed(bridges: Seq<BridgeMetadata>, r: ResourceId)
    requires
        genesis_index_of(bridges, r) != 0,
    ensures
        bridges[genesis_index_of(bridges, r) - 1].resource_ids@.contains(r),
    decreases bridges.len(),
{
    if bridges.len() > 0 && !bridges.last().resource_ids@.contains(r) {
        lemma_genesis_index_listed(bridges.drop_last(), r);
        lemma_genesis_index_bound(bridges.drop_last(), r);
    }
}

proof fn lemma_genesis_index_bound(bridges: Seq<BridgeMetadata>, r: ResourceId)
    ensures
        0 <= genesis_index_of(bridges, r) <= bridges.len(),
    decreases bridges.len(),
{
    if bridges.len() > 0 {
        lemma_genesis_index_bound(bridges.drop_last(), r);
    }
}

impl GenesisConfig {
    /// Builds the genesis storage: bridge `i` of the configuration is stored at
    /// index `i + 1`, each of its resources is recorded at that index (a later
    /// bridge wins over an earlier one), and the next index follows the last bridge.
    pub fn build(self, config: Config) -> (p: Pallet)
        requires
            self.bridges@.len() < u32::MAX,
            forall|i: int| 0 <= i < self.bridges@.len() ==> bridge_within_bounds(config, #[trigger] self.bridges@[i]),
        ensures
            p.wf(),
            p.config() == config,
            p.next_index() == self.bridges@.len() + 1,
            p.bridges_map() == genesis_bridges_map(self.bridges@),
            p.resource_map() == genesis_resource_map(self.bridges@),
            p.consistent(),
    {
        let ghost orig = self.bridges@;
        let mut pallet = Pallet::new(config);
        pallet.next_bridge_index = 1;
        let mut bridges = self.bridges;
        proof {
            assert(orig.skip(0) =~= orig);
            assert(genesis_bridges_map(orig.take(0)) =~= Map::<BridgeIndex, BridgeMetadata>::empty());
            assert(genesis_resource_map(orig.take(0)) =~= Map::<ResourceId, BridgeIndex>::empty());
        }
        while bridges.len() > 0
            invariant
                orig.len() < u32::MAX,
                forall|i: int| 0 <= i < orig.len() ==> bridge_within_bounds(config, #[trigger] orig[i]),
                bridges@.len() <= orig.len(),
                bridges@ == orig.skip(orig.len() - bridges@.len()),
                pallet.wf(),
                pallet.config() == config,
                pallet.next_index() == orig.len() - bridges@.len() + 1,
                pallet.bridges_map() == genesis_bridges_map(orig.take(orig.len() - bridges@.len())),
                pallet.resource_map() == genesis_resource_map(orig.take(orig.len() - bridges@.len())),
            decreases bridges@.len(),
        {
            let ghost k = orig.len() - bridges@.len();
            let bridge = bridges.remove(0);
            proof {
                assert(bridge == orig[k]);
                assert(bridges@ =~= orig.skip(k + 1));
            }
            let idx = pallet.next_bridge_index;
            let ghost before = pallet.resource_map();
            let mut j: usize = 0;
            while j < bridge.resource_ids.len()
                invariant
                    j <= bridge.resource_ids@.len(),
                    pallet.wf(),
                    pallet.config() == config,
                    pallet.next_index() == idx,
                    pallet.bridges_map() == genesis_bridges_map(orig.take(k)),
                    pallet.resource_map() == before.union_prefer_right(
                        Map::new(
                            |x: ResourceId| bridge.resource_ids@.subrange(0, j as int).contains(x),
                            |x: ResourceId| idx,
                        ),
                    ),
                decreases bridge.resource_ids@.len() - j,
            {
                let rid = bridge.resource_ids[j];
                pallet.set_resource_index(rid, idx);
                proof {
                    let pre = bridge.resource_ids@.subrange(0, j as int);
                    assert(bridge.resource_ids@.subrange(0, j + 1) =~= pre.push(rid));
                    assert forall|x: ResourceId| #[trigger] pre.push(rid).contains(x) == (pre.contains(x) || x == rid) by {
                        if pre.contains(x) {
                            let q = choose|q: int| 0 <= q < pre.len() && pre[q] == x;
                            assert(pre.push(rid)[q] == x);
                        }
                        if x == rid {
                            assert(pre.push(rid)[pre.len() as int] == x);
                        }
                        if pre.push(rid).contains(x) && x != rid {
                            let q = choose|q: int| 0 <= q < pre.len() + 1 && pre.push(rid)[q] == x;
                            assert(pre[q] == x);
                        }
                    }
                    assert(pallet.resource_map() =~= before.union_prefer_right(
                        Map::new(
                            |x: ResourceId| bridge.resource_ids@.subrange(0, j + 1).contains(x),
                            |x: ResourceId| idx,
                        ),
                    ));
                }
                j = j + 1;
            }
            proof {
                assert(bridge.resource_ids@.subrange(0, j as int) =~= bridge.resource_ids@);
                let t1 = orig.take(k + 1);
                assert(t1.drop_last() =~= orig.take(k));
                assert(t1.last() == bridge);
                assert forall|x: ResourceId| #[trigger] genesis_index_of(t1, x) == (if bridge.resource_ids@.contains(x) {
                    k + 1
                } else {
                    genesis_index_of(orig.take(k), x)
                }) by {}
                assert forall|x: ResourceId| genesis_index_of(orig.take(k), x) <= k by {
                    lemma_genesis_index_bound(orig.take(k), x);
                }
                assert(pallet.resource_map() =~= genesis_resource_map(t1));
            }
            pallet.set_bridge(idx, bridge);
            pallet.next_bridge_index = idx + 1;
            proof {
                let t1 = orig.take(k + 1);
                assert(pallet.bridges_map() =~= genesis_bridges_map(t1));
            }
        }
        proof {
            assert(orig.take(orig.len() as int) =~= orig);
            assert forall|r: ResourceId|
                #[trigger] pallet.resource_map().contains_key(r) && pallet.resource_map()[r] != 0 implies {
                    &&& pallet.resource_map()[r] < pallet.next_index()
                    &&& pallet.bridges_map().contains_key(pallet.resource_map()[r])
                    &&& pallet.bridges_map()[pallet.resource_map()[r]].resource_ids@.contains(r)
                } by {
                lemma_genesis_index_bound(orig, r);
                lemma_genesis_index_listed(orig, r);
            }
        }
        pallet
    }
}

} // verus!
