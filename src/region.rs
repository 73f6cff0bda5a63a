use vstd::prelude::*;

verus! {

/// A replica of a region, placed on one store.
#[derive(Clone, Copy, Debug, PartialEq, Eq, Structural)]
pub struct Peer {
    pub id: u64,
    pub store_id: u64,
}

/// The version pair that changes whenever a region splits, merges or changes members.
#[derive(Clone, Copy, Debug, PartialEq, Eq, Structural)]
pub struct RegionEpoch {
    pub conf_ver: u64,
    pub version: u64,
}

/// The part a replica plays in its region's consensus group.
#[derive(Clone, Copy, Debug, PartialEq, Eq, Structural)]
pub enum Role {
    Follower,
    Candidate,
    PreCandidate,
    Leader,
}

/// A region: a contiguous range of the encoded key space. An empty `start_key`
/// is the lowest key, an empty `end_key` stands for no upper bound.
#[derive(Debug)]
pub struct Region {
    pub id: u64,
    pub epoch: RegionEpoch,
    pub start_key: Vec<u8>,
    pub end_key: Vec<u8>,
    pub peers: Vec<Peer>,
}

/// A region as a mathematical value.
pub struct RegionModel {
    pub id: u64,
    pub epoch: RegionEpoch,
    pub start_key: Seq<u8>,
    pub end_key: Seq<u8>,
    pub peers: Seq<Peer>,
}

impl View for Region {
    type V = RegionModel;

    open spec fn view(&self) -> RegionModel {
        RegionModel {
            id: self.id,
            epoch: self.epoch,
            start_key: self.start_key@,
            end_key: self.end_key@,
            peers: self.peers@,
        }
    }
}

/// A region as the registry reports it, with this store's role in it.
#[derive(Debug)]
pub struct RegionInfo {
    pub region: Region,
    pub role: Role,
}

/// A registry entry as a mathematical value.
pub struct RegionInfoModel {
    pub region: RegionModel,
    pub role: Role,
}

impl View for RegionInfo {
    type V = RegionInfoModel;

    open spec fn view(&self) -> RegionInfoModel {
        RegionInfoModel { region: self.region@, role: self.role }
    }
}

/// The first peer of `peers` that sits on `store_id`.
pub open spec fn first_peer_on(peers: Seq<Peer>, store_id: u64) -> Option<Peer>
    decreases peers.len(),
{
    if peers.len() == 0 {
        None
    } else if peers[0].store_id == store_id {
        Some(peers[0])
    } else {
        first_peer_on(peers.drop_first(), store_id)
    }
}

/// A fresh copy of a byte string.
pub fn copy_bytes(v: &Vec<u8>) -> (r: Vec<u8>)
    ensures
        r@ == v@,
{
    let mut r: Vec<u8> = Vec::with_capacity(v.len());
    let mut i: usize = 0;
    while i < v.len()
        invariant
            i <= v@.len(),
            r@ == v@.subrange(0, i as int),
        decreases v.len() - i,
    {
        r.push(v[i]);
        i = i + 1;
        assert(r@ =~= v@.subrange(0, i as int));
    }
    assert(r@ =~= v@);
    r
}

/// A fresh copy of a list of peers.
pub fn copy_peers(v: &Vec<Peer>) -> (r: Vec<Peer>)
    ensures
        r@ == v@,
{
    let mut r: Vec<Peer> = Vec::with_capacity(v.len());
    let mut i: usize = 0;
    while i < v.len()
        invariant
            i <= v@.len(),
            r@ == v@.subrange(0, i as int),
        decreases v.len() - i,
    {
        r.push(v[i]);
        i = i + 1;
        assert(r@ =~= v@.subrange(0, i as int));
    }
    assert(r@ =~= v@);
    r
}

impl Region {
    /// A region with the same id, epoch, bounds and peers.
    pub fn duplicate(&self) -> (r: Region)
        ensures
            r@ == self@,
    {
        Region {
            id: self.id,
            epoch: self.epoch,
            start_key: copy_bytes(&self.start_key),
            end_key: copy_bytes(&self.end_key),
            peers: copy_peers(&self.peers),
        }
    }
}

/// The peer of `region` that sits on `store_id`, if there is one.
pub fn find_peer(region: &Region, store_id: u64) -> (r: Option<Peer>)
    ensures
        r == first_peer_on(region@.peers, store_id),
{
    let mut i: usize = 0;
    assert(region.peers@.skip(0) =~= region.peers@);
    while i < region.peers.len()
        invariant
            i <= region.peers@.len(),
            first_peer_on(region.peers@, store_id) == first_peer_on(
                region.peers@.skip(i as int),
                store_id,
            ),
        decreases region.peers.len() - i,
    {
        if region.peers[i].store_id == store_id {
            return Some(region.peers[i]);
        }
        assert(region.peers@.skip(i as int).drop_first() =~= region.peers@.skip(i + 1));
        i = i + 1;
    }
    None
}

} // verus!
