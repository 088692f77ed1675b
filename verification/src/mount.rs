//! Storage mounts and network neighbors, decoded map-style.

use vstd::prelude::*;

use crate::error::{Error, ErrorModel};
use crate::record::{req_text, spec_req_text};

verus! {

/// Mathematical image of a [`Mount`].
pub ghost struct MountModel {
    pub name: Seq<char>,
    pub storage: Seq<char>,
}

/// A storage mount point of the server.
#[derive(Debug, Clone, PartialEq, Eq)]
pub struct Mount {
    /// mount path
    pub name: String,
    /// URI of the mounted storage
    pub storage: String,
}

impl View for Mount {
    type V = MountModel;

    open spec fn view(&self) -> MountModel {
        MountModel { name: self.name@, storage: self.storage@ }
    }
}

/// The decoded form of one mount record: the required keys `mount` and
/// `storage`, in that order.
pub open spec fn spec_mount_from_map(pairs: Seq<(Seq<char>, Seq<char>)>) -> Result<
    MountModel,
    ErrorModel,
> {
    match spec_req_text(pairs, "mount"@) {
        Err(e) => Err(e),
        Ok(name) => match spec_req_text(pairs, "storage"@) {
            Err(e) => Err(e),
            Ok(storage) => Ok(MountModel { name, storage }),
        },
    }
}

impl Mount {
    /// Decodes one mount record from its pairs, read as a key-to-value
    /// map.
    pub fn from_map(pairs: &Vec<(String, String)>) -> (r: Result<Mount, Error>)
        ensures
            match r {
                Ok(m) => spec_mount_from_map(pairs.deep_view()) == Ok::<MountModel, ErrorModel>(
                    m@,
                ),
                Err(e) => spec_mount_from_map(pairs.deep_view()) == Err::<MountModel, ErrorModel>(
                    e@,
                ),
            },
    {
        let name = match req_text(pairs, "mount") {
            Ok(v) => v,
            Err(e) => return Err(e),
        };
        let storage = match req_text(pairs, "storage") {
            Ok(v) => v,
            Err(e) => return Err(e),
        };
        Ok(Mount { name, storage })
    }
}

/// Mathematical image of a [`Neighbor`].
pub ghost struct NeighborModel {
    pub name: Seq<char>,
    pub storage: Seq<char>,
}

/// A storage neighbor the server discovered on the network.
#[derive(Debug, Clone, PartialEq, Eq)]
pub struct Neighbor {
    /// display name
    pub name: String,
    /// URI of the neighbor's storage
    pub storage: String,
}

impl View for Neighbor {
    type V = NeighborModel;

    open spec fn view(&self) -> NeighborModel {
        NeighborModel { name: self.name@, storage: self.storage@ }
    }
}

/// The decoded form of one neighbor record: the required keys `neighbor`
/// (its storage URI) and `name`, in that order.
pub open spec fn spec_neighbor_from_map(pairs: Seq<(Seq<char>, Seq<char>)>) -> Result<
    NeighborModel,
    ErrorModel,
> {
    match spec_req_text(pairs, "neighbor"@) {
        Err(e) => Err(e),
        Ok(storage) => match spec_req_text(pairs, "name"@) {
            Err(e) => Err(e),
            Ok(name) => Ok(NeighborModel { name, storage }),
        },
    }
}

impl Neighbor {
    /// Decodes one neighbor record from its pairs, read as a key-to-value
    /// map.
    pub fn from_map(pairs: &Vec<(String, String)>) -> (r: Result<Neighbor, Error>)
        ensures
            match r {
                Ok(m) => spec_neighbor_from_map(pairs.deep_view()) == Ok::<
                    NeighborModel,
                    ErrorModel,
                >(m@),
                Err(e) => spec_neighbor_from_map(pairs.deep_view()) == Err::<
                    NeighborModel,
                    ErrorModel,
                >(e@),
            },
    {
        let storage = match req_text(pairs, "neighbor") {
            Ok(v) => v,
            Err(e) => return Err(e),
        };
        let name = match req_text(pairs, "name") {
            Ok(v) => v,
            Err(e) => return Err(e),
        };
        Ok(Neighbor { name, storage })
    }
}

} // verus!
