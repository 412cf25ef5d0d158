use vstd::prelude::*;

verus! {

/// Lowest raw value of the identifier space; it denotes no entry itself.
pub const ID_BASE: u32 = 0x8080_0000;

/// Highest raw value that still denotes an archive entry.
pub const ID_LAST: u32 = 0x81ff_ffff;

/// Identifier of one archive entry, packed as a package id and an entry index.
#[derive(Clone, Copy, Debug, PartialEq, Eq, Structural, Hash)]
pub struct AssetId {
    pub hash: u32,
}

pub open spec fn id_valid(hash: u32) -> bool {
    ID_BASE < hash && hash <= ID_LAST
}

impl AssetId {
    pub open spec fn valid(self) -> bool {
        id_valid(self.hash)
    }

    pub fn from_raw(hash: u32) -> (r: AssetId)
        ensures
            r.hash == hash,
    {
        AssetId { hash }
    }

    /// The sentinel meaning "no reference".
    pub fn none() -> (r: AssetId)
        ensures
            r.hash == u32::MAX,
            !r.valid(),
    {
        AssetId { hash: u32::MAX }
    }

    /// The identifier of entry `entry` (taken modulo 8192) of package `pkg_id`.
    pub fn new(pkg_id: u16, entry: u16) -> (r: AssetId)
        ensures
            r.hash == (ID_BASE as int + (pkg_id as int) * 8192 + (entry as int) % 8192) % 0x1_0000_0000,
    {
        let p: u32 = (pkg_id as u32) * 8192;
        let e: u32 = (entry as u32) % 8192;
        AssetId { hash: ID_BASE.wrapping_add(p).wrapping_add(e) }
    }

    /// Whether the identifier denotes an archive entry at all.
    pub fn is_valid(&self) -> (r: bool)
        ensures
            r == self.valid(),
    {
        ID_BASE < self.hash && self.hash <= ID_LAST
    }

    pub fn pkg_id(&self) -> (r: u16)
        ensures
            r == (((self.hash as int - ID_BASE as int) % 0x1_0000_0000) / 8192) % 0x1_0000,
    {
        let d: u32 = self.hash.wrapping_sub(ID_BASE);
        ((d / 8192) % 0x1_0000) as u16
    }

    pub fn entry_index(&self) -> (r: u16)
        ensures
            r == self.hash % 8192,
    {
        (self.hash % 8192) as u16
    }
}

} // verus!
