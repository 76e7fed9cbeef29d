use vstd::prelude::*;

verus! {

/// The six historical on-disk layouts of the format, totally ordered
/// by release.
#[derive(Clone, Copy, PartialEq, Eq, Structural, Debug)]
pub enum MinecraftVersion {
    V1_18_30,
    V1_19_60,
    V1_20_80,
    V1_21_20,
    V1_21_110,
    V26_0_24,
}

impl MinecraftVersion {
    /// Position in the release order, oldest first.
    pub open spec fn rank_spec(self) -> int {
        match self {
            MinecraftVersion::V1_18_30 => 0,
            MinecraftVersion::V1_19_60 => 1,
            MinecraftVersion::V1_20_80 => 2,
            MinecraftVersion::V1_21_20 => 3,
            MinecraftVersion::V1_21_110 => 4,
            MinecraftVersion::V26_0_24 => 5,
        }
    }

    pub fn rank(self) -> (r: u8)
        ensures
            r as int == self.rank_spec(),
    {
        match self {
            MinecraftVersion::V1_18_30 => 0,
            MinecraftVersion::V1_19_60 => 1,
            MinecraftVersion::V1_20_80 => 2,
            MinecraftVersion::V1_21_20 => 3,
            MinecraftVersion::V1_21_110 => 4,
            MinecraftVersion::V26_0_24 => 5,
        }
    }

    /// The schema-number word forced into the header when emitting at
    /// this schema.
    pub open spec fn stored_version_spec(self) -> u64 {
        if self == MinecraftVersion::V26_0_24 {
            23
        } else {
            22
        }
    }

    pub fn stored_version(self) -> (r: u64)
        ensures
            r == self.stored_version_spec(),
    {
        if self == MinecraftVersion::V26_0_24 {
            23
        } else {
            22
        }
    }
}

impl Default for MinecraftVersion {
    fn default() -> (r: Self)
        ensures
            r == MinecraftVersion::V1_20_80,
    {
        MinecraftVersion::V1_20_80
    }
}

/// The known schemas, newest first: the order in which auto-detection
/// tries them.
pub open spec fn all_versions_spec() -> Seq<MinecraftVersion> {
    seq![
        MinecraftVersion::V26_0_24,
        MinecraftVersion::V1_21_110,
        MinecraftVersion::V1_21_20,
        MinecraftVersion::V1_20_80,
        MinecraftVersion::V1_19_60,
        MinecraftVersion::V1_18_30,
    ]
}

pub fn all_versions_newest_first() -> (r: Vec<MinecraftVersion>)
    ensures
        r@ == all_versions_spec(),
{
    let mut r: Vec<MinecraftVersion> = Vec::new();
    r.push(MinecraftVersion::V26_0_24);
    r.push(MinecraftVersion::V1_21_110);
    r.push(MinecraftVersion::V1_21_20);
    r.push(MinecraftVersion::V1_20_80);
    r.push(MinecraftVersion::V1_19_60);
    r.push(MinecraftVersion::V1_18_30);
    proof {
        assert(r@ =~= all_versions_spec());
    }
    r
}

} // verus!
