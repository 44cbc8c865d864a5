//! Block kinds and what the client knows of each.

use vstd::prelude::*;
use vstd::std_specs::convert::FromSpecImpl;

verus! {

/// The kind of block that one cell of a chunk holds.
#[derive(Debug, Clone, Copy, PartialEq, Eq, Hash, Structural)]
pub enum BlockId {
    Air,
    Dirt,
    Stone,
    Grass,
}

/// The lower-case form of a text, as `str::to_lowercase` of std gives it.
pub uninterp spec fn lowercase(text: Seq<char>) -> Seq<char>;

/// `str::to_lowercase` of std: the lower-case form of `text`, which depends
/// on `text` alone.
#[verifier::external_body]
fn to_lowercase(text: &str) -> (lower: String)
    ensures
        lower@ == lowercase(text@),
{
    text.to_lowercase()
}

impl BlockId {
    /// `true` exactly for [`BlockId::Air`].
    pub fn is_air(self) -> (air: bool)
        ensures
            air == (self is Air),
    {
        matches!(self, BlockId::Air)
    }

    /// `true` for every block that is not air.
    pub fn is_solid(self) -> (solid: bool)
        ensures
            solid == !(self is Air),
    {
        !self.is_air()
    }

    /// The block that a lower-case name stands for: air for every name but
    /// `dirt`, `stone` and `grass`.
    pub open spec fn named(lower: Seq<char>) -> BlockId {
        if lower == "dirt"@ {
            BlockId::Dirt
        } else if lower == "stone"@ {
            BlockId::Stone
        } else if lower == "grass"@ {
            BlockId::Grass
        } else {
            BlockId::Air
        }
    }

    /// The block that `lower`, a name in lower case, stands for.
    pub fn from_lowercase(lower: &str) -> (block: BlockId)
        ensures
            block == BlockId::named(lower@),
    {
        let name: String = lower.to_owned();
        if name == "dirt".to_owned() {
            BlockId::Dirt
        } else if name == "stone".to_owned() {
            BlockId::Stone
        } else if name == "grass".to_owned() {
            BlockId::Grass
        } else {
            BlockId::Air
        }
    }
}

impl From<&String> for BlockId {
    /// The block that `value` names, whatever the case of its letters.
    fn from(value: &String) -> (block: BlockId) {
        let lower = to_lowercase(value.as_str());
        BlockId::from_lowercase(lower.as_str())
    }
}

impl FromSpecImpl<&String> for BlockId {
    open spec fn obeys_from_spec() -> bool {
        true
    }

    open spec fn from_spec(value: &String) -> BlockId {
        BlockId::named(lowercase(value@))
    }
}

/// The texture of each face of a block, by name.
#[derive(Debug, Clone, PartialEq, Eq)]
pub struct BlockTextures {
    pub top: String,
    pub bottom: String,
    pub north: String,
    pub west: String,
    pub east: String,
    pub south: String,
}

/// The textures of a block as mathematical values.
pub struct TexturesModel {
    pub top: Seq<char>,
    pub bottom: Seq<char>,
    pub north: Seq<char>,
    pub west: Seq<char>,
    pub east: Seq<char>,
    pub south: Seq<char>,
}

impl View for BlockTextures {
    type V = TexturesModel;

    open spec fn view(&self) -> TexturesModel {
        TexturesModel {
            top: self.top@,
            bottom: self.bottom@,
            north: self.north@,
            west: self.west@,
            east: self.east@,
            south: self.south@,
        }
    }
}

/// What the client knows of one kind of block.
#[derive(Debug, Clone, PartialEq, Eq)]
pub struct BlockSettings {
    pub name: String,
    pub textures: BlockTextures,
}

/// The settings of a block as a mathematical value.
pub struct SettingsModel {
    pub name: Seq<char>,
    pub textures: TexturesModel,
}

impl View for BlockSettings {
    type V = SettingsModel;

    open spec fn view(&self) -> SettingsModel {
        SettingsModel { name: self.name@, textures: self.textures@ }
    }
}

impl SettingsModel {
    /// The block that these settings are for.
    pub open spec fn block(self) -> BlockId {
        BlockId::named(lowercase(self.name))
    }
}

/// The settings filed so far, when `list` is filed in order: each under the
/// block that its name stands for, a later one in place of an earlier one
/// for the same block.
pub open spec fn registry(list: Seq<SettingsModel>) -> Map<BlockId, SettingsModel>
    decreases list.len(),
{
    if list.len() == 0 {
        Map::empty()
    } else {
        registry(list.drop_last()).insert(list.last().block(), list.last())
    }
}

/// The settings of every known kind of block.
pub struct BlockMap {
    air: Option<BlockSettings>,
    dirt: Option<BlockSettings>,
    stone: Option<BlockSettings>,
    grass: Option<BlockSettings>,
}

impl View for BlockMap {
    type V = Map<BlockId, SettingsModel>;

    closed spec fn view(&self) -> Map<BlockId, SettingsModel> {
        Map::new(
            |block: BlockId| self.slot(block) is Some,
            |block: BlockId| self.slot(block)->Some_0@,
        )
    }
}

impl BlockMap {
    spec fn slot(&self, block: BlockId) -> Option<BlockSettings> {
        match block {
            BlockId::Air => self.air,
            BlockId::Dirt => self.dirt,
            BlockId::Stone => self.stone,
            BlockId::Grass => self.grass,
        }
    }

    /// A map that knows no block.
    pub fn new() -> (map: BlockMap)
        ensures
            map@ == Map::<BlockId, SettingsModel>::empty(),
    {
        let map = BlockMap { air: None, dirt: None, stone: None, grass: None };
        assert(map@ =~= Map::empty());
        map
    }

    /// Files `settings` under the block that its name stands for, in place
    /// of what was filed for that block before.
    pub fn insert(&mut self, settings: BlockSettings)
        ensures
            final(self)@ == old(self)@.insert(settings@.block(), settings@),
    {
        let block = <BlockId as From<&String>>::from(&settings.name);
        match block {
            BlockId::Air => {
                self.air = Some(settings);
            },
            BlockId::Dirt => {
                self.dirt = Some(settings);
            },
            BlockId::Stone => {
                self.stone = Some(settings);
            },
            BlockId::Grass => {
                self.grass = Some(settings);
            },
        }
        assert(self@ =~= old(self)@.insert(settings@.block(), settings@));
    }

    /// The map of the settings in `list`, filed in order.
    pub fn from_settings(list: Vec<BlockSettings>) -> (map: BlockMap)
        ensures
            map@ == registry(list@.map_values(|settings: BlockSettings| settings@)),
    {
        let ghost models = list@.map_values(|settings: BlockSettings| settings@);
        let mut map = BlockMap::new();
        for settings in iter: list
            invariant
                iter.seq() == list@,
                models == list@.map_values(|settings: BlockSettings| settings@),
                map@ == registry(models.take(iter.index() as int)),
        {
            proof {
                let done = iter.index() as int;
                assert(models.take(done + 1).drop_last() =~= models.take(done));
            }
            map.insert(settings);
        }
        assert(models.take(list@.len() as int) =~= models);
        map
    }

    /// The settings of `block`, if any were filed.
    pub fn get(&self, block: BlockId) -> (settings: Option<&BlockSettings>)
        ensures
            match settings {
                Some(settings) => self@.contains_key(block) && self@[block] == settings@,
                None => !self@.contains_key(block),
            },
    {
        match block {
            BlockId::Air => self.air.as_ref(),
            BlockId::Dirt => self.dirt.as_ref(),
            BlockId::Stone => self.stone.as_ref(),
            BlockId::Grass => self.grass.as_ref(),
        }
    }

    /// The number of blocks that have settings.
    pub fn len(&self) -> (count: usize)
        ensures
            count == self@.len(),
    {
        let mut count: usize = 0;
        if self.air.is_some() {
            count += 1;
        }
        if self.dirt.is_some() {
            count += 1;
        }
        if self.stone.is_some() {
            count += 1;
        }
        if self.grass.is_some() {
            count += 1;
        }
        proof {
            self.lemma_len(count as nat);
        }
        count
    }

    spec fn one_if(filed: bool) -> nat {
        if filed {
            1
        } else {
            0
        }
    }

    proof fn lemma_len(&self, count: nat)
        requires
            count == BlockMap::one_if(self.air is Some) + BlockMap::one_if(self.dirt is Some)
                + BlockMap::one_if(self.stone is Some) + BlockMap::one_if(self.grass is Some),
        ensures
            self@.dom().finite(),
            self@.len() == count,
    {
        let e = Set::<BlockId>::empty();
        let a = if self.air is Some { e.insert(BlockId::Air) } else { e };
        let b = if self.dirt is Some { a.insert(BlockId::Dirt) } else { a };
        let c = if self.stone is Some { b.insert(BlockId::Stone) } else { b };
        let d = if self.grass is Some { c.insert(BlockId::Grass) } else { c };
        assert(self@.dom() =~= d);
    }
}

} // verus!
