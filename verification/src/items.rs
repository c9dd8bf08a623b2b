//! The registry of item and block kinds: for each block id, whether the
//! block is transparent and where its faces lie in the texture atlas.

use vstd::prelude::*;
use vstd::string::StringSliceAdditionalSpecFns;

verus! {

/// What sort of thing an item is.
#[derive(Copy, Clone, Debug, PartialEq, Eq, Structural)]
pub enum ItemType {
    Air,
    BlockCube,
    BlockCross,
    UserItem,
}

/// The kind that a name in an item script stands for. A name that stands
/// for none of the kinds makes a user item.
pub open spec fn item_type_named(name: Seq<char>) -> ItemType {
    if name == "Air"@ {
        ItemType::Air
    } else if name == "BlockCube"@ {
        ItemType::BlockCube
    } else if name == "BlockCross"@ {
        ItemType::BlockCross
    } else {
        ItemType::UserItem
    }
}

/// Whether two strings hold the same text.
fn same_text(a: &str, b: &str) -> (same: bool)
    ensures
        same == (a@ == b@),
{
    let x = a.as_bytes();
    let y = b.as_bytes();
    proof {
        vstd::utf8::encode_utf8_decode_utf8(a@);
        vstd::utf8::encode_utf8_decode_utf8(b@);
    }
    if x.len() != y.len() {
        return false;
    }
    let mut i: usize = 0;
    while i < x.len()
        invariant
            i <= x@.len(),
            x@.len() == y@.len(),
            x@ == a.spec_bytes(),
            y@ == b.spec_bytes(),
            forall|j: int| 0 <= j < i ==> x@[j] == y@[j],
        decreases x@.len() - i,
    {
        if x[i] != y[i] {
            return false;
        }
        i += 1;
    }
    assert(x@ =~= y@);
    true
}

impl ItemType {
    /// Reads the kind of an item from its name in an item script.
    pub fn from_name(name: &str) -> (kind: ItemType)
        ensures
            kind == item_type_named(name@),
    {
        if same_text(name, "Air") {
            ItemType::Air
        } else if same_text(name, "BlockCube") {
            ItemType::BlockCube
        } else if same_text(name, "BlockCross") {
            ItemType::BlockCross
        } else {
            ItemType::UserItem
        }
    }
}

/// A point of the texture atlas. Each coordinate is a single-precision
/// number, held as its IEEE 754 bit pattern so that it can be copied and
/// compared exactly.
#[derive(Copy, Clone, Debug, PartialEq, Eq, Structural)]
pub struct TexCoord {
    pub u: u32,
    pub v: u32,
}

/// The four corners of a face's texture: bottom left, bottom right, top
/// right, top left.
#[derive(Copy, Clone, Debug, PartialEq, Eq, Structural)]
pub struct TextureCoordinates {
    pub bl: TexCoord,
    pub br: TexCoord,
    pub tr: TexCoord,
    pub tl: TexCoord,
}

/// Everything the registry knows about one kind of item.
#[derive(Clone, Debug)]
pub struct ItemInfo {
    pub item_type: ItemType,
    pub is_transparent: bool,
    pub show_in_inventory: bool,
    pub name: String,
    pub top_tex_coords: TextureCoordinates,
    pub side_tex_coords: TextureCoordinates,
    pub bottom_tex_coords: TextureCoordinates,
}

/// The item kind that a registry with entries `reg` holds for `id`: ids are
/// handed out in order of registration, starting at 0.
pub open spec fn registry_lookup(reg: Seq<ItemInfo>, id: int) -> Option<ItemInfo> {
    if 0 <= id < reg.len() {
        Some(reg[id])
    } else {
        None
    }
}

/// Whether `reg` reports the block `id` as transparent; `None` where it does
/// not know the id.
pub open spec fn registry_transparency(reg: Seq<ItemInfo>, id: int) -> Option<bool> {
    match registry_lookup(reg, id) {
        Some(info) => Some(info.is_transparent),
        None => None,
    }
}

/// The registry of item kinds, indexed by block id.
#[derive(Debug)]
pub struct ItemManager {
    items: Vec<ItemInfo>,
}

impl View for ItemManager {
    type V = Seq<ItemInfo>;

    /// The registered kinds, in order of their ids.
    closed spec fn view(&self) -> Seq<ItemInfo> {
        self.items@
    }
}

impl ItemManager {
    /// An empty registry.
    pub fn new() -> (m: ItemManager)
        ensures
            m@ == Seq::<ItemInfo>::empty(),
    {
        ItemManager { items: Vec::new() }
    }

    /// Number of registered kinds; the next id to be handed out.
    pub fn len(&self) -> (n: usize)
        ensures
            n == self@.len(),
    {
        self.items.len()
    }

    /// Registers `item` under the next free id.
    pub fn put_new_item(&mut self, item: ItemInfo)
        ensures
            final(self)@ == old(self)@.push(item),
    {
        self.items.push(item);
    }

    /// The kind registered under `id`, if there is one.
    pub fn get_item_by_id(&self, id: i32) -> (r: Option<&ItemInfo>)
        ensures
            match r {
                Some(info) => registry_lookup(self@, id as int) == Some(*info),
                None => registry_lookup(self@, id as int) is None,
            },
    {
        if id < 0 {
            return None;
        }
        let at = id as usize;
        if at < self.items.len() {
            Some(&self.items[at])
        } else {
            None
        }
    }

    /// Whether the block `id` is transparent, if the id is registered.
    pub fn is_transparent(&self, id: i32) -> (r: Option<bool>)
        ensures
            r == registry_transparency(self@, id as int),
    {
        match self.get_item_by_id(id) {
            Some(info) => Some(info.is_transparent),
            None => None,
        }
    }
}

} // verus!
