//! One item definition, and the names of its fields.

use vstd::prelude::*;

verus! {

/// The fields stored in one byte.
#[derive(Clone, Copy, PartialEq, Eq, Debug, Structural)]
pub enum ByteField {
    EditableType,
    ItemCategory,
    ActionType,
    HitSoundType,
    ItemKind,
    TextureX,
    TextureY,
    SpreadType,
    IsStripeyWallpaper,
    CollisionType,
    BreakHits,
    ClothingType,
    MaxAmount,
    SeedBase,
    SeedOverlay,
    TreeBase,
    TreeLeaves,
}

/// The fields stored in two bytes.
#[derive(Clone, Copy, PartialEq, Eq, Debug, Structural)]
pub enum ShortField {
    Rarity,
    Val2,
    IsRayman,
}

/// The fields stored in four bytes.
#[derive(Clone, Copy, PartialEq, Eq, Debug, Structural)]
pub enum LongField {
    ItemId,
    TextureHash,
    Val1,
    DropChance,
    ExtraHash,
    AudioVolume,
    SeedColor,
    SeedOverlayColor,
    GrowTime,
}

/// The length-prefixed text fields.
#[derive(Clone, Copy, PartialEq, Eq, Debug, Structural)]
pub enum TextField {
    ItemName,
    TextureFile,
    ExtraFile,
    PetName,
    PetPrefix,
    PetSuffix,
    PetAbility,
    ExtraOptions,
    Texture2,
    ExtraOptions2,
    PunchOptions,
}

/// One item definition as decoded. A field that the file's version does not
/// have keeps the value that `Item::new` gave it.
#[derive(Clone, Debug, PartialEq, Eq)]
pub struct Item {
    pub item_id: u32,
    pub editable_type: u64,
    pub item_category: u64,
    pub action_type: u64,
    pub hit_sound_type: u64,
    pub item_name: String,
    pub texture_file: String,
    pub texture_hash: u32,
    pub item_kind: u64,
    pub val1: u32,
    pub texture_x: u64,
    pub texture_y: u64,
    pub spread_type: u64,
    pub is_stripey_wallpaper: u64,
    pub collision_type: u64,
    pub break_hits: u64,
    pub drop_chance: u32,
    pub clothing_type: u64,
    pub rarity: u16,
    pub max_amount: u64,
    pub extra_file: String,
    pub extra_hash: u32,
    pub audio_volume: u32,
    pub pet_name: String,
    pub pet_prefix: String,
    pub pet_suffix: String,
    pub pet_ability: String,
    pub seed_base: u64,
    pub seed_overlay: u64,
    pub tree_base: u64,
    pub tree_leaves: u64,
    pub seed_color: u32,
    pub seed_overlay_color: u32,
    pub grow_time: u32,
    pub val2: u16,
    pub is_rayman: u16,
    pub extra_options: String,
    pub texture2: String,
    pub extra_options2: String,
    pub punch_options: String,
}

/// An item with its texts as sequences of characters.
pub struct ItemView {
    pub item_id: u32,
    pub editable_type: u64,
    pub item_category: u64,
    pub action_type: u64,
    pub hit_sound_type: u64,
    pub item_name: Seq<char>,
    pub texture_file: Seq<char>,
    pub texture_hash: u32,
    pub item_kind: u64,
    pub val1: u32,
    pub texture_x: u64,
    pub texture_y: u64,
    pub spread_type: u64,
    pub is_stripey_wallpaper: u64,
    pub collision_type: u64,
    pub break_hits: u64,
    pub drop_chance: u32,
    pub clothing_type: u64,
    pub rarity: u16,
    pub max_amount: u64,
    pub extra_file: Seq<char>,
    pub extra_hash: u32,
    pub audio_volume: u32,
    pub pet_name: Seq<char>,
    pub pet_prefix: Seq<char>,
    pub pet_suffix: Seq<char>,
    pub pet_ability: Seq<char>,
    pub seed_base: u64,
    pub seed_overlay: u64,
    pub tree_base: u64,
    pub tree_leaves: u64,
    pub seed_color: u32,
    pub seed_overlay_color: u32,
    pub grow_time: u32,
    pub val2: u16,
    pub is_rayman: u16,
    pub extra_options: Seq<char>,
    pub texture2: Seq<char>,
    pub extra_options2: Seq<char>,
    pub punch_options: Seq<char>,
}

impl View for Item {
    type V = ItemView;

    open spec fn view(&self) -> ItemView {
        ItemView {
            item_id: self.item_id,
            editable_type: self.editable_type,
            item_category: self.item_category,
            action_type: self.action_type,
            hit_sound_type: self.hit_sound_type,
            item_name: self.item_name@,
            texture_file: self.texture_file@,
            texture_hash: self.texture_hash,
            item_kind: self.item_kind,
            val1: self.val1,
            texture_x: self.texture_x,
            texture_y: self.texture_y,
            spread_type: self.spread_type,
            is_stripey_wallpaper: self.is_stripey_wallpaper,
            collision_type: self.collision_type,
            break_hits: self.break_hits,
            drop_chance: self.drop_chance,
            clothing_type: self.clothing_type,
            rarity: self.rarity,
            max_amount: self.max_amount,
            extra_file: self.extra_file@,
            extra_hash: self.extra_hash,
            audio_volume: self.audio_volume,
            pet_name: self.pet_name@,
            pet_prefix: self.pet_prefix@,
            pet_suffix: self.pet_suffix@,
            pet_ability: self.pet_ability@,
            seed_base: self.seed_base,
            seed_overlay: self.seed_overlay,
            tree_base: self.tree_base,
            tree_leaves: self.tree_leaves,
            seed_color: self.seed_color,
            seed_overlay_color: self.seed_overlay_color,
            grow_time: self.grow_time,
            val2: self.val2,
            is_rayman: self.is_rayman,
            extra_options: self.extra_options@,
            texture2: self.texture2@,
            extra_options2: self.extra_options2@,
            punch_options: self.punch_options@,
        }
    }
}

impl ByteField {
    /// What a one-byte field means. `break_hits` is stored as six times the
    /// number of hits, and only the quotient is kept; every other field
    /// means what it stores.
    pub open spec fn spec_decode(self, raw: u64) -> u64 {
        if self == ByteField::BreakHits {
            raw / 6
        } else {
            raw
        }
    }

    /// What the stored value `raw` of this field means.
    #[verifier::when_used_as_spec(spec_decode)]
    pub fn decode(self, raw: u64) -> (value: u64)
        ensures
            value == self.spec_decode(raw),
    {
        match self {
            ByteField::BreakHits => raw / 6,
            _ => raw,
        }
    }
}

impl ItemView {
    /// Every number zero and every text empty.
    pub open spec fn blank() -> ItemView {
        ItemView {
            item_id: 0,
            editable_type: 0,
            item_category: 0,
            action_type: 0,
            hit_sound_type: 0,
            item_name: Seq::empty(),
            texture_file: Seq::empty(),
            texture_hash: 0,
            item_kind: 0,
            val1: 0,
            texture_x: 0,
            texture_y: 0,
            spread_type: 0,
            is_stripey_wallpaper: 0,
            collision_type: 0,
            break_hits: 0,
            drop_chance: 0,
            clothing_type: 0,
            rarity: 0,
            max_amount: 0,
            extra_file: Seq::empty(),
            extra_hash: 0,
            audio_volume: 0,
            pet_name: Seq::empty(),
            pet_prefix: Seq::empty(),
            pet_suffix: Seq::empty(),
            pet_ability: Seq::empty(),
            seed_base: 0,
            seed_overlay: 0,
            tree_base: 0,
            tree_leaves: 0,
            seed_color: 0,
            seed_overlay_color: 0,
            grow_time: 0,
            val2: 0,
            is_rayman: 0,
            extra_options: Seq::empty(),
            texture2: Seq::empty(),
            extra_options2: Seq::empty(),
            punch_options: Seq::empty(),
        }
    }

    /// This item with the field `field` replaced.
    pub open spec fn with_byte(self, field: ByteField, value: u64) -> ItemView {
        match field {
            ByteField::EditableType => ItemView { editable_type: value, ..self },
            ByteField::ItemCategory => ItemView { item_category: value, ..self },
            ByteField::ActionType => ItemView { action_type: value, ..self },
            ByteField::HitSoundType => ItemView { hit_sound_type: value, ..self },
            ByteField::ItemKind => ItemView { item_kind: value, ..self },
            ByteField::TextureX => ItemView { texture_x: value, ..self },
            ByteField::TextureY => ItemView { texture_y: value, ..self },
            ByteField::SpreadType => ItemView { spread_type: value, ..self },
            ByteField::IsStripeyWallpaper => ItemView { is_stripey_wallpaper: value, ..self },
            ByteField::CollisionType => ItemView { collision_type: value, ..self },
            ByteField::BreakHits => ItemView { break_hits: value, ..self },
            ByteField::ClothingType => ItemView { clothing_type: value, ..self },
            ByteField::MaxAmount => ItemView { max_amount: value, ..self },
            ByteField::SeedBase => ItemView { seed_base: value, ..self },
            ByteField::SeedOverlay => ItemView { seed_overlay: value, ..self },
            ByteField::TreeBase => ItemView { tree_base: value, ..self },
            ByteField::TreeLeaves => ItemView { tree_leaves: value, ..self },
        }
    }

    /// This item with the field `field` replaced.
    pub open spec fn with_short(self, field: ShortField, value: u16) -> ItemView {
        match field {
            ShortField::Rarity => ItemView { rarity: value, ..self },
            ShortField::Val2 => ItemView { val2: value, ..self },
            ShortField::IsRayman => ItemView { is_rayman: value, ..self },
        }
    }

    /// This item with the field `field` replaced.
    pub open spec fn with_long(self, field: LongField, value: u32) -> ItemView {
        match field {
            LongField::ItemId => ItemView { item_id: value, ..self },
            LongField::TextureHash => ItemView { texture_hash: value, ..self },
            LongField::Val1 => ItemView { val1: value, ..self },
            LongField::DropChance => ItemView { drop_chance: value, ..self },
            LongField::ExtraHash => ItemView { extra_hash: value, ..self },
            LongField::AudioVolume => ItemView { audio_volume: value, ..self },
            LongField::SeedColor => ItemView { seed_color: value, ..self },
            LongField::SeedOverlayColor => ItemView { seed_overlay_color: value, ..self },
            LongField::GrowTime => ItemView { grow_time: value, ..self },
        }
    }

    /// This item with the field `field` replaced.
    pub open spec fn with_text(self, field: TextField, text: Seq<char>) -> ItemView {
        match field {
            TextField::ItemName => ItemView { item_name: text, ..self },
            TextField::TextureFile => ItemView { texture_file: text, ..self },
            TextField::ExtraFile => ItemView { extra_file: text, ..self },
            TextField::PetName => ItemView { pet_name: text, ..self },
            TextField::PetPrefix => ItemView { pet_prefix: text, ..self },
            TextField::PetSuffix => ItemView { pet_suffix: text, ..self },
            TextField::PetAbility => ItemView { pet_ability: text, ..self },
            TextField::ExtraOptions => ItemView { extra_options: text, ..self },
            TextField::Texture2 => ItemView { texture2: text, ..self },
            TextField::ExtraOptions2 => ItemView { extra_options2: text, ..self },
            TextField::PunchOptions => ItemView { punch_options: text, ..self },
        }
    }
}

impl Item {
    /// An item with every number zero and every text empty.
    pub fn new() -> (item: Item)
        ensures
            item@ == ItemView::blank(),
    {
        Item {
            item_id: 0,
            editable_type: 0,
            item_category: 0,
            action_type: 0,
            hit_sound_type: 0,
            item_name: String::new(),
            texture_file: String::new(),
            texture_hash: 0,
            item_kind: 0,
            val1: 0,
            texture_x: 0,
            texture_y: 0,
            spread_type: 0,
            is_stripey_wallpaper: 0,
            collision_type: 0,
            break_hits: 0,
            drop_chance: 0,
            clothing_type: 0,
            rarity: 0,
            max_amount: 0,
            extra_file: String::new(),
            extra_hash: 0,
            audio_volume: 0,
            pet_name: String::new(),
            pet_prefix: String::new(),
            pet_suffix: String::new(),
            pet_ability: String::new(),
            seed_base: 0,
            seed_overlay: 0,
            tree_base: 0,
            tree_leaves: 0,
            seed_color: 0,
            seed_overlay_color: 0,
            grow_time: 0,
            val2: 0,
            is_rayman: 0,
            extra_options: String::new(),
            texture2: String::new(),
            extra_options2: String::new(),
            punch_options: String::new(),
        }
    }

    /// Replaces the field `field`.
    pub fn set_byte(&mut self, field: ByteField, value: u64)
        ensures
            final(self)@ == old(self)@.with_byte(field, value),
    {
        match field {
            ByteField::EditableType => {
                self.editable_type = value;
            },
            ByteField::ItemCategory => {
                self.item_category = value;
            },
            ByteField::ActionType => {
                self.action_type = value;
            },
            ByteField::HitSoundType => {
                self.hit_sound_type = value;
            },
            ByteField::ItemKind => {
                self.item_kind = value;
            },
            ByteField::TextureX => {
                self.texture_x = value;
            },
            ByteField::TextureY => {
                self.texture_y = value;
            },
            ByteField::SpreadType => {
                self.spread_type = value;
            },
            ByteField::IsStripeyWallpaper => {
                self.is_stripey_wallpaper = value;
            },
            ByteField::CollisionType => {
                self.collision_type = value;
            },
            ByteField::BreakHits => {
                self.break_hits = value;
            },
            ByteField::ClothingType => {
                self.clothing_type = value;
            },
            ByteField::MaxAmount => {
                self.max_amount = value;
            },
            ByteField::SeedBase => {
                self.seed_base = value;
            },
            ByteField::SeedOverlay => {
                self.seed_overlay = value;
            },
            ByteField::TreeBase => {
                self.tree_base = value;
            },
            ByteField::TreeLeaves => {
                self.tree_leaves = value;
            },
        }
    }

    /// Replaces the field `field`.
    pub fn set_short(&mut self, field: ShortField, value: u16)
        ensures
            final(self)@ == old(self)@.with_short(field, value),
    {
        match field {
            ShortField::Rarity => {
                self.rarity = value;
            },
            ShortField::Val2 => {
                self.val2 = value;
            },
            ShortField::IsRayman => {
                self.is_rayman = value;
            },
        }
    }

    /// Replaces the field `field`.
    pub fn set_long(&mut self, field: LongField, value: u32)
        ensures
            final(self)@ == old(self)@.with_long(field, value),
    {
        match field {
            LongField::ItemId => {
                self.item_id = value;
            },
            LongField::TextureHash => {
                self.texture_hash = value;
            },
            LongField::Val1 => {
                self.val1 = value;
            },
            LongField::DropChance => {
                self.drop_chance = value;
            },
            LongField::ExtraHash => {
                self.extra_hash = value;
            },
            LongField::AudioVolume => {
                self.audio_volume = value;
            },
            LongField::SeedColor => {
                self.seed_color = value;
            },
            LongField::SeedOverlayColor => {
                self.seed_overlay_color = value;
            },
            LongField::GrowTime => {
                self.grow_time = value;
            },
        }
    }

    /// Replaces the field `field`.
    pub fn set_text(&mut self, field: TextField, text: String)
        ensures
            final(self)@ == old(self)@.with_text(field, text@),
    {
        match field {
            TextField::ItemName => {
                self.item_name = text;
            },
            TextField::TextureFile => {
                self.texture_file = text;
            },
            TextField::ExtraFile => {
                self.extra_file = text;
            },
            TextField::PetName => {
                self.pet_name = text;
            },
            TextField::PetPrefix => {
                self.pet_prefix = text;
            },
            TextField::PetSuffix => {
                self.pet_suffix = text;
            },
            TextField::PetAbility => {
                self.pet_ability = text;
            },
            TextField::ExtraOptions => {
                self.extra_options = text;
            },
            TextField::Texture2 => {
                self.texture2 = text;
            },
            TextField::ExtraOptions2 => {
                self.extra_options2 = text;
            },
            TextField::PunchOptions => {
                self.punch_options = text;
            },
        }
    }
}

} // verus!
