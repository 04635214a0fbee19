//! The layout of a record: what is read, in which order, and from which
//! version of the format on.

use crate::item::{ByteField, LongField, ShortField, TextField};
use vstd::prelude::*;

verus! {

/// One thing to do at the cursor.
#[derive(Clone, Copy, PartialEq, Eq, Debug)]
pub enum Step {
    /// An unsigned integer of one byte.
    Byte(ByteField),
    /// A little-endian unsigned integer of two bytes.
    Short(ShortField),
    /// A little-endian unsigned integer of four bytes.
    Long(LongField),
    /// A length-prefixed text in UTF-8.
    Text(TextField),
    /// A length-prefixed text hidden under the item's identifier.
    Hidden(TextField),
    /// This many bytes that are passed over unread.
    Skip(usize),
}

/// A step, and the first format version whose records have it.
#[derive(Clone, Copy, PartialEq, Eq, Debug)]
pub struct Entry {
    pub step: Step,
    pub since: u16,
}

/// Number of entries in the layout of a record.
pub const LAYOUT_LEN: usize = 45;

/// Number of leading entries that every version has.
pub const BASE_LEN: usize = 41;

/// The layout of a record, in file order. The four bytes after the seed
/// colours are the slot of a field that the format gave up; the regions of
/// 80, 13, 4 and 4 bytes are reserved and carry no known meaning.
pub open spec fn spec_layout() -> Seq<Entry> {
    seq![
        Entry { step: Step::Long(LongField::ItemId), since: 0 },
        Entry { step: Step::Byte(ByteField::EditableType), since: 0 },
        Entry { step: Step::Byte(ByteField::ItemCategory), since: 0 },
        Entry { step: Step::Byte(ByteField::ActionType), since: 0 },
        Entry { step: Step::Byte(ByteField::HitSoundType), since: 0 },
        Entry { step: Step::Hidden(TextField::ItemName), since: 0 },
        Entry { step: Step::Text(TextField::TextureFile), since: 0 },
        Entry { step: Step::Long(LongField::TextureHash), since: 0 },
        Entry { step: Step::Byte(ByteField::ItemKind), since: 0 },
        Entry { step: Step::Long(LongField::Val1), since: 0 },
        Entry { step: Step::Byte(ByteField::TextureX), since: 0 },
        Entry { step: Step::Byte(ByteField::TextureY), since: 0 },
        Entry { step: Step::Byte(ByteField::SpreadType), since: 0 },
        Entry { step: Step::Byte(ByteField::IsStripeyWallpaper), since: 0 },
        Entry { step: Step::Byte(ByteField::CollisionType), since: 0 },
        Entry { step: Step::Byte(ByteField::BreakHits), since: 0 },
        Entry { step: Step::Long(LongField::DropChance), since: 0 },
        Entry { step: Step::Byte(ByteField::ClothingType), since: 0 },
        Entry { step: Step::Short(ShortField::Rarity), since: 0 },
        Entry { step: Step::Byte(ByteField::MaxAmount), since: 0 },
        Entry { step: Step::Text(TextField::ExtraFile), since: 0 },
        Entry { step: Step::Long(LongField::ExtraHash), since: 0 },
        Entry { step: Step::Long(LongField::AudioVolume), since: 0 },
        Entry { step: Step::Text(TextField::PetName), since: 0 },
        Entry { step: Step::Text(TextField::PetPrefix), since: 0 },
        Entry { step: Step::Text(TextField::PetSuffix), since: 0 },
        Entry { step: Step::Text(TextField::PetAbility), since: 0 },
        Entry { step: Step::Byte(ByteField::SeedBase), since: 0 },
        Entry { step: Step::Byte(ByteField::SeedOverlay), since: 0 },
        Entry { step: Step::Byte(ByteField::TreeBase), since: 0 },
        Entry { step: Step::Byte(ByteField::TreeLeaves), since: 0 },
        Entry { step: Step::Long(LongField::SeedColor), since: 0 },
        Entry { step: Step::Long(LongField::SeedOverlayColor), since: 0 },
        Entry { step: Step::Skip(4), since: 0 },
        Entry { step: Step::Long(LongField::GrowTime), since: 0 },
        Entry { step: Step::Short(ShortField::Val2), since: 0 },
        Entry { step: Step::Short(ShortField::IsRayman), since: 0 },
        Entry { step: Step::Text(TextField::ExtraOptions), since: 0 },
        Entry { step: Step::Text(TextField::Texture2), since: 0 },
        Entry { step: Step::Text(TextField::ExtraOptions2), since: 0 },
        Entry { step: Step::Skip(80), since: 0 },
        Entry { step: Step::Text(TextField::PunchOptions), since: 11 },
        Entry { step: Step::Skip(13), since: 12 },
        Entry { step: Step::Skip(4), since: 13 },
        Entry { step: Step::Skip(4), since: 14 },
    ]
}

/// The layout of a record, in file order.
pub fn layout() -> (plan: Vec<Entry>)
    ensures
        plan@ == spec_layout(),
{
    vec![
        Entry { step: Step::Long(LongField::ItemId), since: 0 },
        Entry { step: Step::Byte(ByteField::EditableType), since: 0 },
        Entry { step: Step::Byte(ByteField::ItemCategory), since: 0 },
        Entry { step: Step::Byte(ByteField::ActionType), since: 0 },
        Entry { step: Step::Byte(ByteField::HitSoundType), since: 0 },
        Entry { step: Step::Hidden(TextField::ItemName), since: 0 },
        Entry { step: Step::Text(TextField::TextureFile), since: 0 },
        Entry { step: Step::Long(LongField::TextureHash), since: 0 },
        Entry { step: Step::Byte(ByteField::ItemKind), since: 0 },
        Entry { step: Step::Long(LongField::Val1), since: 0 },
        Entry { step: Step::Byte(ByteField::TextureX), since: 0 },
        Entry { step: Step::Byte(ByteField::TextureY), since: 0 },
        Entry { step: Step::Byte(ByteField::SpreadType), since: 0 },
        Entry { step: Step::Byte(ByteField::IsStripeyWallpaper), since: 0 },
        Entry { step: Step::Byte(ByteField::CollisionType), since: 0 },
        Entry { step: Step::Byte(ByteField::BreakHits), since: 0 },
        Entry { step: Step::Long(LongField::DropChance), since: 0 },
        Entry { step: Step::Byte(ByteField::ClothingType), since: 0 },
        Entry { step: Step::Short(ShortField::Rarity), since: 0 },
        Entry { step: Step::Byte(ByteField::MaxAmount), since: 0 },
        Entry { step: Step::Text(TextField::ExtraFile), since: 0 },
        Entry { step: Step::Long(LongField::ExtraHash), since: 0 },
        Entry { step: Step::Long(LongField::AudioVolume), since: 0 },
        Entry { step: Step::Text(TextField::PetName), since: 0 },
        Entry { step: Step::Text(TextField::PetPrefix), since: 0 },
        Entry { step: Step::Text(TextField::PetSuffix), since: 0 },
        Entry { step: Step::Text(TextField::PetAbility), since: 0 },
        Entry { step: Step::Byte(ByteField::SeedBase), since: 0 },
        Entry { step: Step::Byte(ByteField::SeedOverlay), since: 0 },
        Entry { step: Step::Byte(ByteField::TreeBase), since: 0 },
        Entry { step: Step::Byte(ByteField::TreeLeaves), since: 0 },
        Entry { step: Step::Long(LongField::SeedColor), since: 0 },
        Entry { step: Step::Long(LongField::SeedOverlayColor), since: 0 },
        Entry { step: Step::Skip(4), since: 0 },
        Entry { step: Step::Long(LongField::GrowTime), since: 0 },
        Entry { step: Step::Short(ShortField::Val2), since: 0 },
        Entry { step: Step::Short(ShortField::IsRayman), since: 0 },
        Entry { step: Step::Text(TextField::ExtraOptions), since: 0 },
        Entry { step: Step::Text(TextField::Texture2), since: 0 },
        Entry { step: Step::Text(TextField::ExtraOptions2), since: 0 },
        Entry { step: Step::Skip(80), since: 0 },
        Entry { step: Step::Text(TextField::PunchOptions), since: 11 },
        Entry { step: Step::Skip(13), since: 12 },
        Entry { step: Step::Skip(4), since: 13 },
        Entry { step: Step::Skip(4), since: 14 },
    ]
}

} // verus!
