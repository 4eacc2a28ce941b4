//! Which texture hashes an icon draws, layer by layer.
use vstd::prelude::*;
use crate::schema::{offsets_ascending, FieldRule, RecordSchema, ScalarKind, VariantShape};

verus! {

broadcast use vstd::seq_lib::group_seq_properties;

/// Which layer of an icon a texture belongs to.
#[derive(Debug, Clone, Copy, PartialEq, Eq, Structural)]
pub enum IconContainerType {
    Background,
    Primary,
    Overlay,
}

/// Colour-vision setting that selects among an icon's background textures.
#[derive(Debug, Clone, Copy, PartialEq, Eq, Structural)]
pub enum ColorblindMode {
    /// No colour-vision filter.
    Normal,
    Deuteranopia,
    Protanopia,
    Tritanopia,
}

impl ColorblindMode {
    /// Position of the mode's entry in a background layer.
    pub open spec fn index_spec(self) -> nat {
        match self {
            ColorblindMode::Normal => 0,
            ColorblindMode::Deuteranopia => 1,
            ColorblindMode::Protanopia => 2,
            ColorblindMode::Tritanopia => 3,
        }
    }

    pub fn index(&self) -> (r: usize)
        ensures
            r == self.index_spec(),
    {
        match self {
            ColorblindMode::Normal => 0,
            ColorblindMode::Deuteranopia => 1,
            ColorblindMode::Protanopia => 2,
            ColorblindMode::Tritanopia => 3,
        }
    }
}

/// One layer of an icon: a list of texture hashes per entry.
pub struct IconContainer {
    pub entries: Vec<Vec<u32>>,
}

impl IconContainer {
    /// The texture lists, entry by entry.
    pub open spec fn lists(&self) -> Seq<Seq<u32>> {
        Seq::new(self.entries@.len(), |i: int| self.entries@[i]@)
    }

    /// Every texture of every entry, in entry order.
    pub fn all_textures(&self) -> (r: Vec<u32>)
        ensures
            r@ == self.lists().flatten(),
    {
        let mut out: Vec<u32> = Vec::new();
        let mut i: usize = 0;
        while i < self.entries.len()
            invariant
                i <= self.entries@.len(),
                out@ == self.lists().take(i as int).flatten(),
            decreases self.entries@.len() - i,
        {
            proof {
                assert(self.lists().take(i + 1) =~= self.lists().take(i as int).push(self.lists()[i as int]));
                self.lists().take(i as int).lemma_flatten_push(self.lists()[i as int]);
            }
            out.extend_from_slice(self.entries[i].as_slice());
            i = i + 1;
        }
        assert(self.lists().take(i as int) =~= self.lists());
        out
    }

    /// The textures of entry `index`, if there is one.
    pub fn entry_textures(&self, index: usize) -> (r: Option<Vec<u32>>)
        ensures
            index < self.lists().len() ==> (r matches Some(v) && v@ == self.lists()[index as int]),
            index >= self.lists().len() ==> r is None,
    {
        if index < self.entries.len() {
            let mut v: Vec<u32> = Vec::new();
            v.extend_from_slice(self.entries[index].as_slice());
            Some(v)
        } else {
            None
        }
    }
}

/// The texture hashes that one icon draws, layer by layer.
pub struct InvestmentIcon {
    pub hash: u32,
    pub primary: Option<IconContainer>,
    pub background: Option<IconContainer>,
    pub overlay: Option<IconContainer>,
}

/// Every texture of a layer, none where the icon lacks it.
pub open spec fn layer_textures(layer: Option<IconContainer>) -> Seq<u32> {
    match layer {
        Some(c) => c.lists().flatten(),
        None => Seq::empty(),
    }
}

fn all_of(layer: &Option<IconContainer>) -> (r: Vec<u32>)
    ensures
        r@ == layer_textures(*layer),
{
    match layer {
        Some(c) => c.all_textures(),
        None => Vec::new(),
    }
}

impl InvestmentIcon {
    /// The background textures for `mode`: the entry of that mode, or every entry where
    /// no mode is given; none where the layer or the entry is missing.
    pub open spec fn background_spec(&self, mode: Option<ColorblindMode>) -> Seq<u32> {
        match (self.background, mode) {
            (Some(c), Some(m)) => if m.index_spec() < c.lists().len() {
                c.lists()[m.index_spec() as int]
            } else {
                Seq::empty()
            },
            _ => layer_textures(self.background),
        }
    }

    pub fn get_background_textures(&self, colorblind_mode: Option<ColorblindMode>) -> (r: Vec<u32>)
        ensures
            r@ == self.background_spec(colorblind_mode),
    {
        match (&self.background, colorblind_mode) {
            (Some(c), Some(m)) => match c.entry_textures(m.index()) {
                Some(v) => v,
                None => Vec::new(),
            },
            _ => all_of(&self.background),
        }
    }

    /// Every primary texture, in entry order.
    pub fn get_primary_textures(&self) -> (r: Vec<u32>)
        ensures
            r@ == layer_textures(self.primary),
    {
        all_of(&self.primary)
    }

    /// Every overlay texture, in entry order.
    pub fn get_overlay_textures(&self) -> (r: Vec<u32>)
        ensures
            r@ == layer_textures(self.overlay),
    {
        all_of(&self.overlay)
    }
}

/// Discriminant of the icon container shape with per-entry texture lists (`S80803ECD`).
pub const CONTAINER_SHAPE_ECD: u32 = 0x80803ECD;

/// Discriminant of the other icon container shape (`S80803DCB`).
pub const CONTAINER_SHAPE_DCB: u32 = 0x80803ECB;

/// Schema of one shape of icon container: a sequence of entries, each a sequence of
/// 32-bit texture hashes.
fn container_shape_schema(type_id: u32, entry_type_id: u32) -> (r: RecordSchema)
    ensures
        r.type_id == type_id,
        r.size == Some(0x20usize),
        r.fields@.len() == 1,
        r.fields@[0].offset == 0,
        r.fields@[0].rule is Sequence,
{
    let mut hash = RecordSchema::new(0, Some(4));
    hash.push_at(0, FieldRule::Scalar(ScalarKind::U32));
    let mut entry = RecordSchema::new(entry_type_id, Some(0x10));
    entry.push_at(0, FieldRule::Sequence(Box::new(hash)));
    let mut s = RecordSchema::new(type_id, Some(0x20));
    s.push_at(0, FieldRule::Sequence(Box::new(entry)));
    s
}

/// Schema of an icon container (`S80803ECF`): a size word, then a variant reference whose
/// discriminant picks one of the two container shapes.
pub fn icon_container_schema() -> (r: RecordSchema)
    ensures
        r.type_id == 0x80803ECF,
        r.size == Some(0x18usize),
        offsets_ascending(r.fields@),
        r.fields@.len() == 2,
        r.fields@[0].offset == 0 && r.fields@[0].rule == FieldRule::Scalar(ScalarKind::U64),
        r.fields@[1].offset == 0x10,
        r.fields@[1].rule matches FieldRule::Variant { wide, shapes } && !wide && shapes@.len() == 2
            && shapes@[0].discriminant == CONTAINER_SHAPE_ECD && shapes@[1].discriminant == CONTAINER_SHAPE_DCB,
{
    let mut shapes: Vec<VariantShape> = Vec::new();
    shapes.push(VariantShape { discriminant: CONTAINER_SHAPE_ECD, schema: container_shape_schema(0x80803ECD, 0x80803ED2) });
    shapes.push(VariantShape { discriminant: CONTAINER_SHAPE_DCB, schema: container_shape_schema(0x80803ECB, 0x80803ED0) });
    let mut s = RecordSchema::new(0x80803ECF, Some(0x18));
    s.push_at(0, FieldRule::Scalar(ScalarKind::U64));
    s.push_at(0x10, FieldRule::Variant { wide: false, shapes });
    s
}

/// Schema of an investment icon (`SInvestmentIcon`): its hash, three optional references
/// to icon containers (primary, background, overlay), and the background colour as four
/// raw 32-bit words.
#[verifier::rlimit(100)]
pub fn investment_icon_schema() -> (r: RecordSchema)
    ensures
        r.type_id == 0x80803EB8,
        r.size == Some(0x80usize),
        offsets_ascending(r.fields@),
        r.fields@.len() == 9,
        r.fields@[1].offset == 0x10 && r.fields@[1].rule == FieldRule::Scalar(ScalarKind::U32),
        r.fields@[2].offset == 0x14,
        (r.fields@[2].rule matches FieldRule::Reference { wide, optional, .. } && !wide && optional),
        r.fields@[3].offset == 0x20,
        (r.fields@[3].rule matches FieldRule::Reference { wide, optional, .. } && !wide && optional),
        r.fields@[4].offset == 0x24,
        (r.fields@[4].rule matches FieldRule::Reference { wide, optional, .. } && !wide && optional),
{
    let mut s = RecordSchema::new(0x80803EB8, Some(0x80));
    s.push_at(0, FieldRule::Scalar(ScalarKind::U64));
    s.push_at(0x10, FieldRule::Scalar(ScalarKind::U32));
    s.push_at(0x14, FieldRule::Reference { wide: false, optional: true, target: Box::new(icon_container_schema()) });
    s.push_at(0x20, FieldRule::Reference { wide: false, optional: true, target: Box::new(icon_container_schema()) });
    s.push_at(0x24, FieldRule::Reference { wide: false, optional: true, target: Box::new(icon_container_schema()) });
    s.push_at(0x30, FieldRule::Scalar(ScalarKind::U32));
    s.push_at(0x34, FieldRule::Scalar(ScalarKind::U32));
    s.push_at(0x38, FieldRule::Scalar(ScalarKind::U32));
    s.push_at(0x3C, FieldRule::Scalar(ScalarKind::U32));
    s
}

} // verus!
