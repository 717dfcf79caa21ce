//! Map tiles: a fixed-schema record with an RGBA colour buffer.

use vstd::prelude::*;
use crate::error::DecodeError;
use crate::keys::{map_key, map_key_spec};
use crate::tag::{get, lookup, Tag};

verus! {

/// A map tile.
#[derive(Debug, Clone, PartialEq)]
pub struct WorldMap {
    pub dimension: u8,
    pub fully_explored: u8,
    pub map_locked: u8,
    pub scale: u8,
    pub unlimited_tracking: u8,
    pub height: i16,
    width: i16,
    pub x_center: i32,
    pub z_center: i32,
    pub map_id: i64,
    pub parent_map_id: i64,
    pub colors: Vec<u8>,
}

/// The fields of a map tile as plain values.
pub struct WorldMapView {
    pub dimension: u8,
    pub fully_explored: u8,
    pub map_locked: u8,
    pub scale: u8,
    pub unlimited_tracking: u8,
    pub height: i16,
    pub width: i16,
    pub x_center: i32,
    pub z_center: i32,
    pub map_id: i64,
    pub parent_map_id: i64,
    pub colors: Seq<u8>,
}

impl View for WorldMap {
    type V = WorldMapView;

    closed spec fn view(&self) -> WorldMapView {
        WorldMapView {
            dimension: self.dimension,
            fully_explored: self.fully_explored,
            map_locked: self.map_locked,
            scale: self.scale,
            unlimited_tracking: self.unlimited_tracking,
            height: self.height,
            width: self.width,
            x_center: self.x_center,
            z_center: self.z_center,
            map_id: self.map_id,
            parent_map_id: self.parent_map_id,
            colors: self.colors@,
        }
    }
}

/// The colour buffer holds four bytes for each of `width * height` pixels.
pub open spec fn valid_map(m: WorldMapView) -> bool {
    m.width >= 0 && m.height >= 0 && m.colors.len() == m.width * m.height * 4
}

/// Whether every colour byte is zero.
pub open spec fn all_zero(colors: Seq<u8>) -> bool {
    forall|i: int| 0 <= i < colors.len() ==> colors[i] == 0
}

pub open spec fn byte_field(e: Seq<(String, Tag)>, name: Seq<char>) -> Option<u8> {
    match lookup(e, name) {
        Some(Tag::Byte(b)) => Some(b),
        _ => None,
    }
}

pub open spec fn short_field(e: Seq<(String, Tag)>, name: Seq<char>) -> Option<i16> {
    match lookup(e, name) {
        Some(Tag::Short(v)) => Some(v),
        _ => None,
    }
}

pub open spec fn int_field(e: Seq<(String, Tag)>, name: Seq<char>) -> Option<i32> {
    match lookup(e, name) {
        Some(Tag::Int(v)) => Some(v),
        _ => None,
    }
}

pub open spec fn long_field(e: Seq<(String, Tag)>, name: Seq<char>) -> Option<i64> {
    match lookup(e, name) {
        Some(Tag::Long(v)) => Some(v),
        _ => None,
    }
}

pub open spec fn bytes_field(e: Seq<(String, Tag)>, name: Seq<char>) -> Option<Seq<u8>> {
    match lookup(e, name) {
        Some(Tag::ByteArray(v)) => Some(v@),
        _ => None,
    }
}

/// The map tile that a tag tree holds under the save format's field names,
/// or `None` where a field is missing, of the wrong kind, or the colour
/// buffer does not match the size. Other fields are ignored.
pub open spec fn map_of_tag(t: Tag) -> Option<WorldMapView> {
    match t {
        Tag::Compound(e) => {
            let e = e@;
            if byte_field(e, "dimension"@) is Some && byte_field(e, "fullyExplored"@) is Some
                && byte_field(e, "mapLocked"@) is Some && byte_field(e, "scale"@) is Some
                && byte_field(e, "unlimitedTracking"@) is Some && short_field(e, "height"@) is Some
                && short_field(e, "width"@) is Some && int_field(e, "xCenter"@) is Some
                && int_field(e, "zCenter"@) is Some && long_field(e, "mapId"@) is Some
                && long_field(e, "parentMapId"@) is Some && bytes_field(e, "colors"@) is Some {
                let m = WorldMapView {
                    dimension: byte_field(e, "dimension"@)->0,
                    fully_explored: byte_field(e, "fullyExplored"@)->0,
                    map_locked: byte_field(e, "mapLocked"@)->0,
                    scale: byte_field(e, "scale"@)->0,
                    unlimited_tracking: byte_field(e, "unlimitedTracking"@)->0,
                    height: short_field(e, "height"@)->0,
                    width: short_field(e, "width"@)->0,
                    x_center: int_field(e, "xCenter"@)->0,
                    z_center: int_field(e, "zCenter"@)->0,
                    map_id: long_field(e, "mapId"@)->0,
                    parent_map_id: long_field(e, "parentMapId"@)->0,
                    colors: bytes_field(e, "colors"@)->0,
                };
                if valid_map(m) {
                    Some(m)
                } else {
                    None
                }
            } else {
                None
            }
        },
        _ => None,
    }
}

/// The tag tree of a map tile: a compound of exactly these twelve fields, in
/// this order.
pub open spec fn is_map_tag(t: Tag, m: WorldMapView) -> bool {
    &&& t matches Tag::Compound(e)
    &&& t->Compound_0@.len() == 12
    &&& {
        let e = t->Compound_0@;
        &&& e[0].0@ == "dimension"@ && e[0].1 == Tag::Byte(m.dimension)
        &&& e[1].0@ == "fullyExplored"@ && e[1].1 == Tag::Byte(m.fully_explored)
        &&& e[2].0@ == "mapLocked"@ && e[2].1 == Tag::Byte(m.map_locked)
        &&& e[3].0@ == "scale"@ && e[3].1 == Tag::Byte(m.scale)
        &&& e[4].0@ == "unlimitedTracking"@ && e[4].1 == Tag::Byte(m.unlimited_tracking)
        &&& e[5].0@ == "height"@ && e[5].1 == Tag::Short(m.height)
        &&& e[6].0@ == "width"@ && e[6].1 == Tag::Short(m.width)
        &&& e[7].0@ == "xCenter"@ && e[7].1 == Tag::Int(m.x_center)
        &&& e[8].0@ == "zCenter"@ && e[8].1 == Tag::Int(m.z_center)
        &&& e[9].0@ == "mapId"@ && e[9].1 == Tag::Long(m.map_id)
        &&& e[10].0@ == "parentMapId"@ && e[10].1 == Tag::Long(m.parent_map_id)
        &&& e[11].0@ == "colors"@
        &&& e[11].1 matches Tag::ByteArray(c)
        &&& e[11].1->ByteArray_0@ == m.colors
    }
}

/// Where a compound lists `name` only at `i`, before any other use of it,
/// `lookup` finds the child at `i`.
proof fn lemma_lookup_at(e: Seq<(String, Tag)>, i: int)
    requires
        0 <= i < e.len(),
        forall|j: int| 0 <= j < i ==> #[trigger] e[j].0@ != e[i].0@,
    ensures
        lookup(e, e[i].0@) == Some(e[i].1),
    decreases i,
{
    if i > 0 {
        let d = e.drop_first();
        assert(d[i - 1] == e[i]);
        assert forall|j: int| 0 <= j < i - 1 implies #[trigger] d[j].0@ != d[i - 1].0@ by {
            assert(d[j] == e[j + 1]);
        }
        lemma_lookup_at(d, i - 1);
    }
}

/// Decoding the tag tree of a valid map tile gives back every field of it,
/// the colour buffer included.
pub proof fn lemma_map_round_trip(t: Tag, m: WorldMapView)
    requires
        is_map_tag(t, m),
        valid_map(m),
    ensures
        map_of_tag(t) == Some(m),
{
    reveal_strlit("dimension");
    reveal_strlit("fullyExplored");
    reveal_strlit("mapLocked");
    reveal_strlit("scale");
    reveal_strlit("unlimitedTracking");
    reveal_strlit("height");
    reveal_strlit("width");
    reveal_strlit("xCenter");
    reveal_strlit("zCenter");
    reveal_strlit("mapId");
    reveal_strlit("parentMapId");
    reveal_strlit("colors");
    let e = t->Compound_0@;
    assert forall|i: int, j: int| 0 <= j < i < 12 implies #[trigger] e[j].0@ != #[trigger] e[i].0@ by {
        assert(e[j].0@.len() != e[i].0@.len() || e[j].0@[0] != e[i].0@[0] || e[j].0@[1]
            != e[i].0@[1]);
    }
    lemma_lookup_at(e, 0);
    lemma_lookup_at(e, 1);
    lemma_lookup_at(e, 2);
    lemma_lookup_at(e, 3);
    lemma_lookup_at(e, 4);
    lemma_lookup_at(e, 5);
    lemma_lookup_at(e, 6);
    lemma_lookup_at(e, 7);
    lemma_lookup_at(e, 8);
    lemma_lookup_at(e, 9);
    lemma_lookup_at(e, 10);
    lemma_lookup_at(e, 11);
}

/// A tile whose colour bytes are all zero stops being empty when any one
/// byte is set to a non-zero value.
pub proof fn lemma_set_byte_not_empty(colors: Seq<u8>, i: int, b: u8)
    requires
        all_zero(colors),
        0 <= i < colors.len(),
        b != 0,
    ensures
        !all_zero(colors.update(i, b)),
{
    assert(colors.update(i, b)[i] == b);
}

fn read_byte(e: &Vec<(String, Tag)>, name: &str) -> (r: Result<u8, DecodeError>)
    ensures
        match r {
            Ok(v) => byte_field(e@, name@) == Some(v),
            Err(_) => byte_field(e@, name@) is None,
        },
{
    match get(e, name) {
        Some(Tag::Byte(v)) => Ok(*v),
        Some(_) => Err(DecodeError::WrongKind(String::from_str(name))),
        None => Err(DecodeError::MissingField(String::from_str(name))),
    }
}

fn read_short(e: &Vec<(String, Tag)>, name: &str) -> (r: Result<i16, DecodeError>)
    ensures
        match r {
            Ok(v) => short_field(e@, name@) == Some(v),
            Err(_) => short_field(e@, name@) is None,
        },
{
    match get(e, name) {
        Some(Tag::Short(v)) => Ok(*v),
        Some(_) => Err(DecodeError::WrongKind(String::from_str(name))),
        None => Err(DecodeError::MissingField(String::from_str(name))),
    }
}

fn read_int(e: &Vec<(String, Tag)>, name: &str) -> (r: Result<i32, DecodeError>)
    ensures
        match r {
            Ok(v) => int_field(e@, name@) == Some(v),
            Err(_) => int_field(e@, name@) is None,
        },
{
    match get(e, name) {
        Some(Tag::Int(v)) => Ok(*v),
        Some(_) => Err(DecodeError::WrongKind(String::from_str(name))),
        None => Err(DecodeError::MissingField(String::from_str(name))),
    }
}

fn read_long(e: &Vec<(String, Tag)>, name: &str) -> (r: Result<i64, DecodeError>)
    ensures
        match r {
            Ok(v) => long_field(e@, name@) == Some(v),
            Err(_) => long_field(e@, name@) is None,
        },
{
    match get(e, name) {
        Some(Tag::Long(v)) => Ok(*v),
        Some(_) => Err(DecodeError::WrongKind(String::from_str(name))),
        None => Err(DecodeError::MissingField(String::from_str(name))),
    }
}

/// A copy of `v`, byte for byte.
pub fn copy_bytes(v: &Vec<u8>) -> (r: Vec<u8>)
    ensures
        r@ == v@,
{
    let mut r: Vec<u8> = Vec::new();
    let mut i: usize = 0;
    while i < v.len()
        invariant
            0 <= i <= v@.len(),
            r@ == v@.subrange(0, i as int),
        decreases v@.len() - i,
    {
        r.push(v[i]);
        i += 1;
        assert(r@ =~= v@.subrange(0, i as int));
    }
    assert(v@.subrange(0, v@.len() as int) =~= v@);
    r
}

fn read_bytes(e: &Vec<(String, Tag)>, name: &str) -> (r: Result<Vec<u8>, DecodeError>)
    ensures
        match r {
            Ok(v) => bytes_field(e@, name@) == Some(v@),
            Err(_) => bytes_field(e@, name@) is None,
        },
{
    match get(e, name) {
        Some(Tag::ByteArray(v)) => Ok(copy_bytes(v)),
        Some(_) => Err(DecodeError::WrongKind(String::from_str(name))),
        None => Err(DecodeError::MissingField(String::from_str(name))),
    }
}

/// Bytes of a PNG image that the image crate encodes from `colors` as 8-bit
/// RGBA pixels, `width` by `height`.
pub uninterp spec fn png_encoded(colors: Seq<u8>, width: u32, height: u32) -> Seq<u8>;

/// Relies on image's PngEncoder::encode with ColorType::Rgba8; where it
/// reports an error, the bytes written so far are handed back.
#[verifier::external_body]
fn encode_rgba_png(colors: &[u8], width: u32, height: u32) -> (r: Vec<u8>)
    ensures
        r@ == png_encoded(colors@, width, height),
{
    let mut buf = Vec::new();
    let png = image::png::PngEncoder::new(&mut buf);
    let _ = png.encode(colors, width, height, image::ColorType::Rgba8);
    buf
}

impl WorldMap {
    /// A blank 128 by 128 tile with no id and no parent.
    pub fn new() -> (r: Self)
        ensures
            r@.dimension == 0 && r@.fully_explored == 0 && r@.map_locked == 0,
            r@.scale == 0 && r@.unlimited_tracking == 0,
            r@.height == 128 && r@.width == 128,
            r@.x_center == 0 && r@.z_center == 0,
            r@.map_id == -1 && r@.parent_map_id == -1,
            r@.colors == Seq::new(65536, |i: int| 0u8),
            r.wf(),
    {
        let colors = vec![0u8; 65536];
        let r = WorldMap {
            dimension: 0,
            fully_explored: 0,
            map_locked: 0,
            scale: 0,
            unlimited_tracking: 0,
            height: 128,
            width: 128,
            x_center: 0,
            z_center: 0,
            map_id: -1,
            parent_map_id: -1,
            colors,
        };
        assert(r@.colors =~= Seq::new(65536, |i: int| 0u8));
        r
    }

    /// The colour buffer matches the tile's size.
    pub open spec fn wf(&self) -> bool {
        valid_map(self@)
    }

    /// Width in pixels.
    pub fn width(&self) -> (r: i16)
        ensures
            r == self@.width,
    {
        self.width
    }

    /// Decodes a map tile from its tag tree.
    pub fn from_nbt(t: &Tag) -> (r: Result<WorldMap, DecodeError>)
        ensures
            match r {
                Ok(m) => map_of_tag(*t) == Some(m@) && m.wf(),
                Err(_) => map_of_tag(*t) is None,
            },
    {
        let e = match t {
            Tag::Compound(e) => e,
            _ => return Err(DecodeError::NotCompound(String::new())),
        };
        let dimension = read_byte(e, "dimension")?;
        let fully_explored = read_byte(e, "fullyExplored")?;
        let map_locked = read_byte(e, "mapLocked")?;
        let scale = read_byte(e, "scale")?;
        let unlimited_tracking = read_byte(e, "unlimitedTracking")?;
        let height = read_short(e, "height")?;
        let width = read_short(e, "width")?;
        let x_center = read_int(e, "xCenter")?;
        let z_center = read_int(e, "zCenter")?;
        let map_id = read_long(e, "mapId")?;
        let parent_map_id = read_long(e, "parentMapId")?;
        let colors = read_bytes(e, "colors")?;
        if width < 0 || height < 0 {
            return Err(DecodeError::ColorsLength);
        }
        let (w, h) = (width as u64, height as u64);
        assert(w * h <= 32767 * 32767) by (nonlinear_arith)
            requires
                w <= 32767,
                h <= 32767,
        ;
        if colors.len() as u64 != w * h * 4 {
            return Err(DecodeError::ColorsLength);
        }
        Ok(WorldMap {
            dimension,
            fully_explored,
            map_locked,
            scale,
            unlimited_tracking,
            height,
            width,
            x_center,
            z_center,
            map_id,
            parent_map_id,
            colors,
        })
    }

    /// The tag tree of this tile.
    pub fn to_nbt(&self) -> (r: Tag)
        ensures
            is_map_tag(r, self@),
    {
        let mut e: Vec<(String, Tag)> = Vec::new();
        e.push((String::from_str("dimension"), Tag::Byte(self.dimension)));
        e.push((String::from_str("fullyExplored"), Tag::Byte(self.fully_explored)));
        e.push((String::from_str("mapLocked"), Tag::Byte(self.map_locked)));
        e.push((String::from_str("scale"), Tag::Byte(self.scale)));
        e.push((String::from_str("unlimitedTracking"), Tag::Byte(self.unlimited_tracking)));
        e.push((String::from_str("height"), Tag::Short(self.height)));
        e.push((String::from_str("width"), Tag::Short(self.width)));
        e.push((String::from_str("xCenter"), Tag::Int(self.x_center)));
        e.push((String::from_str("zCenter"), Tag::Int(self.z_center)));
        e.push((String::from_str("mapId"), Tag::Long(self.map_id)));
        e.push((String::from_str("parentMapId"), Tag::Long(self.parent_map_id)));
        e.push((String::from_str("colors"), Tag::ByteArray(copy_bytes(&self.colors))));
        Tag::Compound(e)
    }

    /// Whether every colour byte is zero.
    pub fn is_empty(&self) -> (r: bool)
        ensures
            r == all_zero(self@.colors),
    {
        let mut i: usize = 0;
        while i < self.colors.len()
            invariant
                0 <= i <= self.colors@.len(),
                forall|j: int| 0 <= j < i ==> self.colors@[j] == 0,
            decreases self.colors@.len() - i,
        {
            if self.colors[i] != 0 {
                return false;
            }
            i += 1;
        }
        true
    }

    /// The store key of this tile: `map_` and the decimal map id.
    pub fn get_db_key(&self) -> (r: Vec<u8>)
        ensures
            r@ == map_key_spec(self@.map_id),
    {
        map_key(self.map_id)
    }

    /// The tile as a PNG image, 8-bit RGBA, `width` by `height`.
    pub fn encode_png(&self) -> (r: Vec<u8>)
        requires
            self.wf(),
        ensures
            r@ == png_encoded(self@.colors, self@.width as u32, self@.height as u32),
    {
        encode_rgba_png(self.colors.as_slice(), self.width as u32, self.height as u32)
    }
}

} // verus!
