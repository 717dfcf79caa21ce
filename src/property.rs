//! Dynamic properties: loosely typed named values attached to the world or to
//! an entity, and the two-level table that holds them.

use vstd::prelude::*;
use crate::error::DecodeError;
use crate::tag::Tag;

verus! {

/// A dynamic property value. It is stored without a discriminant: the kind of
/// tag tells the variants apart.
#[derive(Debug, Clone, PartialEq)]
pub enum DynamicPropertyValue {
    Boolean(bool),
    /// A 32-bit float, as its bit pattern.
    Float(u32),
    /// A 64-bit float, as its bit pattern.
    Double(u64),
    String(String),
    /// Three 32-bit floats, as their bit patterns.
    Vector3([u32; 3]),
}

/// A dynamic property value as plain values.
pub enum PropertyView {
    Boolean(bool),
    Float(u32),
    Double(u64),
    String(Seq<char>),
    Vector3(u32, u32, u32),
}

impl View for DynamicPropertyValue {
    type V = PropertyView;

    open spec fn view(&self) -> PropertyView {
        match self {
            DynamicPropertyValue::Boolean(b) => PropertyView::Boolean(*b),
            DynamicPropertyValue::Float(x) => PropertyView::Float(*x),
            DynamicPropertyValue::Double(x) => PropertyView::Double(*x),
            DynamicPropertyValue::String(s) => PropertyView::String(s@),
            DynamicPropertyValue::Vector3(a) => PropertyView::Vector3(a@[0], a@[1], a@[2]),
        }
    }
}

/// Properties of one owner, by name; a name occurs at most once.
pub type Properties = Vec<(String, DynamicPropertyValue)>;

/// Property tables by owner; an owner occurs at most once.
pub type DynamicProperties = Vec<(String, Properties)>;

/// The value a tag holds. The shapes are tried in this order: a byte is a
/// boolean (any non-zero byte is true), a float, a double, a string, and a
/// list of exactly three floats is a vector. Any other tag holds no value.
pub open spec fn value_of_tag(t: Tag) -> Option<PropertyView> {
    match t {
        Tag::Byte(b) => Some(PropertyView::Boolean(b != 0)),
        Tag::Float(x) => Some(PropertyView::Float(x)),
        Tag::Double(x) => Some(PropertyView::Double(x)),
        Tag::String(s) => Some(PropertyView::String(s@)),
        Tag::List(l) => if l@.len() == 3 && l@[0] is Float && l@[1] is Float && l@[2] is Float {
            Some(PropertyView::Vector3(l@[0]->Float_0, l@[1]->Float_0, l@[2]->Float_0))
        } else {
            None
        },
        _ => None,
    }
}

/// The tag that stores `v`: a boolean as byte 1 or 0, a float or double as
/// itself, a string as a string, a vector as a list of three floats.
pub open spec fn is_value_tag(t: Tag, v: PropertyView) -> bool {
    match v {
        PropertyView::Boolean(b) => t == Tag::Byte(if b { 1u8 } else { 0u8 }),
        PropertyView::Float(x) => t == Tag::Float(x),
        PropertyView::Double(x) => t == Tag::Double(x),
        PropertyView::String(s) => t matches Tag::String(s2) && s2@ == s,
        PropertyView::Vector3(x, y, z) => t matches Tag::List(l) && l@.len() == 3 && l@[0]
            == Tag::Float(x) && l@[1] == Tag::Float(y) && l@[2] == Tag::Float(z),
    }
}

/// Every value decodes from its own tag to itself, in the same variant.
pub proof fn lemma_value_round_trip(t: Tag, v: PropertyView)
    requires
        is_value_tag(t, v),
    ensures
        value_of_tag(t) == Some(v),
{
}

pub open spec fn props_view(p: Seq<(String, DynamicPropertyValue)>) -> Seq<(Seq<char>, PropertyView)> {
    p.map_values(|x: (String, DynamicPropertyValue)| (x.0@, x.1@))
}

pub open spec fn table_view(t: Seq<(String, Properties)>) -> Seq<(Seq<char>, Seq<(Seq<char>, PropertyView)>)> {
    t.map_values(|x: (String, Properties)| (x.0@, props_view(x.1@)))
}

/// The properties that the children of a compound hold, in order, or `None`
/// where a child holds no value.
pub open spec fn props_of_entries(e: Seq<(String, Tag)>) -> Option<Seq<(Seq<char>, PropertyView)>>
    decreases e.len(),
{
    if e.len() == 0 {
        Some(Seq::empty())
    } else {
        match (props_of_entries(e.drop_last()), value_of_tag(e.last().1)) {
            (Some(p), Some(v)) => Some(p.push((e.last().0@, v))),
            _ => None,
        }
    }
}

/// The property tables that the children of a compound hold, in order, or
/// `None` where a child is not a compound of values.
pub open spec fn table_of_entries(e: Seq<(String, Tag)>) -> Option<Seq<(Seq<char>, Seq<(Seq<char>, PropertyView)>)>>
    decreases e.len(),
{
    if e.len() == 0 {
        Some(Seq::empty())
    } else {
        let inner = match e.last().1 {
            Tag::Compound(pe) => props_of_entries(pe@),
            _ => None,
        };
        match (table_of_entries(e.drop_last()), inner) {
            (Some(t), Some(p)) => Some(t.push((e.last().0@, p))),
            _ => None,
        }
    }
}

/// The table that a tag tree holds: a compound of compounds of values.
pub open spec fn table_of_tag(t: Tag) -> Option<Seq<(Seq<char>, Seq<(Seq<char>, PropertyView)>)>> {
    match t {
        Tag::Compound(e) => table_of_entries(e@),
        _ => None,
    }
}

proof fn lemma_props_none(e: Seq<(String, Tag)>, i: int)
    requires
        0 <= i <= e.len(),
        props_of_entries(e.subrange(0, i)) is None,
    ensures
        props_of_entries(e) is None,
    decreases e.len() - i,
{
    if i < e.len() {
        assert(e.subrange(0, i + 1).drop_last() =~= e.subrange(0, i));
        lemma_props_none(e, i + 1);
    } else {
        assert(e.subrange(0, i) =~= e);
    }
}

proof fn lemma_table_none(e: Seq<(String, Tag)>, i: int)
    requires
        0 <= i <= e.len(),
        table_of_entries(e.subrange(0, i)) is None,
    ensures
        table_of_entries(e) is None,
    decreases e.len() - i,
{
    if i < e.len() {
        assert(e.subrange(0, i + 1).drop_last() =~= e.subrange(0, i));
        lemma_table_none(e, i + 1);
    } else {
        assert(e.subrange(0, i) =~= e);
    }
}

impl DynamicPropertyValue {
    /// The tag that stores this value.
    pub fn to_nbt(&self) -> (r: Tag)
        ensures
            is_value_tag(r, self@),
            value_of_tag(r) == Some(self@),
    {
        let r = match self {
            DynamicPropertyValue::Boolean(b) => Tag::Byte(if *b { 1u8 } else { 0u8 }),
            DynamicPropertyValue::Float(x) => Tag::Float(*x),
            DynamicPropertyValue::Double(x) => Tag::Double(*x),
            DynamicPropertyValue::String(s) => Tag::String(s.clone()),
            DynamicPropertyValue::Vector3(a) => {
                let mut l: Vec<Tag> = Vec::new();
                l.push(Tag::Float(a[0]));
                l.push(Tag::Float(a[1]));
                l.push(Tag::Float(a[2]));
                Tag::List(l)
            },
        };
        proof {
            lemma_value_round_trip(r, self@);
        }
        r
    }

    /// The value a tag holds, trying the shapes in the order `value_of_tag`
    /// gives.
    pub fn from_nbt(t: &Tag) -> (r: Result<DynamicPropertyValue, DecodeError>)
        ensures
            match r {
                Ok(v) => value_of_tag(*t) == Some(v@),
                Err(_) => value_of_tag(*t) is None,
            },
    {
        match t {
            Tag::Byte(b) => Ok(DynamicPropertyValue::Boolean(*b != 0)),
            Tag::Float(x) => Ok(DynamicPropertyValue::Float(*x)),
            Tag::Double(x) => Ok(DynamicPropertyValue::Double(*x)),
            Tag::String(s) => Ok(DynamicPropertyValue::String(s.clone())),
            Tag::List(l) => {
                if l.len() == 3 {
                    match (&l[0], &l[1], &l[2]) {
                        (Tag::Float(x), Tag::Float(y), Tag::Float(z)) => {
                            let a: [u32; 3] = [*x, *y, *z];
                            assert(a@[0] == *x && a@[1] == *y && a@[2] == *z);
                            Ok(DynamicPropertyValue::Vector3(a))
                        },
                        _ => Err(DecodeError::WrongKind(String::new())),
                    }
                } else {
                    Err(DecodeError::WrongKind(String::new()))
                }
            },
            _ => Err(DecodeError::WrongKind(String::new())),
        }
    }
}

/// Decodes the properties of one owner from the children of its compound.
pub fn decode_properties(e: &Vec<(String, Tag)>) -> (r: Result<Properties, DecodeError>)
    ensures
        match r {
            Ok(p) => props_of_entries(e@) == Some(props_view(p@)),
            Err(_) => props_of_entries(e@) is None,
        },
{
    let mut out: Properties = Vec::new();
    let mut i: usize = 0;
    assert(e@.subrange(0, 0) =~= Seq::<(String, Tag)>::empty());
    assert(props_view(out@) =~= Seq::empty());
    while i < e.len()
        invariant
            0 <= i <= e@.len(),
            props_of_entries(e@.subrange(0, i as int)) == Some(props_view(out@)),
        decreases e@.len() - i,
    {
        assert(e@.subrange(0, i + 1).drop_last() =~= e@.subrange(0, i as int));
        assert(e@.subrange(0, i + 1).last() == e@[i as int]);
        match DynamicPropertyValue::from_nbt(&e[i].1) {
            Ok(v) => {
                let ghost before = out@;
                out.push((e[i].0.clone(), v));
                assert(props_view(out@) =~= props_view(before).push((e@[i as int].0@, v@)));
            },
            Err(err) => {
                proof {
                    lemma_props_none(e@, i + 1);
                }
                return Err(err);
            },
        }
        i += 1;
    }
    assert(e@.subrange(0, e@.len() as int) =~= e@);
    Ok(out)
}

/// Decodes a dynamic property table: a compound whose children are the
/// owners' compounds of values.
pub fn decode_dynamic_properties(t: &Tag) -> (r: Result<DynamicProperties, DecodeError>)
    ensures
        match r {
            Ok(d) => table_of_tag(*t) == Some(table_view(d@)),
            Err(_) => table_of_tag(*t) is None,
        },
{
    let e = match t {
        Tag::Compound(e) => e,
        _ => return Err(DecodeError::NotCompound(String::new())),
    };
    assert(table_of_tag(*t) == table_of_entries(e@));
    let mut out: DynamicProperties = Vec::new();
    let mut i: usize = 0;
    assert(e@.subrange(0, 0) =~= Seq::<(String, Tag)>::empty());
    assert(table_view(out@) =~= Seq::empty());
    while i < e.len()
        invariant
            0 <= i <= e@.len(),
            table_of_tag(*t) == table_of_entries(e@),
            table_of_entries(e@.subrange(0, i as int)) == Some(table_view(out@)),
        decreases e@.len() - i,
    {
        assert(e@.subrange(0, i + 1).drop_last() =~= e@.subrange(0, i as int));
        assert(e@.subrange(0, i + 1).last() == e@[i as int]);
        let decoded = match &e[i].1 {
            Tag::Compound(pe) => decode_properties(pe),
            _ => Err(DecodeError::NotCompound(e[i].0.clone())),
        };
        match decoded {
            Ok(p) => {
                let ghost before = out@;
                out.push((e[i].0.clone(), p));
                assert(table_view(out@) =~= table_view(before).push(
                    (e@[i as int].0@, props_view(p@)),
                ));
            },
            Err(err) => {
                proof {
                    lemma_table_none(e@, i + 1);
                }
                return Err(err);
            },
        }
        i += 1;
    }
    assert(e@.subrange(0, e@.len() as int) =~= e@);
    Ok(out)
}

/// The compound children that store the properties `p`, in order.
pub fn encode_properties(p: &Properties) -> (r: Vec<(String, Tag)>)
    ensures
        r@.len() == p@.len(),
        forall|i: int| 0 <= i < p@.len() ==> #[trigger] r@[i].0@ == p@[i].0@ && is_value_tag(
            r@[i].1,
            p@[i].1@,
        ),
        props_of_entries(r@) == Some(props_view(p@)),
{
    let mut out: Vec<(String, Tag)> = Vec::new();
    let mut i: usize = 0;
    assert(props_view(p@.subrange(0, 0)) =~= Seq::empty());
    while i < p.len()
        invariant
            0 <= i <= p@.len(),
            out@.len() == i,
            forall|j: int| 0 <= j < i ==> #[trigger] out@[j].0@ == p@[j].0@ && is_value_tag(
                out@[j].1,
                p@[j].1@,
            ),
            props_of_entries(out@) == Some(props_view(p@.subrange(0, i as int))),
        decreases p@.len() - i,
    {
        let t = p[i].1.to_nbt();
        let ghost before = out@;
        out.push((p[i].0.clone(), t));
        assert(out@.drop_last() =~= before);
        assert(props_view(p@.subrange(0, i + 1)) =~= props_view(p@.subrange(0, i as int)).push(
            (p@[i as int].0@, p@[i as int].1@),
        ));
        i += 1;
    }
    assert(p@.subrange(0, p@.len() as int) =~= p@);
    out
}

/// The tag tree that stores a dynamic property table: a compound of the
/// owners' compounds, in order.
pub fn encode_dynamic_properties(d: &DynamicProperties) -> (r: Tag)
    ensures
        table_of_tag(r) == Some(table_view(d@)),
{
    let mut out: Vec<(String, Tag)> = Vec::new();
    let mut i: usize = 0;
    assert(table_view(d@.subrange(0, 0)) =~= Seq::empty());
    while i < d.len()
        invariant
            0 <= i <= d@.len(),
            table_of_entries(out@) == Some(table_view(d@.subrange(0, i as int))),
        decreases d@.len() - i,
    {
        let pe = encode_properties(&d[i].1);
        let ghost before = out@;
        out.push((d[i].0.clone(), Tag::Compound(pe)));
        assert(out@.drop_last() =~= before);
        assert(table_view(d@.subrange(0, i + 1)) =~= table_view(d@.subrange(0, i as int)).push(
            (d@[i as int].0@, props_view(d@[i as int].1@)),
        ));
        i += 1;
    }
    assert(d@.subrange(0, d@.len() as int) =~= d@);
    Tag::Compound(out)
}

} // verus!
