//! The tag tree that every record is stored as, held as plain values.
//! Floating-point payloads are kept as their IEEE-754 bit patterns.

use vstd::prelude::*;

verus! {

/// A node of the tag tree.
#[derive(Debug)]
pub enum Tag {
    Byte(u8),
    Short(i16),
    Int(i32),
    Long(i64),
    /// A 32-bit float, as its bit pattern.
    Float(u32),
    /// A 64-bit float, as its bit pattern.
    Double(u64),
    String(String),
    ByteArray(Vec<u8>),
    IntArray(Vec<i32>),
    LongArray(Vec<i64>),
    List(Vec<Tag>),
    /// Named children; a name occurs at most once.
    Compound(Vec<(String, Tag)>),
}

/// The first child of a compound named `name`.
pub open spec fn lookup(entries: Seq<(String, Tag)>, name: Seq<char>) -> Option<Tag>
    decreases entries.len(),
{
    if entries.len() == 0 {
        None
    } else if entries[0].0@ == name {
        Some(entries[0].1)
    } else {
        lookup(entries.drop_first(), name)
    }
}

/// The position of the first child of a compound named `name`.
pub open spec fn position(entries: Seq<(String, Tag)>, name: Seq<char>) -> Option<int>
    decreases entries.len(),
{
    if entries.len() == 0 {
        None
    } else if entries[0].0@ == name {
        Some(0)
    } else {
        match position(entries.drop_first(), name) {
            Some(i) => Some(i + 1),
            None => None,
        }
    }
}

/// Where `position` finds a child, `lookup` gives that child.
pub proof fn lemma_position_lookup(entries: Seq<(String, Tag)>, name: Seq<char>)
    ensures
        match position(entries, name) {
            Some(i) => 0 <= i < entries.len() && entries[i].0@ == name && lookup(entries, name)
                == Some(entries[i].1),
            None => lookup(entries, name) is None,
        },
    decreases entries.len(),
{
    if entries.len() > 0 && entries[0].0@ != name {
        lemma_position_lookup(entries.drop_first(), name);
    }
}

/// Replacing the child at the position of `name` makes `lookup` give the new
/// child for `name` and leaves every other name `n` as it was.
pub proof fn lemma_lookup_update(
    entries: Seq<(String, Tag)>,
    name: Seq<char>,
    i: int,
    e: (String, Tag),
    n: Seq<char>,
)
    requires
        position(entries, name) == Some(i),
        e.0@ == name,
    ensures
        lookup(entries.update(i, e), n) == if n == name {
            Some(e.1)
        } else {
            lookup(entries, n)
        },
    decreases entries.len(),
{
    lemma_position_lookup(entries, name);
    if i == 0 {
        assert(entries.update(i, e).drop_first() =~= entries.drop_first());
    } else {
        assert(entries.update(i, e).drop_first() =~= entries.drop_first().update(i - 1, e));
        lemma_lookup_update(entries.drop_first(), name, i - 1, e, n);
    }
}

/// Appending a child under a name that is absent makes `lookup` give it and
/// leaves every other name `n` as it was.
pub proof fn lemma_lookup_push(
    entries: Seq<(String, Tag)>,
    name: Seq<char>,
    e: (String, Tag),
    n: Seq<char>,
)
    requires
        lookup(entries, name) is None,
        e.0@ == name,
    ensures
        lookup(entries.push(e), n) == if n == name {
            Some(e.1)
        } else {
            lookup(entries, n)
        },
    decreases entries.len(),
{
    if entries.len() == 0 {
        assert(entries.push(e).drop_first() =~= Seq::<(String, Tag)>::empty());
        assert(entries.push(e)[0] == e);
        assert(lookup(Seq::<(String, Tag)>::empty(), n) is None);
    } else {
        assert(entries.push(e).drop_first() =~= entries.drop_first().push(e));
        assert(entries.push(e)[0] == entries[0]);
        lemma_lookup_push(entries.drop_first(), name, e, n);
    }
}

/// The index of the first child named `name`.
pub fn find(entries: &Vec<(String, Tag)>, name: &str) -> (r: Option<usize>)
    ensures
        match r {
            Some(i) => position(entries@, name@) == Some(i as int),
            None => position(entries@, name@) is None,
        },
{
    let key = String::from_str(name);
    let mut i: usize = 0;
    assert(entries@.skip(0) =~= entries@);
    while i < entries.len()
        invariant
            0 <= i <= entries@.len(),
            key@ == name@,
            position(entries@, name@) == match position(entries@.skip(i as int), name@) {
                Some(k) => Some(k + i),
                None => None,
            },
        decreases entries@.len() - i,
    {
        assert(entries@.skip(i as int).drop_first() =~= entries@.skip(i + 1));
        if entries[i].0 == key {
            return Some(i);
        }
        i += 1;
    }
    None
}

/// The first child named `name`.
pub fn get<'a>(entries: &'a Vec<(String, Tag)>, name: &str) -> (r: Option<&'a Tag>)
    ensures
        match r {
            Some(t) => lookup(entries@, name@) == Some(*t),
            None => lookup(entries@, name@) is None,
        },
{
    proof {
        lemma_position_lookup(entries@, name@);
    }
    match find(entries, name) {
        Some(i) => Some(&entries[i].1),
        None => None,
    }
}

} // verus!
