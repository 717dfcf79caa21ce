//! Entities: a store key paired with the entity's compound of tags.

use vstd::prelude::*;
use crate::error::DecodeError;
use crate::property::{
    decode_dynamic_properties, encode_dynamic_properties, table_of_tag, table_view,
    DynamicProperties,
};
use crate::tag::{find, get, lemma_lookup_push, lemma_lookup_update, lemma_position_lookup, lookup, Tag};

verus! {

/// An entity as stored: its key, never reinterpreted, and its payload.
#[derive(Debug)]
pub struct Entity {
    db_key: Vec<u8>,
    pub nbt: Vec<(String, Tag)>,
}

/// The name under which an entity keeps its dynamic properties.
pub open spec fn dynamic_properties_name() -> Seq<char> {
    "DynamicProperties"@
}

impl Entity {
    /// The entity's store key.
    pub closed spec fn key(&self) -> Seq<u8> {
        self.db_key@
    }

    /// The entity's payload: the children of its compound.
    pub closed spec fn payload(&self) -> Seq<(String, Tag)> {
        self.nbt@
    }

    pub fn new(db_key: Vec<u8>, nbt: Vec<(String, Tag)>) -> (r: Self)
        ensures
            r.key() == db_key@,
            r.payload() == nbt@,
    {
        Entity { db_key, nbt }
    }

    /// The entity's key and payload, taken apart.
    pub fn into_parts(self) -> (r: (Vec<u8>, Vec<(String, Tag)>))
        ensures
            r.0@ == self.key(),
            r.1@ == self.payload(),
    {
        (self.db_key, self.nbt)
    }

    pub fn get_db_key(&self) -> (r: &[u8])
        ensures
            r@ == self.key(),
    {
        self.db_key.as_slice()
    }

    /// The entity's dynamic properties: `None` where it has none, an error
    /// where the entry is there but is not a property table.
    pub fn get_dynamic_properties(&self) -> (r: Result<Option<DynamicProperties>, DecodeError>)
        ensures
            match lookup(self.payload(), dynamic_properties_name()) {
                None => r matches Ok(None),
                Some(t) => match r {
                    Ok(Some(d)) => table_of_tag(t) == Some(table_view(d@)),
                    Ok(None) => false,
                    Err(_) => table_of_tag(t) is None,
                },
            },
    {
        match get(&self.nbt, "DynamicProperties") {
            None => Ok(None),
            Some(t) => match decode_dynamic_properties(t) {
                Ok(d) => Ok(Some(d)),
                Err(e) => Err(e),
            },
        }
    }

    /// Stores `properties` as the entity's dynamic properties, in place of
    /// any it had; every other entry stays as it was.
    pub fn set_dynamic_properties(&mut self, properties: DynamicProperties)
        ensures
            final(self).key() == old(self).key(),
            lookup(final(self).payload(), dynamic_properties_name()) matches Some(t) && table_of_tag(t)
                == Some(table_view(properties@)),
            forall|n: Seq<char>|
                n != dynamic_properties_name() ==> #[trigger] lookup(final(self).payload(), n) == lookup(
                    old(self).payload(),
                    n,
                ),
    {
        let t = encode_dynamic_properties(&properties);
        let name = String::from_str("DynamicProperties");
        let entry = (name, t);
        proof {
            lemma_position_lookup(self.nbt@, dynamic_properties_name());
        }
        match find(&self.nbt, "DynamicProperties") {
            Some(i) => {
                let ghost before = self.nbt@;
                self.nbt.set(i, entry);
                proof {
                    assert(self.nbt@ == before.update(i as int, entry));
                    lemma_lookup_update(before, dynamic_properties_name(), i as int, entry, dynamic_properties_name());
                    assert forall|n: Seq<char>| n != dynamic_properties_name() implies #[trigger] lookup(self.nbt@, n) == lookup(before, n) by {
                        lemma_lookup_update(before, dynamic_properties_name(), i as int, entry, n);
                    }
                }
            },
            None => {
                let ghost before = self.nbt@;
                self.nbt.push(entry);
                proof {
                    lemma_lookup_push(before, dynamic_properties_name(), entry, dynamic_properties_name());
                    assert forall|n: Seq<char>| n != dynamic_properties_name() implies #[trigger] lookup(self.nbt@, n) == lookup(before, n) by {
                        lemma_lookup_push(before, dynamic_properties_name(), entry, n);
                    }
                }
            },
        }
    }
}

} // verus!
