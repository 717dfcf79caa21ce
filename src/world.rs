//! The world store's decisions: the state of the store handle, which key each
//! record lives under, and how fetched tag trees become records. Reading and
//! writing the store itself is done by the caller, which hands the fetched
//! values in and writes the returned ones out.

use vstd::prelude::*;
use crate::entity::Entity;
use crate::error::{DecodeError, WorldError};
use crate::keys::{
    dynamic_properties_key, dynamic_properties_key_spec, has_prefix, local_player_key,
    local_player_key_spec, map_key_spec, starts_with,
};
use crate::map::{copy_bytes, is_map_tag, map_of_tag, WorldMap, WorldMapView};
use crate::property::{
    decode_dynamic_properties, encode_dynamic_properties, table_of_tag, table_view,
    DynamicProperties,
};
use crate::tag::Tag;

verus! {

/// The state of the store handle.
#[derive(Debug, Clone, PartialEq)]
pub enum DbState {
    /// No open has succeeded yet.
    Unopened,
    Open,
    Closed,
}

/// A world: its root directory and the state of its store handle.
pub struct World {
    state: DbState,
    path: String,
}

/// The stored records among `scan` whose keys begin with `prefix`, in scan order.
pub open spec fn keep_prefixed(scan: Seq<(Seq<u8>, Seq<u8>)>, prefix: Seq<u8>) -> Seq<(Seq<u8>, Seq<u8>)>
    decreases scan.len(),
{
    if scan.len() == 0 {
        Seq::empty()
    } else {
        let rest = keep_prefixed(scan.drop_last(), prefix);
        if has_prefix(scan.last().0, prefix) {
            rest.push(scan.last())
        } else {
            rest
        }
    }
}

pub open spec fn records_view(s: Seq<(Vec<u8>, Vec<u8>)>) -> Seq<(Seq<u8>, Seq<u8>)> {
    s.map_values(|x: (Vec<u8>, Vec<u8>)| (x.0@, x.1@))
}

/// The stored records of a scan whose keys begin with `prefix`, in scan order.
pub fn select_prefixed(scan: &Vec<(Vec<u8>, Vec<u8>)>, prefix: &[u8]) -> (r: Vec<(Vec<u8>, Vec<u8>)>)
    ensures
        records_view(r@) == keep_prefixed(records_view(scan@), prefix@),
{
    let mut out: Vec<(Vec<u8>, Vec<u8>)> = Vec::new();
    let mut i: usize = 0;
    assert(records_view(scan@).subrange(0, 0) =~= Seq::<(Seq<u8>, Seq<u8>)>::empty());
    assert(records_view(out@) =~= Seq::empty());
    while i < scan.len()
        invariant
            0 <= i <= scan@.len(),
            records_view(out@) == keep_prefixed(records_view(scan@).subrange(0, i as int), prefix@),
        decreases scan@.len() - i,
    {
        let ghost sv = records_view(scan@);
        assert(sv.subrange(0, i + 1).drop_last() =~= sv.subrange(0, i as int));
        assert(sv.subrange(0, i + 1).last() == sv[i as int]);
        if starts_with(scan[i].0.as_slice(), prefix) {
            let ghost before = out@;
            let k = copy_bytes(&scan[i].0);
            let v = copy_bytes(&scan[i].1);
            out.push((k, v));
            assert(records_view(out@) =~= records_view(before).push(sv[i as int]));
        }
        i += 1;
    }
    assert(records_view(scan@).subrange(0, scan@.len() as int) =~= records_view(scan@));
    out
}

/// The state of the handle after an attempt to open the store: only a
/// successful attempt on a handle never opened opens it.
pub open spec fn state_after_open(s: DbState, opened: bool) -> DbState {
    if opened && s is Unopened {
        DbState::Open
    } else {
        s
    }
}

/// A failed open leaves an unopened handle unopened, never open; so every
/// record operation after it fails with `DBClosed`.
pub proof fn lemma_failed_open_stays_closed(w: World)
    requires
        w.state() is Unopened,
    ensures
        state_after_open(w.state(), false) is Unopened,
        !(state_after_open(w.state(), false) is Open),
{
}

/// `ent` is the entity stored as `rec`: its key and its compound.
pub open spec fn stored_as(rec: (Vec<u8>, Tag), ent: Entity) -> bool {
    &&& rec.1 matches Tag::Compound(e)
    &&& ent.key() == rec.0@
    &&& ent.payload() == rec.1->Compound_0@
}

impl World {
    pub closed spec fn state(&self) -> DbState {
        self.state
    }

    pub closed spec fn root(&self) -> Seq<char> {
        self.path@
    }

    pub open spec fn is_open(&self) -> bool {
        self.state() is Open
    }

    /// A world rooted at `path`, its store not opened yet.
    pub fn new(path: String) -> (r: Self)
        ensures
            r.state() is Unopened,
            r.root() == path@,
    {
        World { state: DbState::Unopened, path }
    }

    pub fn get_path(&self) -> (r: &str)
        ensures
            r@ == self.root(),
    {
        self.path.as_str()
    }

    /// Where the store lives: `<root>/db`.
    pub fn db_path(&self) -> (r: String)
        ensures
            r@ == self.root() + "/db"@,
    {
        self.path.clone().concat("/db")
    }

    /// Where the header file lives: `<root>/level.dat`.
    pub fn level_dat_path(&self) -> (r: String)
        ensures
            r@ == self.root() + "/level.dat"@,
    {
        self.path.clone().concat("/level.dat")
    }

    /// Takes note of an attempt to open the store. A failed attempt changes
    /// nothing; a successful one opens a handle that was never opened.
    pub fn record_open(&mut self, opened: bool)
        ensures
            final(self).root() == old(self).root(),
            final(self).state() == state_after_open(old(self).state(), opened),
    {
        if opened {
            if let DbState::Unopened = self.state {
                self.state = DbState::Open;
            }
        }
    }

    /// Closes the store. Closing a closed store is no error; closing one that
    /// was never opened is.
    pub fn close(&mut self) -> (r: Result<(), WorldError>)
        ensures
            final(self).root() == old(self).root(),
            old(self).state() is Unopened ==> r matches Err(WorldError::DBClosed),
            old(self).state() is Unopened ==> final(self).state() is Unopened,
            !(old(self).state() is Unopened) ==> r is Ok && final(self).state() is Closed,
    {
        match self.state {
            DbState::Unopened => Err(WorldError::DBClosed),
            _ => {
                self.state = DbState::Closed;
                Ok(())
            },
        }
    }

    /// `Ok` exactly when the store is open.
    pub fn get_db(&self) -> (r: Result<(), WorldError>)
        ensures
            self.is_open() ==> r is Ok,
            !self.is_open() ==> r matches Err(WorldError::DBClosed),
    {
        match self.state {
            DbState::Open => Ok(()),
            _ => Err(WorldError::DBClosed),
        }
    }

    /// The world's dynamic property table, from the tag tree stored under its
    /// key (`None` where nothing is stored).
    pub fn get_dynamic_properties(&self, stored: Option<Tag>) -> (r: Result<DynamicProperties, WorldError>)
        ensures
            !self.is_open() ==> r matches Err(WorldError::DBClosed),
            self.is_open() ==> match stored {
                None => r matches Err(WorldError::DBValueNotFound(k)) && k@
                    == dynamic_properties_key_spec(),
                Some(t) => match r {
                    Ok(d) => table_of_tag(t) == Some(table_view(d@)),
                    Err(e) => table_of_tag(t) is None && e is NBTDeserializeError,
                },
            },
    {
        self.get_db()?;
        match stored {
            None => Err(WorldError::DBValueNotFound(dynamic_properties_key())),
            Some(t) => match decode_dynamic_properties(&t) {
                Ok(d) => Ok(d),
                Err(e) => Err(WorldError::NBTDeserializeError(e)),
            },
        }
    }

    /// The key and the tag tree to store for the world's dynamic properties.
    pub fn put_dynamic_properties(&self, properties: &DynamicProperties) -> (r: Result<(Vec<u8>, Tag), WorldError>)
        ensures
            !self.is_open() ==> r matches Err(WorldError::DBClosed),
            self.is_open() ==> (r matches Ok((k, t)) && k@ == dynamic_properties_key_spec()
                && table_of_tag(t) == Some(table_view(properties@))),
    {
        self.get_db()?;
        Ok((dynamic_properties_key(), encode_dynamic_properties(properties)))
    }

    /// The local player, from the tag tree stored under its key.
    pub fn get_local_player(&self, stored: Option<Tag>) -> (r: Result<Entity, WorldError>)
        ensures
            !self.is_open() ==> r matches Err(WorldError::DBClosed),
            self.is_open() ==> match stored {
                None => r matches Err(WorldError::DBValueNotFound(k)) && k@ == local_player_key_spec(),
                Some(Tag::Compound(e)) => r matches Ok(p) && p.key() == local_player_key_spec()
                    && p.payload() == e@,
                Some(_) => r matches Err(WorldError::NBTDeserializeError(DecodeError::NotCompound(_))),
            },
    {
        self.get_db()?;
        match stored {
            None => Err(WorldError::DBValueNotFound(local_player_key())),
            Some(Tag::Compound(e)) => Ok(Entity::new(local_player_key(), e)),
            Some(_) => Err(WorldError::NBTDeserializeError(DecodeError::NotCompound(String::new()))),
        }
    }

    /// The key and the tag tree to store for an entity: its own key and its
    /// compound.
    pub fn put_entity(&self, entity: Entity) -> (r: Result<(Vec<u8>, Tag), WorldError>)
        ensures
            !self.is_open() ==> r matches Err(WorldError::DBClosed),
            self.is_open() ==> (r matches Ok((k, t)) && k@ == entity.key() && (t matches Tag::Compound(
                e,
            ) && e@ == entity.payload())),
    {
        self.get_db()?;
        let (key, nbt) = entity.into_parts();
        Ok((key, Tag::Compound(nbt)))
    }

    /// The local player is stored as any other entity, under its own key.
    pub fn put_local_player(&self, entity: Entity) -> (r: Result<(Vec<u8>, Tag), WorldError>)
        ensures
            !self.is_open() ==> r matches Err(WorldError::DBClosed),
            self.is_open() ==> (r matches Ok((k, t)) && k@ == entity.key() && (t matches Tag::Compound(
                e,
            ) && e@ == entity.payload())),
    {
        self.put_entity(entity)
    }

    /// The entities of a scan of the entity prefix, each a stored key with its
    /// tag tree. One that is not a compound fails the whole enumeration.
    pub fn get_entities(&self, records: Vec<(Vec<u8>, Tag)>) -> (r: Result<Vec<Entity>, WorldError>)
        ensures
            !self.is_open() ==> r matches Err(WorldError::DBClosed),
            self.is_open() ==> match r {
                Ok(v) => v@.len() == records@.len() && forall|i: int|
                    0 <= i < v@.len() ==> stored_as(records@[i], #[trigger] v@[i]),
                Err(e) => e matches WorldError::NBTDeserializeError(DecodeError::NotCompound(_))
                    && exists|i: int| 0 <= i < records@.len() && !(#[trigger] records@[i].1 is Compound),
            },
    {
        self.get_db()?;
        let mut out: Vec<Entity> = Vec::new();
        let ghost orig = records@;
        let mut rest = records;
        while rest.len() > 0
            invariant
                self.is_open(),
                orig == records@,
                out@.len() + rest@.len() == orig.len(),
                rest@ == orig.skip(out@.len() as int),
                forall|i: int| 0 <= i < out@.len() ==> stored_as(orig[i], #[trigger] out@[i]),
            decreases rest@.len(),
        {
            assert(rest@[0] == orig[out@.len() as int]);
            let ghost k = out@.len() as int;
            let ghost before = out@;
            let (key, tag) = rest.remove(0);
            assert(rest@ =~= orig.skip(k + 1));
            match tag {
                Tag::Compound(e) => {
                    let ent = Entity::new(key, e);
                    out.push(ent);
                    assert forall|i: int| 0 <= i < out@.len() implies stored_as(orig[i], #[trigger] out@[i]) by {
                        if i < k {
                            assert(out@[i] == before[i]);
                        }
                    }
                },
                _ => {
                    assert(!(orig[k].1 is Compound));
                    return Err(WorldError::NBTDeserializeError(DecodeError::NotCompound(String::new())));
                },
            }
        }
        Ok(out)
    }

    /// The map tiles of a scan of the map prefix. One that does not decode
    /// fails the whole enumeration.
    pub fn get_all_maps(&self, records: &Vec<Tag>) -> (r: Result<Vec<WorldMap>, WorldError>)
        ensures
            !self.is_open() ==> r matches Err(WorldError::DBClosed),
            self.is_open() ==> match r {
                Ok(v) => v@.len() == records@.len() && forall|i: int|
                    0 <= i < v@.len() ==> map_of_tag(records@[i]) == Some(#[trigger] v@[i]@),
                Err(e) => e is NBTDeserializeError && exists|i: int|
                    0 <= i < records@.len() && #[trigger] map_of_tag(records@[i]) is None,
            },
    {
        self.get_db()?;
        let mut out: Vec<WorldMap> = Vec::new();
        let mut i: usize = 0;
        while i < records.len()
            invariant
                self.is_open(),
                0 <= i <= records@.len(),
                out@.len() == i,
                forall|j: int| 0 <= j < i ==> map_of_tag(records@[j]) == Some(#[trigger] out@[j]@),
            decreases records@.len() - i,
        {
            match WorldMap::from_nbt(&records[i]) {
                Ok(m) => out.push(m),
                Err(e) => return Err(WorldError::NBTDeserializeError(e)),
            }
            i += 1;
        }
        Ok(out)
    }

    /// The key and the tag tree to store for a map tile.
    pub fn put_map(&self, map: &WorldMap) -> (r: Result<(Vec<u8>, Tag), WorldError>)
        ensures
            !self.is_open() ==> r matches Err(WorldError::DBClosed),
            self.is_open() ==> (r matches Ok((k, t)) && k@ == map_key_spec(map@.map_id) && is_map_tag(
                t,
                map@,
            )),
    {
        self.get_db()?;
        Ok((map.get_db_key(), map.to_nbt()))
    }
}

} // verus!
