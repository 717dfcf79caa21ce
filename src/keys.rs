//! Where each record lives in the store: fixed keys and prefix families.

use vstd::prelude::*;

verus! {

/// Key of the world-level dynamic property table: `DynamicProperties`.
pub open spec fn dynamic_properties_key_spec() -> Seq<u8> {
    seq![68u8, 121, 110, 97, 109, 105, 99, 80, 114, 111, 112, 101, 114, 116, 105, 101, 115]
}

/// Key of the local player entity: `~local_player`.
pub open spec fn local_player_key_spec() -> Seq<u8> {
    seq![126u8, 108, 111, 99, 97, 108, 95, 112, 108, 97, 121, 101, 114]
}

/// Prefix of every entity key: `actorprefix`.
pub open spec fn entity_prefix_spec() -> Seq<u8> {
    seq![97u8, 99, 116, 111, 114, 112, 114, 101, 102, 105, 120]
}

/// Prefix of every map key: `map_`.
pub open spec fn map_prefix_spec() -> Seq<u8> {
    seq![109u8, 97, 112, 95]
}

/// The decimal digits of `n`, most significant first, without leading zeros.
pub open spec fn digits(n: nat) -> Seq<u8>
    decreases n,
{
    if n < 10 {
        seq![(48 + n) as u8]
    } else {
        digits(n / 10).push((48 + n % 10) as u8)
    }
}

/// The decimal text of `n`, with a leading `-` when it is negative.
pub open spec fn decimal(n: int) -> Seq<u8> {
    if n < 0 {
        seq![45u8] + digits((-n) as nat)
    } else {
        digits(n as nat)
    }
}

/// The store key of the map with id `map_id`: `map_` and its decimal text.
pub open spec fn map_key_spec(map_id: i64) -> Seq<u8> {
    map_prefix_spec() + decimal(map_id as int)
}

/// Whether `key` begins with `prefix`.
pub open spec fn has_prefix(key: Seq<u8>, prefix: Seq<u8>) -> bool {
    prefix.len() <= key.len() && key.subrange(0, prefix.len() as int) == prefix
}

pub fn dynamic_properties_key() -> (r: Vec<u8>)
    ensures
        r@ == dynamic_properties_key_spec(),
{
    let r = vec![68u8, 121, 110, 97, 109, 105, 99, 80, 114, 111, 112, 101, 114, 116, 105, 101, 115];
    assert(r@ =~= dynamic_properties_key_spec());
    r
}

pub fn local_player_key() -> (r: Vec<u8>)
    ensures
        r@ == local_player_key_spec(),
{
    let r = vec![126u8, 108, 111, 99, 97, 108, 95, 112, 108, 97, 121, 101, 114];
    assert(r@ =~= local_player_key_spec());
    r
}

pub fn entity_prefix() -> (r: Vec<u8>)
    ensures
        r@ == entity_prefix_spec(),
{
    let r = vec![97u8, 99, 116, 111, 114, 112, 114, 101, 102, 105, 120];
    assert(r@ =~= entity_prefix_spec());
    r
}

pub fn map_prefix() -> (r: Vec<u8>)
    ensures
        r@ == map_prefix_spec(),
{
    let r = vec![109u8, 97, 112, 95];
    assert(r@ =~= map_prefix_spec());
    r
}

/// Appends the decimal digits of `n` to `out`.
fn push_digits(out: &mut Vec<u8>, n: u64)
    ensures
        final(out)@ == old(out)@ + digits(n as nat),
    decreases n,
{
    if n < 10 {
        out.push((48 + n) as u8);
        assert(digits(n as nat) =~= seq![(48 + n) as u8]);
    } else {
        push_digits(out, n / 10);
        out.push((48 + n % 10) as u8);
        assert(old(out)@ + digits(n as nat) =~= old(out)@ + digits((n / 10) as nat) + seq![
            (48 + n % 10) as u8,
        ]);
    }
}

/// Appends the decimal text of `n` to `out`.
pub fn push_decimal(out: &mut Vec<u8>, n: i64)
    ensures
        final(out)@ == old(out)@ + decimal(n as int),
{
    if n < 0 {
        out.push(45u8);
        let m: u64 = (0i128 - n as i128) as u64;
        push_digits(out, m);
        assert(final(out)@ =~= old(out)@ + decimal(n as int));
    } else {
        push_digits(out, n as u64);
    }
}

/// The store key of the map with id `map_id`.
pub fn map_key(map_id: i64) -> (r: Vec<u8>)
    ensures
        r@ == map_key_spec(map_id),
{
    let mut r = map_prefix();
    push_decimal(&mut r, map_id);
    r
}

/// Whether `key` begins with `prefix`.
pub fn starts_with(key: &[u8], prefix: &[u8]) -> (r: bool)
    ensures
        r == has_prefix(key@, prefix@),
{
    if prefix.len() > key.len() {
        return false;
    }
    let mut i: usize = 0;
    while i < prefix.len()
        invariant
            prefix@.len() <= key@.len(),
            0 <= i <= prefix@.len(),
            forall|j: int| 0 <= j < i ==> key@[j] == prefix@[j],
        decreases prefix@.len() - i,
    {
        if key[i] != prefix[i] {
            assert(key@.subrange(0, prefix@.len() as int)[i as int] != prefix@[i as int]);
            return false;
        }
        i += 1;
    }
    assert(key@.subrange(0, prefix@.len() as int) =~= prefix@);
    true
}

} // verus!
