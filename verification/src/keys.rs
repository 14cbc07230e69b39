//! The flat key space: every kind of record has a prefix of its own, and a
//! physical key is that prefix followed by the record's own key.

use vstd::prelude::*;
use vstd::bytes::{
    lemma_auto_spec_u64_to_from_le_bytes, spec_u64_from_le_bytes, spec_u64_to_le_bytes,
    u64_to_le_bytes,
};
use vstd::string::{is_ascii_spec_bytes, StrSliceExecFns, StringSliceAdditionalSpecFns};
use vstd::utf8::{decode_utf8, encode_utf8, encode_utf8_decode_utf8};

verus! {

/// The kinds of record that share the store.
#[derive(Clone, Copy, Debug, PartialEq, Eq, Structural)]
pub enum Kind {
    /// A user, keyed by a 64-bit id.
    User,
    /// A topic, keyed by its name.
    Topic,
    /// The one trending list, keyed by the empty key.
    Top,
}

/// The prefix of a kind, as text.
pub open spec fn prefix_text(kind: Kind) -> Seq<char> {
    match kind {
        Kind::User => "@"@,
        Kind::Topic => "#"@,
        Kind::Top => "!top"@,
    }
}

/// The prefix of a kind, as the bytes that start each of its keys.
pub open spec fn prefix_of(kind: Kind) -> Seq<u8> {
    encode_utf8(prefix_text(kind))
}

/// The key under which the store holds the record of `kind` with key `key`.
pub open spec fn physical_key(kind: Kind, key: Seq<u8>) -> Seq<u8> {
    prefix_of(kind) + key
}

/// The prefixes, byte by byte.
pub proof fn lemma_prefix_bytes()
    ensures
        prefix_of(Kind::User) == seq![0x40u8],
        prefix_of(Kind::Topic) == seq![0x23u8],
        prefix_of(Kind::Top) == seq![0x21u8, 0x74u8, 0x6fu8, 0x70u8],
{
    broadcast use is_ascii_spec_bytes;

    reveal_strlit("@");
    reveal_strlit("#");
    reveal_strlit("!top");
    let user: &str = "@";
    let topic: &str = "#";
    let top: &str = "!top";
    assert(user.is_ascii());
    assert(topic.is_ascii());
    assert(top.is_ascii());
    assert(user.spec_bytes() =~= seq![0x40u8]);
    assert(topic.spec_bytes() =~= seq![0x23u8]);
    assert(top.spec_bytes() =~= seq![0x21u8, 0x74u8, 0x6fu8, 0x70u8]);
}

/// Records of different kinds never share a physical key, whatever their own
/// keys are.
pub proof fn lemma_kinds_are_isolated(k1: Kind, key1: Seq<u8>, k2: Kind, key2: Seq<u8>)
    requires
        k1 != k2,
    ensures
        physical_key(k1, key1) != physical_key(k2, key2),
{
    lemma_prefix_bytes();
    assert(physical_key(k1, key1)[0] == prefix_of(k1)[0]);
    assert(physical_key(k2, key2)[0] == prefix_of(k2)[0]);
}

/// Within one kind, different keys give different physical keys.
pub proof fn lemma_keys_are_kept_apart(kind: Kind, key1: Seq<u8>, key2: Seq<u8>)
    requires
        key1 != key2,
    ensures
        physical_key(kind, key1) != physical_key(kind, key2),
{
    let p = prefix_of(kind);
    if physical_key(kind, key1) == physical_key(kind, key2) {
        assert((p + key1).subrange(p.len() as int, (p + key1).len() as int) =~= key1);
        assert((p + key2).subrange(p.len() as int, (p + key2).len() as int) =~= key2);
    }
}

/// What can serve as the key of a record.
pub trait ToKey {
    /// The bytes that stand for this key.
    spec fn key_bytes(&self) -> Seq<u8>;

    fn to_key(&self) -> (key: Vec<u8>)
        ensures
            key@ == self.key_bytes(),
    ;
}

impl ToKey for &'static str {
    open spec fn key_bytes(&self) -> Seq<u8> {
        encode_utf8(self@)
    }

    fn to_key(&self) -> (key: Vec<u8>) {
        self.as_bytes_vec()
    }
}

impl ToKey for String {
    open spec fn key_bytes(&self) -> Seq<u8> {
        encode_utf8(self@)
    }

    fn to_key(&self) -> (key: Vec<u8>) {
        self.as_str().as_bytes_vec()
    }
}

impl ToKey for u64 {
    open spec fn key_bytes(&self) -> Seq<u8> {
        spec_u64_to_le_bytes(*self)
    }

    fn to_key(&self) -> (key: Vec<u8>) {
        u64_to_le_bytes(*self)
    }
}

/// The key of a user is eight bytes from which the id is read back.
pub proof fn lemma_user_key_round_trip(uid: u64)
    ensures
        uid.key_bytes().len() == 8,
        spec_u64_from_le_bytes(uid.key_bytes()) == uid,
{
    lemma_auto_spec_u64_to_from_le_bytes();
}

/// The key of a topic is text from which the name is read back.
pub proof fn lemma_name_key_round_trip(name: String)
    ensures
        decode_utf8(name.key_bytes()) == name@,
{
    encode_utf8_decode_utf8(name@);
}

/// Different ids have different keys, and so have different names.
pub proof fn lemma_keys_are_injective(uid1: u64, uid2: u64, name1: String, name2: String)
    ensures
        uid1 != uid2 ==> uid1.key_bytes() != uid2.key_bytes(),
        name1@ != name2@ ==> name1.key_bytes() != name2.key_bytes(),
{
    lemma_auto_spec_u64_to_from_le_bytes();
    encode_utf8_decode_utf8(name1@);
    encode_utf8_decode_utf8(name2@);
}

/// Joins a prefix and a key into a physical key.
pub fn join_key(prefix: &str, key: &Vec<u8>) -> (joined: Vec<u8>)
    ensures
        joined@ == encode_utf8(prefix@) + key@,
{
    let mut joined = prefix.as_bytes_vec();
    let mut i: usize = 0;
    while i < key.len()
        invariant
            i <= key.len(),
            joined@ == encode_utf8(prefix@) + key@.take(i as int),
        decreases key.len() - i,
    {
        joined.push(key[i]);
        assert(key@.take(i + 1) =~= key@.take(i as int).push(key[i as int]));
        assert(joined@ =~= encode_utf8(prefix@) + key@.take(i + 1));
        i += 1;
    }
    assert(key@.take(key.len() as int) =~= key@);
    joined
}

} // verus!
