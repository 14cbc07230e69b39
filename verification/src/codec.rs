//! Records to bytes and back. The byte format is MessagePack as `rmp_serde`
//! writes it: what it gives for a record is named here, not spelled out.

use vstd::prelude::*;
use vstd::string::StringExecFns;
use crate::keys::{prefix_text, Kind};
use crate::models::{
    Status, Top, Topic, TopicView, UserData, UserDataView, UserStatus, UserStatusView,
};

verus! {

/// The bytes that `rmp_serde::to_vec` gives for a user record: a map of one
/// entry, from the label of the status to the profile data. `None` where it
/// fails.
pub uninterp spec fn packed_user(label: Seq<char>, data: UserDataView) -> Option<Seq<u8>>;

/// What `rmp_serde::from_slice` reads from `bytes` as a map from labels to
/// profile data, entry by entry in the order of the labels. `None` where it
/// fails.
pub uninterp spec fn unpacked_users(bytes: Seq<u8>) -> Option<Seq<(Seq<char>, UserDataView)>>;

/// The bytes that `rmp_serde::to_vec` gives for a topic. `None` where it
/// fails.
pub uninterp spec fn packed_topic(topic: TopicView) -> Option<Seq<u8>>;

/// What `rmp_serde::from_slice` reads from `bytes` as a topic. `None` where
/// it fails.
pub uninterp spec fn unpacked_topic(bytes: Seq<u8>) -> Option<TopicView>;

/// The bytes that `rmp_serde::to_vec` gives for a list of names. `None` where
/// it fails.
pub uninterp spec fn packed_names(names: Seq<Seq<char>>) -> Option<Seq<u8>>;

/// What `rmp_serde::from_slice` reads from `bytes` as a list of names. `None`
/// where it fails.
pub uninterp spec fn unpacked_names(bytes: Seq<u8>) -> Option<Seq<Seq<char>>>;

/// The labelled entries of a list of user records, each by its view.
pub open spec fn labelled(users: Seq<(String, UserData)>) -> Seq<(Seq<char>, UserDataView)> {
    users.map_values(|e: (String, UserData)| (e.0@, e.1@))
}

/// Calls `rmp_serde::to_vec` on a map of one entry, from `label` to the six
/// fields of `data` in their order. Nothing is claimed of the bytes but that
/// they depend on `label` and `data` alone.
#[verifier::external_body]
fn pack_user(label: &str, data: &UserData) -> (bytes: Option<Vec<u8>>)
    ensures
        match bytes {
            Some(b) => packed_user(label@, data@) == Some(b@),
            None => packed_user(label@, data@) is None,
        },
{
    let fields =
        (&data.topics, &data.access_token, &data.login, &data.name, &data.avatar_url, &data.bio);
    let mut entry = std::collections::BTreeMap::new();
    entry.insert(label, fields);
    rmp_serde::to_vec(&entry).ok()
}

/// Calls `rmp_serde::from_slice` for a map from labels to the six fields of
/// profile data. Nothing is claimed of the entries but that they depend on
/// `bytes` alone.
#[verifier::external_body]
fn unpack_users(bytes: &[u8]) -> (users: Option<Vec<(String, UserData)>>)
    ensures
        match users {
            Some(u) => unpacked_users(bytes@) == Some(labelled(u@)),
            None => unpacked_users(bytes@) is None,
        },
{
    let read = rmp_serde::from_slice::<
        std::collections::BTreeMap<String, (Vec<String>, String, String, String, String, String)>,
    >(bytes).ok()?;
    Some(
        read.into_iter().map(
            |(label, (topics, access_token, login, name, avatar_url, bio))|
                (label, UserData { topics, access_token, login, name, avatar_url, bio }),
        ).collect(),
    )
}

/// Calls `rmp_serde::to_vec` on the four fields of `topic` in their order,
/// the tags as a map from name to count, the waiting tags as a list. A map
/// holds a name once, so the topic must not count a tag twice. Nothing is
/// claimed of the bytes but that they depend on `topic` alone.
#[verifier::external_body]
fn pack_topic(topic: &Topic) -> (bytes: Option<Vec<u8>>)
    requires
        topic@.wf(),
    ensures
        match bytes {
            Some(b) => packed_topic(topic@) == Some(b@),
            None => packed_topic(topic@) is None,
        },
{
    let tags: std::collections::BTreeMap<&String, u32> =
        topic.tags.iter().map(|e| (&e.0, e.1)).collect();
    rmp_serde::to_vec(&(topic.author, &topic.description, tags, &topic.pending_tags)).ok()
}

/// Calls `rmp_serde::from_slice` for the four fields of a topic, the tags as
/// a map from name to count, the waiting tags as a set. Nothing is claimed of
/// the topic but that it depends on `bytes` alone.
#[verifier::external_body]
fn unpack_topic(bytes: &[u8]) -> (topic: Option<Topic>)
    ensures
        match topic {
            Some(t) => unpacked_topic(bytes@) == Some(t@),
            None => unpacked_topic(bytes@) is None,
        },
{
    let (author, description, tags, pending) = rmp_serde::from_slice::<
        (u64, String, std::collections::BTreeMap<String, u32>, std::collections::BTreeSet<String>),
    >(bytes).ok()?;
    Some(
        Topic {
            author,
            description,
            tags: tags.into_iter().collect(),
            pending_tags: pending.into_iter().collect(),
        },
    )
}

/// Calls `rmp_serde::to_vec` on a list of names. Nothing is claimed of the
/// bytes but that they depend on the names alone.
#[verifier::external_body]
fn pack_names(names: &Vec<String>) -> (bytes: Option<Vec<u8>>)
    ensures
        match bytes {
            Some(b) => packed_names(crate::lists::texts(names@)) == Some(b@),
            None => packed_names(crate::lists::texts(names@)) is None,
        },
{
    rmp_serde::to_vec(names).ok()
}

/// Calls `rmp_serde::from_slice` for a list of names. Nothing is claimed of
/// the names but that they depend on `bytes` alone.
#[verifier::external_body]
fn unpack_names(bytes: &[u8]) -> (names: Option<Vec<String>>)
    ensures
        match names {
            Some(n) => unpacked_names(bytes@) == Some(crate::lists::texts(n@)),
            None => unpacked_names(bytes@) is None,
        },
{
    rmp_serde::from_slice::<Vec<String>>(bytes).ok()
}

/// The label under which a status is stored.
pub open spec fn status_name(status: Status) -> Seq<char> {
    match status {
        Status::Normal => "Normal"@,
        Status::Admin => "Admin"@,
        Status::Banned => "Banned"@,
    }
}

/// The status that a stored label stands for, if it stands for one.
pub open spec fn status_named(label: Seq<char>) -> Option<Status> {
    if label == "Normal"@ {
        Some(Status::Normal)
    } else if label == "Admin"@ {
        Some(Status::Admin)
    } else if label == "Banned"@ {
        Some(Status::Banned)
    } else {
        None
    }
}

/// Each status is read back from its own label.
pub proof fn lemma_status_name_round_trip(status: Status)
    ensures
        status_named(status_name(status)) == Some(status),
{
    reveal_strlit("Normal");
    reveal_strlit("Admin");
    reveal_strlit("Banned");
    assert("Normal"@.len() == 6);
    assert("Admin"@.len() == 5);
    assert("Banned"@[0] == 'B');
    assert("Normal"@[0] == 'N');
}

/// A kind of record: its place in the key space, and its bytes.
pub trait DbType: Sized + View {
    /// The kind of record this type is.
    spec fn kind() -> Kind;

    /// Whether a value is one that the store may hold.
    spec fn valid(v: Self::V) -> bool;

    /// Whether two values hold the same content.
    spec fn same(a: Self::V, b: Self::V) -> bool;

    /// The bytes that a value packs to; `None` where it cannot be packed.
    spec fn packed(v: Self::V) -> Option<Seq<u8>>;

    /// The value that bytes stand for; `None` where they stand for none.
    spec fn unpacked(bytes: Seq<u8>) -> Option<Self::V>;

    fn prefix() -> (p: &'static str)
        ensures
            p@ == prefix_text(Self::kind()),
    ;

    /// The bytes of this record, looked at once more before they are handed
    /// out: bytes that would not read back as the same record are withheld.
    fn encode(&self) -> (bytes: Option<Vec<u8>>)
        requires
            Self::valid(self@),
        ensures
            match bytes {
                Some(b) => {
                    &&& Self::packed(self@) == Some(b@)
                    &&& Self::unpacked(b@) is Some
                    &&& Self::same(self@, Self::unpacked(b@).unwrap())
                },
                None => match Self::packed(self@) {
                    Some(b) => match Self::unpacked(b) {
                        Some(w) => !Self::same(self@, w),
                        None => true,
                    },
                    None => true,
                },
            },
    ;

    fn decode(bytes: &[u8]) -> (value: Option<Self>)
        ensures
            match value {
                Some(v) => Self::unpacked(bytes@) == Some(v@) && Self::valid(v@),
                None => Self::unpacked(bytes@) is None,
            },
    ;
}

/// The bytes under which a value is stored: those that it packs to, where
/// they read back as the same value; `None` where it cannot be packed, or
/// would read back as another value or as none.
pub open spec fn encoded<V: DbType>(v: V::V) -> Option<Seq<u8>> {
    match V::packed(v) {
        Some(bytes) => match V::unpacked(bytes) {
            Some(w) => if V::same(v, w) {
                Some(bytes)
            } else {
                None
            },
            None => None,
        },
        None => None,
    }
}

/// Every record that is encoded reads back as the same record.
pub proof fn lemma_round_trip<V: DbType>(v: V::V, bytes: Seq<u8>)
    requires
        encoded::<V>(v) == Some(bytes),
    ensures
        V::unpacked(bytes) is Some,
        V::same(v, V::unpacked(bytes).unwrap()),
{
}

/// A user record, and the trending list, read back exactly as they were
/// encoded; a topic reads back with the same author, description, counts and
/// waiting tags, and well formed.
pub proof fn lemma_round_trip_of_each_kind(
    user: UserStatusView,
    top: Seq<Seq<char>>,
    topic: TopicView,
)
    ensures
        encoded::<UserStatus>(user) matches Some(bytes) ==> UserStatus::unpacked(bytes) == Some(
            user,
        ),
        encoded::<Top>(top) matches Some(bytes) ==> Top::unpacked(bytes) == Some(top),
        encoded::<Topic>(topic) matches Some(bytes) ==> {
            &&& Topic::unpacked(bytes) is Some
            &&& Topic::unpacked(bytes).unwrap().wf()
            &&& Topic::unpacked(bytes).unwrap().author == topic.author
            &&& Topic::unpacked(bytes).unwrap().description == topic.description
            &&& Topic::unpacked(bytes).unwrap().counts() == topic.counts()
            &&& Topic::unpacked(bytes).unwrap().pending() == topic.pending()
        },
{
}

impl DbType for UserStatus {
    open spec fn kind() -> Kind {
        Kind::User
    }

    open spec fn valid(v: UserStatusView) -> bool {
        true
    }

    open spec fn same(a: UserStatusView, b: UserStatusView) -> bool {
        a == b
    }

    open spec fn packed(v: UserStatusView) -> Option<Seq<u8>> {
        packed_user(status_name(v.status), v.data)
    }

    open spec fn unpacked(bytes: Seq<u8>) -> Option<UserStatusView> {
        match unpacked_users(bytes) {
            Some(users) => if users.len() == 1 {
                match status_named(users[0].0) {
                    Some(status) => Some(UserStatusView { status, data: users[0].1 }),
                    None => None,
                }
            } else {
                None
            },
            None => None,
        }
    }

    fn prefix() -> (p: &'static str) {
        "@"
    }

    fn encode(&self) -> (bytes: Option<Vec<u8>>) {
        let label = match self {
            UserStatus::Normal(_) => "Normal",
            UserStatus::Admin(_) => "Admin",
            UserStatus::Banned(_) => "Banned",
        };
        let bytes = pack_user(label, self.data())?;
        match UserStatus::decode(bytes.as_slice()) {
            Some(back) => if self.same_as(&back) {
                Some(bytes)
            } else {
                None
            },
            None => None,
        }
    }

    fn decode(bytes: &[u8]) -> (value: Option<UserStatus>) {
        let mut users = match unpack_users(bytes) {
            Some(users) => users,
            None => { return None; },
        };
        if users.len() != 1 {
            return None;
        }
        let ghost only = labelled(users@)[0];
        let (label, data) = match users.pop() {
            Some(entry) => entry,
            None => { return None; },
        };
        assert(label@ == only.0 && data@ == only.1);
        if label == String::from_str("Normal") {
            Some(UserStatus::Normal(data))
        } else if label == String::from_str("Admin") {
            Some(UserStatus::Admin(data))
        } else if label == String::from_str("Banned") {
            Some(UserStatus::Banned(data))
        } else {
            None
        }
    }
}

impl DbType for Topic {
    open spec fn kind() -> Kind {
        Kind::Topic
    }

    open spec fn valid(v: TopicView) -> bool {
        v.wf()
    }

    open spec fn same(a: TopicView, b: TopicView) -> bool {
        a.same(b)
    }

    open spec fn packed(v: TopicView) -> Option<Seq<u8>> {
        packed_topic(v)
    }

    open spec fn unpacked(bytes: Seq<u8>) -> Option<TopicView> {
        match unpacked_topic(bytes) {
            Some(topic) => if topic.wf() {
                Some(topic)
            } else {
                None
            },
            None => None,
        }
    }

    fn prefix() -> (p: &'static str) {
        "#"
    }

    fn encode(&self) -> (bytes: Option<Vec<u8>>) {
        let bytes = pack_topic(self)?;
        match Topic::decode(bytes.as_slice()) {
            Some(back) => if self.same_as(&back) {
                Some(bytes)
            } else {
                None
            },
            None => None,
        }
    }

    fn decode(bytes: &[u8]) -> (value: Option<Topic>) {
        match unpack_topic(bytes) {
            Some(topic) => if topic.is_wf() {
                Some(topic)
            } else {
                None
            },
            None => None,
        }
    }
}

impl DbType for Top {
    open spec fn kind() -> Kind {
        Kind::Top
    }

    open spec fn valid(v: Seq<Seq<char>>) -> bool {
        true
    }

    open spec fn same(a: Seq<Seq<char>>, b: Seq<Seq<char>>) -> bool {
        a == b
    }

    open spec fn packed(v: Seq<Seq<char>>) -> Option<Seq<u8>> {
        packed_names(v)
    }

    open spec fn unpacked(bytes: Seq<u8>) -> Option<Seq<Seq<char>>> {
        unpacked_names(bytes)
    }

    fn prefix() -> (p: &'static str) {
        "!top"
    }

    fn encode(&self) -> (bytes: Option<Vec<u8>>) {
        let bytes = pack_names(&self.0)?;
        match Top::decode(bytes.as_slice()) {
            Some(back) => if self.same_as(&back) {
                Some(bytes)
            } else {
                None
            },
            None => None,
        }
    }

    fn decode(bytes: &[u8]) -> (value: Option<Top>) {
        match unpack_names(bytes) {
            Some(names) => Some(Top(names)),
            None => None,
        }
    }
}

} // verus!
