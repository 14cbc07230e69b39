//! The records that the store holds, and the guard that stands before their
//! mutation.

use vstd::prelude::*;
use vstd::string::StringExecFns;
use crate::error::ApiError;
pub use crate::codec::DbType;
pub use crate::keys::ToKey;
pub use crate::store::{with_transaction, AppState, DbHelper};
use crate::lists::{
    all_distinct, count_of, disjoint, entries, find_tag, find_text, lemma_same_counts,
    lemma_same_set, lemma_without_contains, lemma_without_no_duplicates, named_other_than, names,
    remove_tag_entry, remove_text, same_texts, tags_within, texts, texts_within, without,
    without_tag,
};

verus! {

/// What a user record carries whatever the user's status is.
#[derive(Clone, Debug, PartialEq, Eq)]
pub struct UserData {
    pub topics: Vec<String>,
    pub access_token: String,
    pub login: String,
    pub name: String,
    pub avatar_url: String,
    pub bio: String,
}

/// The mathematical content of a [`UserData`].
#[verifier::ext_equal]
pub struct UserDataView {
    pub topics: Seq<Seq<char>>,
    pub access_token: Seq<char>,
    pub login: Seq<char>,
    pub name: Seq<char>,
    pub avatar_url: Seq<char>,
    pub bio: Seq<char>,
}

impl View for UserData {
    type V = UserDataView;

    open spec fn view(&self) -> UserDataView {
        UserDataView {
            topics: texts(self.topics@),
            access_token: self.access_token@,
            login: self.login@,
            name: self.name@,
            avatar_url: self.avatar_url@,
            bio: self.bio@,
        }
    }
}

impl UserData {
    /// Whether two profiles hold the same.
    pub fn same_as(&self, other: &UserData) -> (same: bool)
        ensures
            same == (self@ == other@),
    {
        let same = same_texts(&self.topics, &other.topics) && self.access_token
            == other.access_token && self.login == other.login && self.name == other.name
            && self.avatar_url == other.avatar_url && self.bio == other.bio;
        assert(same ==> self@ =~= other@);
        same
    }
}

/// The classification of an account.
#[derive(Clone, Copy, Debug, PartialEq, Eq, Structural)]
pub enum Status {
    Normal,
    Admin,
    Banned,
}

/// A user record: profile data under one of three classifications.
#[derive(Clone, Debug, PartialEq, Eq)]
pub enum UserStatus {
    Normal(UserData),
    Admin(UserData),
    Banned(UserData),
}

/// The mathematical content of a [`UserStatus`].
#[verifier::ext_equal]
pub struct UserStatusView {
    pub status: Status,
    pub data: UserDataView,
}

impl View for UserStatus {
    type V = UserStatusView;

    open spec fn view(&self) -> UserStatusView {
        UserStatusView { status: self.spec_status(), data: self.spec_data()@ }
    }
}

/// Whether an account of `status` may act: it is not banned.
pub open spec fn is_active(status: Status) -> bool {
    status != Status::Banned
}

/// Whether caller `uid` may touch a resource of `author`: as its owner, or as
/// an administrator.
pub open spec fn is_authorized(status: Status, uid: u64, author: u64) -> bool {
    uid == author || status == Status::Admin
}

/// The guard before every mutation: an active account that is authorized.
pub open spec fn is_verified(status: Status, uid: u64, author: u64) -> bool {
    is_active(status) && is_authorized(status, uid, author)
}

/// What the guard answers for an account of `status`.
pub open spec fn verdict(status: Status, uid: u64, author: u64) -> Result<(), ApiError> {
    if !is_active(status) {
        Err(ApiError::InactiveUser)
    } else if !is_authorized(status, uid, author) {
        Err(ApiError::AccessDenied)
    } else {
        Ok(())
    }
}

/// The guard lets a caller through exactly if the account is not banned and
/// the caller is the owner or an administrator; whoever it stops is
/// forbidden, a banned account before all others.
pub proof fn lemma_guard(status: Status, uid: u64, author: u64)
    ensures
        verdict(status, uid, author) is Ok <==> status != Status::Banned && (uid == author
            || status == Status::Admin),
        verdict(status, uid, author) is Ok <==> is_verified(status, uid, author),
        verdict(status, uid, author) is Err ==> verdict(status, uid, author)->Err_0.spec_kind()
            == crate::error::ErrorKind::Forbidden,
        status == Status::Banned ==> verdict(status, uid, author) == Err::<(), ApiError>(
            ApiError::InactiveUser,
        ),
{
}

impl UserStatus {
    /// The classification of the account.
    pub open spec fn spec_status(&self) -> Status {
        match self {
            UserStatus::Normal(_) => Status::Normal,
            UserStatus::Admin(_) => Status::Admin,
            UserStatus::Banned(_) => Status::Banned,
        }
    }

    /// The profile data, which is there under every classification.
    pub open spec fn spec_data(&self) -> UserData {
        match self {
            UserStatus::Normal(data) => *data,
            UserStatus::Admin(data) => *data,
            UserStatus::Banned(data) => *data,
        }
    }

    /// The profile data, whatever the status.
    pub fn data(&self) -> (data: &UserData)
        ensures
            *data == self.spec_data(),
    {
        match self {
            UserStatus::Normal(data) => data,
            UserStatus::Admin(data) => data,
            UserStatus::Banned(data) => data,
        }
    }

    /// The profile data, to be changed in place; the status stays.
    pub fn data_mut(&mut self) -> (data: &mut UserData)
        ensures
            *data == old(self).spec_data(),
            final(self).spec_status() == old(self).spec_status(),
            final(self).spec_data() == *final(data),
    {
        match self {
            UserStatus::Normal(data) => data,
            UserStatus::Admin(data) => data,
            UserStatus::Banned(data) => data,
        }
    }

    /// The profile data, taken out of the record.
    pub fn into_data(self) -> (data: UserData)
        ensures
            data == self.spec_data(),
    {
        match self {
            UserStatus::Normal(data) => data,
            UserStatus::Admin(data) => data,
            UserStatus::Banned(data) => data,
        }
    }

    /// Whether the account is an administrator's.
    pub fn is_admin(&self) -> (b: bool)
        ensures
            b == (self.spec_status() == Status::Admin),
    {
        matches!(self, UserStatus::Admin(_))
    }

    /// Whether the account is banned.
    pub fn is_banned(&self) -> (b: bool)
        ensures
            b == (self.spec_status() == Status::Banned),
    {
        matches!(self, UserStatus::Banned(_))
    }

    /// Passes every account but a banned one.
    pub fn as_active(&self) -> (r: Result<(), ApiError>)
        ensures
            r == if is_active(self.spec_status()) {
                Ok::<(), ApiError>(())
            } else {
                Err::<(), ApiError>(ApiError::InactiveUser)
            },
    {
        if self.is_banned() {
            Err(ApiError::InactiveUser)
        } else {
            Ok(())
        }
    }

    /// The profile data of an account that is not banned.
    pub fn active_data(&self) -> (r: Result<&UserData, ApiError>)
        ensures
            match r {
                Ok(data) => is_active(self.spec_status()) && *data == self.spec_data(),
                Err(e) => !is_active(self.spec_status()) && e == ApiError::InactiveUser,
            },
    {
        match self.as_active() {
            Ok(()) => Ok(self.data()),
            Err(e) => Err(e),
        }
    }

    /// The profile data of an account that is not banned, to be changed in
    /// place.
    pub fn active_data_mut(&mut self) -> (r: Result<&mut UserData, ApiError>)
        ensures
            match r {
                Ok(data) => {
                    &&& is_active(old(self).spec_status())
                    &&& *data == old(self).spec_data()
                    &&& final(self).spec_status() == old(self).spec_status()
                    &&& final(self).spec_data() == *final(data)
                },
                Err(e) => {
                    &&& !is_active(old(self).spec_status())
                    &&& e == ApiError::InactiveUser
                    &&& *final(self) == *old(self)
                },
            },
    {
        match self.as_active() {
            Ok(()) => Ok(self.data_mut()),
            Err(e) => Err(e),
        }
    }

    /// The profile data of an account that is not banned, taken out of the
    /// record.
    pub fn into_active_data(self) -> (r: Result<UserData, ApiError>)
        ensures
            match r {
                Ok(data) => is_active(self.spec_status()) && data == self.spec_data(),
                Err(e) => !is_active(self.spec_status()) && e == ApiError::InactiveUser,
            },
    {
        match self.as_active() {
            Ok(()) => Ok(self.into_data()),
            Err(e) => Err(e),
        }
    }

    /// Passes the owner of a resource, banned or not, and every
    /// administrator: of the two halves of the guard, the one about
    /// ownership.
    pub fn as_authorized(&self, uid: u64, author: u64) -> (r: Result<(), ApiError>)
        ensures
            r == if is_authorized(self.spec_status(), uid, author) {
                Ok::<(), ApiError>(())
            } else {
                Err::<(), ApiError>(ApiError::AccessDenied)
            },
    {
        if uid == author || self.is_admin() {
            Ok(())
        } else {
            Err(ApiError::AccessDenied)
        }
    }

    /// The guard before every mutation of a resource whose owner is known.
    pub fn as_verified(&self, uid: u64, author: u64) -> (r: Result<(), ApiError>)
        ensures
            r == verdict(self.spec_status(), uid, author),
            r is Ok <==> is_verified(self.spec_status(), uid, author),
    {
        match self.as_active() {
            Ok(()) => self.as_authorized(uid, author),
            Err(e) => Err(e),
        }
    }

    /// The profile data of a caller who passes the guard.
    pub fn verified_data(&self, uid: u64, author: u64) -> (r: Result<&UserData, ApiError>)
        ensures
            match r {
                Ok(data) => {
                    &&& is_verified(self.spec_status(), uid, author)
                    &&& *data == self.spec_data()
                },
                Err(e) => verdict(self.spec_status(), uid, author) == Err::<(), ApiError>(e),
            },
    {
        match self.as_verified(uid, author) {
            Ok(()) => Ok(self.data()),
            Err(e) => Err(e),
        }
    }

    /// The profile data of a caller who passes the guard, to be changed in
    /// place.
    pub fn verified_data_mut(&mut self, uid: u64, author: u64) -> (r: Result<
        &mut UserData,
        ApiError,
    >)
        ensures
            match r {
                Ok(data) => {
                    &&& is_verified(old(self).spec_status(), uid, author)
                    &&& *data == old(self).spec_data()
                    &&& final(self).spec_status() == old(self).spec_status()
                    &&& final(self).spec_data() == *final(data)
                },
                Err(e) => {
                    &&& verdict(old(self).spec_status(), uid, author) == Err::<(), ApiError>(e)
                    &&& *final(self) == *old(self)
                },
            },
    {
        match self.as_verified(uid, author) {
            Ok(()) => Ok(self.data_mut()),
            Err(e) => Err(e),
        }
    }

    /// The profile data of a caller who passes the guard, taken out of the
    /// record.
    pub fn into_verified_data(self, uid: u64, author: u64) -> (r: Result<UserData, ApiError>)
        ensures
            match r {
                Ok(data) => {
                    &&& is_verified(self.spec_status(), uid, author)
                    &&& data == self.spec_data()
                },
                Err(e) => verdict(self.spec_status(), uid, author) == Err::<(), ApiError>(e),
            },
    {
        match self.as_verified(uid, author) {
            Ok(()) => Ok(self.into_data()),
            Err(e) => Err(e),
        }
    }

    /// The same profile data under another classification.
    pub fn with_status(self, status: Status) -> (r: UserStatus)
        ensures
            r.spec_status() == status,
            r.spec_data() == self.spec_data(),
    {
        let data = self.into_data();
        match status {
            Status::Normal => UserStatus::Normal(data),
            Status::Admin => UserStatus::Admin(data),
            Status::Banned => UserStatus::Banned(data),
        }
    }

    /// The classification of the account.
    pub fn status(&self) -> (s: Status)
        ensures
            s == self.spec_status(),
    {
        match self {
            UserStatus::Normal(_) => Status::Normal,
            UserStatus::Admin(_) => Status::Admin,
            UserStatus::Banned(_) => Status::Banned,
        }
    }

    /// Whether two records hold the same profile under the same status.
    pub fn same_as(&self, other: &UserStatus) -> (same: bool)
        ensures
            same == (self@ == other@),
    {
        let same = self.status() == other.status() && self.data().same_as(other.data());
        assert(same ==> self@ =~= other@);
        same
    }

    /// The public face of the record of user `uid`.
    pub fn into_info(self, uid: u64) -> (info: UserInfo)
        ensures
            info@ == shown_user(uid, self@),
    {
        let (status, user): (Option<&'static str>, UserData) = match self {
            UserStatus::Normal(data) => (None, data),
            UserStatus::Admin(data) => (Some("Admin"), data),
            UserStatus::Banned(data) => (Some("Banned"), data),
        };
        UserInfo {
            id: decimal(uid),
            topics: user.topics,
            login: user.login,
            name: user.name,
            avatar_url: user.avatar_url,
            bio: user.bio,
            status,
        }
    }
}

/// The digit that stands for `d`, which is below ten.
pub open spec fn digit(d: nat) -> char {
    if d == 0 {
        '0'
    } else if d == 1 {
        '1'
    } else if d == 2 {
        '2'
    } else if d == 3 {
        '3'
    } else if d == 4 {
        '4'
    } else if d == 5 {
        '5'
    } else if d == 6 {
        '6'
    } else if d == 7 {
        '7'
    } else if d == 8 {
        '8'
    } else {
        '9'
    }
}

/// A number in decimal digits, without leading zeros.
pub open spec fn decimal_text(n: nat) -> Seq<char>
    decreases n,
{
    if n < 10 {
        seq![digit(n)]
    } else {
        decimal_text(n / 10).push(digit(n % 10))
    }
}

/// The text of one digit.
fn digit_text(d: u64) -> (text: &'static str)
    requires
        d < 10,
    ensures
        text@ == seq![digit(d as nat)],
{
    proof {
        reveal_strlit("0");
        reveal_strlit("1");
        reveal_strlit("2");
        reveal_strlit("3");
        reveal_strlit("4");
        reveal_strlit("5");
        reveal_strlit("6");
        reveal_strlit("7");
        reveal_strlit("8");
        reveal_strlit("9");
    }
    let text = if d == 0 {
        "0"
    } else if d == 1 {
        "1"
    } else if d == 2 {
        "2"
    } else if d == 3 {
        "3"
    } else if d == 4 {
        "4"
    } else if d == 5 {
        "5"
    } else if d == 6 {
        "6"
    } else if d == 7 {
        "7"
    } else if d == 8 {
        "8"
    } else {
        "9"
    };
    assert(text@ =~= seq![digit(d as nat)]);
    text
}

/// A number in decimal digits, without leading zeros.
pub fn decimal(n: u64) -> (text: String)
    ensures
        text@ == decimal_text(n as nat),
    decreases n,
{
    if n < 10 {
        String::from_str(digit_text(n))
    } else {
        let front = decimal(n / 10);
        let text = front.concat(digit_text(n % 10));
        assert(text@ =~= decimal_text((n / 10) as nat).push(digit((n % 10) as nat)));
        text
    }
}

/// What the record `user` of user `uid` shows to the outside.
pub open spec fn shown_user(uid: u64, user: UserStatusView) -> UserInfoView {
    UserInfoView {
        id: decimal_text(uid as nat),
        topics: user.data.topics,
        login: user.data.login,
        name: user.data.name,
        avatar_url: user.data.avatar_url,
        bio: user.data.bio,
        status: status_label(user.status),
    }
}

/// The label under which a classification is shown; none for a normal account.
pub open spec fn status_label(status: Status) -> Option<Seq<char>> {
    match status {
        Status::Normal => None,
        Status::Admin => Some("Admin"@),
        Status::Banned => Some("Banned"@),
    }
}

/// The text of an optional label.
pub open spec fn label_text(label: Option<&'static str>) -> Option<Seq<char>> {
    match label {
        None => None,
        Some(s) => Some(s@),
    }
}

/// What a user record shows to the outside: no access token.
#[derive(Clone, Debug, PartialEq, Eq)]
pub struct UserInfo {
    pub id: String,
    pub topics: Vec<String>,
    pub login: String,
    pub name: String,
    pub avatar_url: String,
    pub bio: String,
    pub status: Option<&'static str>,
}

/// The mathematical content of a [`UserInfo`].
#[verifier::ext_equal]
pub struct UserInfoView {
    pub id: Seq<char>,
    pub topics: Seq<Seq<char>>,
    pub login: Seq<char>,
    pub name: Seq<char>,
    pub avatar_url: Seq<char>,
    pub bio: Seq<char>,
    pub status: Option<Seq<char>>,
}

impl View for UserInfo {
    type V = UserInfoView;

    open spec fn view(&self) -> UserInfoView {
        UserInfoView {
            id: self.id@,
            topics: texts(self.topics@),
            login: self.login@,
            name: self.name@,
            avatar_url: self.avatar_url@,
            bio: self.bio@,
            status: label_text(self.status),
        }
    }
}

impl Default for UserStatus {
    fn default() -> (r: UserStatus)
        ensures
            r.spec_status() == Status::Normal,
            r@.data.topics.len() == 0,
            r@.data.access_token.len() == 0,
            r@.data.login.len() == 0,
            r@.data.name.len() == 0,
            r@.data.avatar_url.len() == 0,
            r@.data.bio.len() == 0,
    {
        UserStatus::Normal(
            UserData {
                topics: Vec::new(),
                access_token: String::new(),
                login: String::new(),
                name: String::new(),
                avatar_url: String::new(),
                bio: String::new(),
            },
        )
    }
}

/// The trending list: topic names in the order in which the topics were made.
#[derive(Clone, Debug, PartialEq, Eq)]
pub struct Top(pub Vec<String>);

impl View for Top {
    type V = Seq<Seq<char>>;

    open spec fn view(&self) -> Seq<Seq<char>> {
        texts(self.0@)
    }
}

impl Top {
    /// Whether two lists hold the same names in the same order.
    pub fn same_as(&self, other: &Top) -> (same: bool)
        ensures
            same == (self@ == other@),
    {
        same_texts(&self.0, &other.0)
    }
}

impl Default for Top {
    fn default() -> (r: Top)
        ensures
            r@ == Seq::<Seq<char>>::empty(),
    {
        let r = Top(Vec::new());
        assert(r@ =~= Seq::<Seq<char>>::empty());
        r
    }
}

/// A topic: who made it, what it is about, the tags it carries with their
/// counts, and the tags that wait for its owner.
///
/// `tags` stands for a map from tag to count and `pending_tags` for a set of
/// tags: see [`TopicView::wf`].
#[derive(Clone, Debug, PartialEq, Eq)]
pub struct Topic {
    pub author: u64,
    pub description: String,
    pub tags: Vec<(String, u32)>,
    pub pending_tags: Vec<String>,
}

/// The mathematical content of a [`Topic`].
#[verifier::ext_equal]
pub struct TopicView {
    pub author: u64,
    pub description: Seq<char>,
    pub tags: Seq<(Seq<char>, u32)>,
    pub pending_tags: Seq<Seq<char>>,
}

impl View for Topic {
    type V = TopicView;

    open spec fn view(&self) -> TopicView {
        TopicView {
            author: self.author,
            description: self.description@,
            tags: entries(self.tags@),
            pending_tags: texts(self.pending_tags@),
        }
    }
}

impl TopicView {
    /// No tag is counted twice, none waits twice, and none is both counted and
    /// waiting.
    pub open spec fn wf(self) -> bool {
        &&& names(self.tags).no_duplicates()
        &&& self.pending_tags.no_duplicates()
        &&& disjoint(names(self.tags), self.pending_tags)
    }

    /// The counted tags as a map from tag to count.
    pub open spec fn counts(self) -> Map<Seq<char>, u32> {
        crate::lists::counts(self.tags)
    }

    /// Whether two topics hold the same: author, description, counts and
    /// waiting tags, in whatever order the tags are listed.
    pub open spec fn same(self, other: TopicView) -> bool {
        &&& self.author == other.author
        &&& self.description == other.description
        &&& self.counts() == other.counts()
        &&& self.pending() == other.pending()
    }

    /// The waiting tags as a set.
    pub open spec fn pending(self) -> Set<Seq<char>> {
        self.pending_tags.to_set()
    }

    /// Whether the count of `tag` has no room left to grow.
    pub open spec fn is_full(self, tag: Seq<char>) -> bool {
        count_of(self.tags, tag) == Some(u32::MAX)
    }

    /// The topic after one more voice for `tag`. A counted tag gains one. A
    /// new tag is counted once if the owner speaks, and taken off the waiting
    /// list; from anyone else it joins the waiting list, once.
    pub open spec fn add_tag(self, tag: Seq<char>, is_owner: bool) -> TopicView {
        if names(self.tags).contains(tag) {
            let i = names(self.tags).index_of(tag);
            TopicView {
                author: self.author,
                description: self.description,
                tags: self.tags.update(i, (tag, (self.tags[i].1 + 1) as u32)),
                pending_tags: self.pending_tags,
            }
        } else if is_owner {
            TopicView {
                author: self.author,
                description: self.description,
                tags: self.tags.push((tag, 1u32)),
                pending_tags: without(self.pending_tags, tag),
            }
        } else if self.pending_tags.contains(tag) {
            self
        } else {
            TopicView {
                author: self.author,
                description: self.description,
                tags: self.tags,
                pending_tags: self.pending_tags.push(tag),
            }
        }
    }

    /// The topic without `tag`, counted or waiting.
    pub open spec fn remove_tag(self, tag: Seq<char>) -> TopicView {
        TopicView {
            author: self.author,
            description: self.description,
            tags: without_tag(self.tags, tag),
            pending_tags: without(self.pending_tags, tag),
        }
    }

    /// The topic under another description.
    pub open spec fn describe(self, description: Seq<char>) -> TopicView {
        TopicView {
            author: self.author,
            description,
            tags: self.tags,
            pending_tags: self.pending_tags,
        }
    }

    /// The topic as a reader sees it: the waiting tags are for the owner
    /// alone.
    pub open spec fn shown_to(self, is_owner: bool) -> TopicView {
        if is_owner {
            self
        } else {
            TopicView {
                author: self.author,
                description: self.description,
                tags: self.tags,
                pending_tags: Seq::empty(),
            }
        }
    }

    /// A topic of `author` that carries no tag yet.
    pub open spec fn fresh(author: u64, description: Seq<char>) -> TopicView {
        TopicView { author, description, tags: Seq::empty(), pending_tags: Seq::empty() }
    }
}

/// The names of the entries that are left are the names that are left.
pub proof fn lemma_names_without_tag(tags: Seq<(Seq<char>, u32)>, name: Seq<char>)
    ensures
        names(without_tag(tags, name)) == without(names(tags), name),
    decreases tags.len(),
{
    let pred = named_other_than(name);
    let on_names = crate::lists::other_than(name);
    if tags.len() == 0 {
        tags.lemma_filter_len(pred);
        names(tags).lemma_filter_len(on_names);
        assert(names(without_tag(tags, name)) =~= without(names(tags), name));
    } else {
        let front = tags.drop_last();
        let last = tags.last();
        assert(tags =~= front.push(last));
        assert(names(tags) =~= names(front).push(last.0));
        front.lemma_filter_push(last, pred);
        names(front).lemma_filter_push(last.0, on_names);
        lemma_names_without_tag(front, name);
        if pred(last) {
            assert(names(without_tag(front, name).push(last)) =~= names(
                without_tag(front, name),
            ).push(last.0));
        }
    }
}

/// A voice for a tag and the removal of a tag keep a topic well formed.
pub proof fn lemma_topic_changes_keep_wf(v: TopicView, tag: Seq<char>, is_owner: bool)
    requires
        v.wf(),
    ensures
        v.add_tag(tag, is_owner).wf(),
        v.remove_tag(tag).wf(),
{
    let w = v.add_tag(tag, is_owner);
    if names(v.tags).contains(tag) {
        let i = names(v.tags).index_of(tag);
        assert(names(w.tags) =~= names(v.tags));
    } else if is_owner {
        assert(names(w.tags) =~= names(v.tags).push(tag));
        lemma_without_no_duplicates(v.pending_tags, tag);
        assert forall|a: int, b: int|
            0 <= a < names(w.tags).len() && 0 <= b < w.pending_tags.len() implies names(
            w.tags,
        )[a] != w.pending_tags[b] by {
            lemma_without_contains(v.pending_tags, tag, w.pending_tags[b]);
            let j = choose|j: int|
                0 <= j < v.pending_tags.len() && v.pending_tags[j] == w.pending_tags[b];
            if a < names(v.tags).len() {
                assert(names(v.tags)[a] != v.pending_tags[j]);
            }
        }
    } else if !v.pending_tags.contains(tag) {
        assert forall|a: int, b: int|
            0 <= a < names(w.tags).len() && 0 <= b < w.pending_tags.len() implies names(
            w.tags,
        )[a] != w.pending_tags[b] by {
            if b == v.pending_tags.len() {
                assert(names(v.tags).contains(names(v.tags)[a]));
            }
        }
    }
    let r = v.remove_tag(tag);
    lemma_names_without_tag(v.tags, tag);
    lemma_without_no_duplicates(names(v.tags), tag);
    lemma_without_no_duplicates(v.pending_tags, tag);
    assert forall|a: int, b: int|
        0 <= a < names(r.tags).len() && 0 <= b < r.pending_tags.len() implies names(r.tags)[a]
        != r.pending_tags[b] by {
        lemma_without_contains(names(v.tags), tag, names(r.tags)[a]);
        lemma_without_contains(v.pending_tags, tag, r.pending_tags[b]);
        let i = choose|i: int| 0 <= i < names(v.tags).len() && names(v.tags)[i] == names(r.tags)[a];
        let j = choose|j: int|
            0 <= j < v.pending_tags.len() && v.pending_tags[j] == r.pending_tags[b];
        assert(names(v.tags)[i] != v.pending_tags[j]);
    }
}

/// A voice for a tag that is already counted raises its count by exactly one
/// and changes nothing else: every other count stays, and the waiting list
/// stays as it was, without a repetition.
pub proof fn lemma_endorse_counted_tag(v: TopicView, tag: Seq<char>, is_owner: bool)
    requires
        v.wf(),
        v.counts().contains_key(tag),
        v.counts()[tag] < u32::MAX,
    ensures
        v.add_tag(tag, is_owner).counts() == v.counts().insert(
            tag,
            (v.counts()[tag] + 1) as u32,
        ),
        v.add_tag(tag, is_owner).pending_tags == v.pending_tags,
        v.add_tag(tag, is_owner).pending_tags.no_duplicates(),
        !v.add_tag(tag, is_owner).pending().contains(tag),
{
    let w = v.add_tag(tag, is_owner);
    let i = names(v.tags).index_of(tag);
    assert(names(w.tags) =~= names(v.tags));
    assert forall|t: Seq<char>| names(v.tags).contains(t) implies #[trigger] w.counts()[t]
        == v.counts().insert(tag, (v.counts()[tag] + 1) as u32)[t] by {
        let k = names(v.tags).index_of(t);
        if t == tag {
            assert(k == i);
        } else {
            assert(names(v.tags)[k] == t);
            assert(k != i);
        }
    }
    assert(w.counts() =~= v.counts().insert(tag, (v.counts()[tag] + 1) as u32));
    if v.pending_tags.contains(tag) {
        let j = choose|j: int| 0 <= j < v.pending_tags.len() && v.pending_tags[j] == tag;
        assert(names(v.tags)[i] != v.pending_tags[j]);
    }
}

/// A voice for a tag that is not counted yet: the owner's makes it counted
/// once and takes it off the waiting list; anyone else's puts it on the
/// waiting list and leaves the counts alone.
pub proof fn lemma_propose_new_tag(v: TopicView, tag: Seq<char>, is_owner: bool)
    requires
        v.wf(),
        !v.counts().contains_key(tag),
    ensures
        is_owner ==> v.add_tag(tag, is_owner).counts() == v.counts().insert(tag, 1u32),
        is_owner ==> v.add_tag(tag, is_owner).pending() == v.pending().remove(tag),
        !is_owner ==> v.add_tag(tag, is_owner).counts() == v.counts(),
        !is_owner ==> v.add_tag(tag, is_owner).pending() == v.pending().insert(tag),
{
    let w = v.add_tag(tag, is_owner);
    if is_owner {
        assert(names(w.tags) =~= names(v.tags).push(tag));
        assert forall|t: Seq<char>| names(w.tags).contains(t) implies #[trigger] w.counts()[t]
            == v.counts().insert(tag, 1u32)[t] by {
            let k = names(w.tags).index_of(t);
            assert(names(w.tags)[k] == t);
            if t != tag {
                assert(k < v.tags.len());
                assert(names(v.tags)[k] == t);
                let k0 = names(v.tags).index_of(t);
                assert(names(v.tags)[k0] == t);
                assert(k0 == k);
            } else {
                if k < v.tags.len() {
                    assert(names(v.tags)[k] == tag);
                }
            }
        }
        assert forall|t: Seq<char>|
            names(w.tags).contains(t) <==> v.counts().insert(tag, 1u32).contains_key(t) by {
            if names(w.tags).contains(t) {
                let k = names(w.tags).index_of(t);
                if k < v.tags.len() {
                    assert(names(v.tags)[k] == t);
                }
            }
            if t == tag {
                assert(names(w.tags)[v.tags.len() as int] == tag);
            } else if names(v.tags).contains(t) {
                let k = names(v.tags).index_of(t);
                assert(names(w.tags)[k] == t);
            }
        }
        assert(w.counts() =~= v.counts().insert(tag, 1u32));
        assert forall|t: Seq<char>| w.pending().contains(t) <==> v.pending().remove(
            tag,
        ).contains(t) by {
            lemma_without_contains(v.pending_tags, tag, t);
        }
        assert(w.pending() =~= v.pending().remove(tag));
    } else {
        if v.pending_tags.contains(tag) {
            assert(w.pending() =~= v.pending().insert(tag));
        } else {
            assert forall|t: Seq<char>| w.pending().contains(t) <==> v.pending().insert(
                tag,
            ).contains(t) by {
                if w.pending_tags.contains(t) {
                    let k = choose|k: int| 0 <= k < w.pending_tags.len() && w.pending_tags[k] == t;
                    if k < v.pending_tags.len() {
                        assert(v.pending_tags[k] == t);
                    }
                }
                if t == tag {
                    assert(w.pending_tags[v.pending_tags.len() as int] == tag);
                } else if v.pending_tags.contains(t) {
                    let k = choose|k: int| 0 <= k < v.pending_tags.len() && v.pending_tags[k] == t;
                    assert(w.pending_tags[k] == t);
                }
            }
            assert(w.pending() =~= v.pending().insert(tag));
        }
    }
}

/// Taking a tag off a topic removes its count and its place on the waiting
/// list, and touches no other tag.
pub proof fn lemma_remove_tag_counts(v: TopicView, tag: Seq<char>)
    requires
        v.wf(),
    ensures
        v.remove_tag(tag).counts() == v.counts().remove(tag),
        v.remove_tag(tag).pending() == v.pending().remove(tag),
{
    let w = v.remove_tag(tag);
    lemma_names_without_tag(v.tags, tag);
    lemma_topic_changes_keep_wf(v, tag, false);
    assert forall|t: Seq<char>| names(w.tags).contains(t) <==> v.counts().remove(
        tag,
    ).contains_key(t) by {
        lemma_without_contains(names(v.tags), tag, t);
    }
    assert forall|t: Seq<char>| names(w.tags).contains(t) implies #[trigger] w.counts()[t]
        == v.counts().remove(tag)[t] by {
        lemma_without_contains(names(v.tags), tag, t);
        let k = names(w.tags).index_of(t);
        assert(names(w.tags)[k] == t);
        let e = w.tags[k];
        assert(e.0 == t);
        assert(w.tags.contains(e));
        v.tags.lemma_filter_contains_rev(named_other_than(tag), e);
        let k0 = choose|k0: int| 0 <= k0 < v.tags.len() && v.tags[k0] == e;
        assert(names(v.tags)[k0] == t);
        let k1 = names(v.tags).index_of(t);
        assert(names(v.tags)[k1] == t);
        assert(k0 == k1);
    }
    assert(w.counts() =~= v.counts().remove(tag));
    assert forall|t: Seq<char>| w.pending().contains(t) <==> v.pending().remove(tag).contains(
        t,
    ) by {
        lemma_without_contains(v.pending_tags, tag, t);
    }
    assert(w.pending() =~= v.pending().remove(tag));
}

impl Topic {
    /// A topic of `author` that carries no tag yet.
    pub fn new(author: u64, description: String) -> (topic: Topic)
        ensures
            topic@ == TopicView::fresh(author, description@),
            topic@.wf(),
    {
        let topic = Topic { author, description, tags: Vec::new(), pending_tags: Vec::new() };
        assert(topic@.tags =~= Seq::empty());
        assert(topic@.pending_tags =~= Seq::empty());
        assert(names(topic@.tags) =~= Seq::empty());
        topic
    }

    /// Whether the lists of this topic stand for a map and a set that share
    /// no tag.
    pub fn is_wf(&self) -> (b: bool)
        ensures
            b == self@.wf(),
    {
        let mut tag_names: Vec<String> = Vec::new();
        let mut i: usize = 0;
        while i < self.tags.len()
            invariant
                i <= self.tags.len(),
                texts(tag_names@) == names(entries(self.tags@)).take(i as int),
            decreases self.tags.len() - i,
        {
            let ghost before = tag_names@;
            tag_names.push(self.tags[i].0.clone());
            assert(texts(tag_names@) =~= texts(before).push(self.tags[i as int].0@));
            assert(names(entries(self.tags@)).take(i + 1) =~= names(entries(self.tags@)).take(
                i as int,
            ).push(self.tags[i as int].0@));
            i += 1;
        }
        assert(texts(tag_names@) =~= names(self@.tags));
        if !all_distinct(&tag_names) || !all_distinct(&self.pending_tags) {
            return false;
        }
        let mut k: usize = 0;
        while k < tag_names.len()
            invariant
                k <= tag_names.len(),
                texts(tag_names@) == names(self@.tags),
                forall|a: int, b: int|
                    0 <= a < k && 0 <= b < self@.pending_tags.len() ==> names(self@.tags)[a]
                        != self@.pending_tags[b],
            decreases tag_names.len() - k,
        {
            match find_text(&self.pending_tags, &tag_names[k]) {
                Some(j) => {
                    assert(self@.pending_tags[j as int] == names(self@.tags)[k as int]);
                    return false;
                },
                None => {
                    assert forall|b: int| 0 <= b < self@.pending_tags.len() implies names(
                        self@.tags,
                    )[k as int] != self@.pending_tags[b] by {
                        assert(self@.pending_tags.contains(self@.pending_tags[b]));
                    }
                },
            }
            k += 1;
        }
        true
    }

    /// Whether two topics hold the same, in whatever order their tags are
    /// listed.
    pub fn same_as(&self, other: &Topic) -> (same: bool)
        requires
            self@.wf(),
            other@.wf(),
        ensures
            same == self@.same(other@),
    {
        proof {
            lemma_same_counts(self@.tags, other@.tags);
            lemma_same_set(self@.pending_tags, other@.pending_tags);
        }
        self.author == other.author && self.description == other.description && tags_within(
            &self.tags,
            &other.tags,
        ) && tags_within(&other.tags, &self.tags) && texts_within(
            &self.pending_tags,
            &other.pending_tags,
        ) && texts_within(&other.pending_tags, &self.pending_tags)
    }

    /// One more voice for `tag`, from the owner of the topic or from someone
    /// else. Fails, and changes nothing, where the count of `tag` cannot grow.
    pub fn add_tag(&mut self, tag: &String, is_owner: bool) -> (r: Result<(), ApiError>)
        requires
            old(self)@.wf(),
        ensures
            final(self)@.wf(),
            old(self)@.is_full(tag@) ==> {
                &&& r == Err::<(), ApiError>(ApiError::InvalidTag)
                &&& final(self)@ == old(self)@
            },
            !old(self)@.is_full(tag@) ==> {
                &&& r == Ok::<(), ApiError>(())
                &&& final(self)@ == old(self)@.add_tag(tag@, is_owner)
            },
    {
        proof {
            lemma_topic_changes_keep_wf(self@, tag@, is_owner);
        }
        let ghost before = self@;
        match find_tag(&self.tags, tag) {
            Some(i) => {
                proof {
                    assert(names(before.tags)[i as int] == tag@);
                    assert(names(before.tags).index_of(tag@) == i);
                }
                let count = self.tags[i].1;
                if count == u32::MAX {
                    return Err(ApiError::InvalidTag);
                }
                self.tags[i].1 = count + 1;
                assert(self@.tags =~= before.tags.update(i as int, (tag@, (count + 1) as u32)));
                Ok(())
            },
            None => {
                if is_owner {
                    self.tags.push((tag.clone(), 1));
                    self.pending_tags = remove_text(&self.pending_tags, tag);
                    assert(self@.tags =~= before.tags.push((tag@, 1u32)));
                    Ok(())
                } else {
                    match find_text(&self.pending_tags, tag) {
                        Some(j) => {
                            assert(before.pending_tags[j as int] == tag@);
                            Ok(())
                        },
                        None => {
                            self.pending_tags.push(tag.clone());
                            assert(self@.pending_tags =~= before.pending_tags.push(tag@));
                            Ok(())
                        },
                    }
                }
            },
        }
    }

    /// Takes `tag` off the topic, counted or waiting.
    pub fn remove_tag(&mut self, tag: &String)
        requires
            old(self)@.wf(),
        ensures
            final(self)@.wf(),
            final(self)@ == old(self)@.remove_tag(tag@),
    {
        proof {
            lemma_topic_changes_keep_wf(self@, tag@, false);
        }
        self.tags = remove_tag_entry(&self.tags, tag);
        self.pending_tags = remove_text(&self.pending_tags, tag);
    }
}

} // verus!
