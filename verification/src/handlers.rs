//! What each request does to the records, as one transaction: a function from
//! the entries that the transaction finds to its answer and the entries that
//! it leaves, or to a failure that leaves nothing.

use vstd::prelude::*;
use vstd::bytes::spec_u64_to_le_bytes;
use vstd::string::StringExecFns;
use vstd::utf8::encode_utf8;
use crate::codec::{encoded, DbType};
use crate::error::ApiError;
use crate::keys::{lemma_kinds_are_isolated, physical_key, Kind};
use crate::lists::{remove_text, without};
use crate::models::{
    is_active, is_verified, verdict, Status, Top, Topic, TopicView, UserDataView, UserInfo,
    UserStatus, UserStatusView,
};
use crate::token::{subject, text_of, OptionalToken, Token, TokenView, CLOCK_BOUND};
use crate::store::{
    present_at, record_at, with_record, with_transaction, without_record, DbHelper,
};

verus! {

/// The entries of a store: bytes under physical keys.
pub type Entries = Map<Seq<u8>, Seq<u8>>;

/// What a transaction comes to: its answer and the entries it leaves, or the
/// failure it ends in.
pub type Outcome<T> = Result<(T, Entries), ApiError>;

/// The entries of the store after a transaction that found `before`: those
/// that it leaves where it succeeds, and `before` where it fails. This is
/// what a transaction of the store is taken to do: that a failed one leaves
/// nothing behind is the store's own work and is written down here, not
/// derived; no contract of this library speaks of what the store holds.
pub open spec fn committed<T>(before: Entries, outcome: Outcome<T>) -> Entries {
    match outcome {
        Ok((_, after)) => after,
        Err(_) => before,
    }
}

/// The key of a user.
pub open spec fn user_key(uid: u64) -> Seq<u8> {
    spec_u64_to_le_bytes(uid)
}

/// The key of a topic.
pub open spec fn topic_key(name: Seq<char>) -> Seq<u8> {
    encode_utf8(name)
}

/// The key of the trending list.
pub open spec fn top_key() -> Seq<u8> {
    encode_utf8(""@)
}

/// The user `uid`, who has to be there.
pub open spec fn read_user(entries: Entries, uid: u64) -> Result<UserStatusView, ApiError> {
    present_at::<UserStatus>(entries, user_key(uid))
}

/// The topic `name`, which has to be there.
pub open spec fn read_topic(entries: Entries, name: Seq<char>) -> Result<TopicView, ApiError> {
    present_at::<Topic>(entries, topic_key(name))
}

/// The trending list, which is empty until it is first written.
pub open spec fn read_top(entries: Entries) -> Result<Seq<Seq<char>>, ApiError> {
    match record_at::<Top>(entries, top_key()) {
        Ok(Some(top)) => Ok(top),
        Ok(None) => Ok(Seq::empty()),
        Err(e) => Err(e),
    }
}

/// The entries after a record is written, or the failure to encode it.
pub open spec fn write<V: DbType>(entries: Entries, key: Seq<u8>, v: V::V) -> Result<
    Entries,
    ApiError,
> {
    if encoded::<V>(v) is Some {
        Ok(with_record::<V>(entries, key, v))
    } else {
        Err(ApiError::SerializeFailed)
    }
}

/// Whether caller `uid`, if there is one, passes as owner of a topic of
/// `author`: there is a record of the caller, and it passes the guard.
pub open spec fn owner_check(entries: Entries, uid: Option<u64>, author: u64) -> Result<
    bool,
    ApiError,
> {
    match uid {
        None => Ok(false),
        Some(uid) => match read_user(entries, uid) {
            Ok(user) => Ok(is_verified(user.status, uid, author)),
            Err(ApiError::NotFound) => Ok(false),
            Err(e) => Err(e),
        },
    }
}

/// Whether an answer and the entries left are what `outcome` says, unless a
/// read or write of the store failed on the way.
pub open spec fn agrees<T: View>(r: Result<T, ApiError>, after: Entries, outcome: Outcome<
    T::V,
>) -> bool {
    match r {
        Ok(answer) => outcome == Ok::<(T::V, Entries), ApiError>((answer@, after)),
        Err(e) => e.is_access_fault() || outcome is Err && outcome->Err_0 == e,
    }
}

/// Reading the trending list.
pub open spec fn top_read(entries: Entries) -> Outcome<Seq<Seq<char>>> {
    match read_top(entries) {
        Ok(top) => Ok((top, entries)),
        Err(e) => Err(e),
    }
}

/// Reading the trending list.
pub fn top_in(helper: &DbHelper<'_>) -> (r: Result<Top, ApiError>)
    ensures
        agrees(r, helper@, top_read(helper@)),
        untroubled(r, helper.written(), set![top_place()]),
{
    match helper.get::<&str, Top>(&"") {
        Ok(Some(top)) => Ok(top),
        Ok(None) => Ok(Top::default()),
        Err(e) => Err(e),
    }
}

/// Showing the user `uid`.
pub open spec fn user_shown(entries: Entries, uid: u64) -> Outcome<crate::models::UserInfoView> {
    match read_user(entries, uid) {
        Ok(user) => Ok((crate::models::shown_user(uid, user), entries)),
        Err(e) => Err(e),
    }
}

/// Showing the user `uid`.
pub fn user_in(helper: &DbHelper<'_>, uid: u64) -> (r: Result<UserInfo, ApiError>)
    ensures
        agrees(r, helper@, user_shown(helper@, uid)),
        untroubled(r, helper.written(), set![user_place(uid)]),
{
    let user = helper.get_or_not_found::<u64, UserStatus>(&uid)?;
    Ok(user.into_info(uid))
}

/// The record `user` under another status.
pub open spec fn reclassified(user: UserStatusView, status: Status) -> UserStatusView {
    UserStatusView { status, data: user.data }
}

/// Banning the user `uid` on the word of `admin_uid`, who has to be an
/// administrator.
pub open spec fn user_banned(entries: Entries, admin_uid: u64, uid: u64) -> Outcome<()> {
    match read_user(entries, admin_uid) {
        Err(e) => Err(e),
        Ok(admin) => if admin.status != Status::Admin {
            Err(ApiError::AdminRequired)
        } else {
            match read_user(entries, uid) {
                Err(e) => Err(e),
                Ok(user) => match write::<UserStatus>(
                    entries,
                    user_key(uid),
                    reclassified(user, Status::Banned),
                ) {
                    Ok(after) => Ok(((), after)),
                    Err(e) => Err(e),
                },
            }
        },
    }
}

/// Banning the user `uid` on the word of `admin_uid`.
pub fn ban_in(helper: &mut DbHelper<'_>, admin_uid: u64, uid: u64) -> (r: Result<(), ApiError>)
    ensures
        agrees(r, final(helper)@, user_banned(old(helper)@, admin_uid, uid)),
        untroubled(r, old(helper).written(), set![user_place(admin_uid), user_place(uid)]),
{
    let admin = helper.get_or_not_found::<u64, UserStatus>(&admin_uid)?;
    if !admin.is_admin() {
        return Err(ApiError::AdminRequired);
    }
    let user = helper.get_or_not_found::<u64, UserStatus>(&uid)?;
    let banned = user.with_status(Status::Banned);
    assert(banned@ =~= reclassified(user@, Status::Banned));
    helper.insert(&uid, &banned)?;
    Ok(())
}

/// Making the user `uid` an administrator, or a normal user again, and
/// saying so.
pub open spec fn admin_set(entries: Entries, uid: u64, promote: bool) -> Outcome<Seq<char>> {
    match read_user(entries, uid) {
        Err(e) => Err(e),
        Ok(user) => {
            let status = if promote {
                Status::Admin
            } else {
                Status::Normal
            };
            match write::<UserStatus>(entries, user_key(uid), reclassified(user, status)) {
                Ok(after) => Ok((admin_notice(user.data.login, promote), after)),
                Err(e) => Err(e),
            }
        },
    }
}

/// What is said of a change of rank.
pub open spec fn admin_notice(login: Seq<char>, promote: bool) -> Seq<char> {
    if promote {
        "User @"@ + login + " promoted to admin\n"@
    } else {
        "User @"@ + login + " demoted to normal\n"@
    }
}

/// Making the user `uid` an administrator, or a normal user again.
pub fn admin_in(helper: &mut DbHelper<'_>, uid: u64, promote: bool) -> (r: Result<
    String,
    ApiError,
>)
    ensures
        agrees(r, final(helper)@, admin_set(old(helper)@, uid, promote)),
        untroubled(r, old(helper).written(), set![user_place(uid)]),
{
    let user = helper.get_or_not_found::<u64, UserStatus>(&uid)?;
    let status = if promote {
        Status::Admin
    } else {
        Status::Normal
    };
    let changed = user.with_status(status);
    assert(changed@ =~= reclassified(user@, status));
    helper.insert(&uid, &changed)?;
    let notice = String::from_str("User @").concat(changed.data().login.as_str());
    if promote {
        Ok(notice.concat(" promoted to admin\n"))
    } else {
        Ok(notice.concat(" demoted to normal\n"))
    }
}

/// Whether caller `uid`, if there is one, reads a topic of `author` as its
/// owner. A caller without a record is a failure here.
pub open spec fn reader_check(entries: Entries, uid: Option<u64>, author: u64) -> Result<
    bool,
    ApiError,
> {
    match uid {
        None => Ok(false),
        Some(uid) => match read_user(entries, uid) {
            Ok(user) => Ok(is_verified(user.status, uid, author)),
            Err(e) => Err(e),
        },
    }
}

/// Showing the topic `name` to caller `uid`, if there is one.
pub open spec fn topic_shown(entries: Entries, uid: Option<u64>, name: Seq<char>) -> Outcome<
    TopicView,
> {
    match read_topic(entries, name) {
        Err(e) => Err(e),
        Ok(topic) => match reader_check(entries, uid, topic.author) {
            Err(e) => Err(e),
            Ok(is_owner) => Ok((topic.shown_to(is_owner), entries)),
        },
    }
}

/// The topic as a reader sees it.
fn show_to(topic: Topic, is_owner: bool) -> (shown: Topic)
    ensures
        shown@ == topic@.shown_to(is_owner),
{
    if is_owner {
        topic
    } else {
        let shown = Topic {
            author: topic.author,
            description: topic.description,
            tags: topic.tags,
            pending_tags: Vec::new(),
        };
        assert(shown@.pending_tags =~= Seq::empty());
        shown
    }
}

/// Showing the topic `name` to caller `uid`, if there is one.
pub fn topic_in(helper: &DbHelper<'_>, uid: Option<u64>, name: &String) -> (r: Result<
    Topic,
    ApiError,
>)
    ensures
        agrees(r, helper@, topic_shown(helper@, uid, name@)),
        untroubled(r, helper.written(), caller_place(uid).insert(topic_place(name@))),
{
    let topic = helper.get_or_not_found::<String, Topic>(name)?;
    let is_owner = match uid {
        None => false,
        Some(uid) => {
            let user = helper.get_or_not_found::<u64, UserStatus>(&uid)?;
            user.as_verified(uid, topic.author).is_ok()
        },
    };
    Ok(show_to(topic, is_owner))
}

/// The profile data `data` with another list of topics.
pub open spec fn with_topics(data: UserDataView, topics: Seq<Seq<char>>) -> UserDataView {
    UserDataView {
        topics,
        access_token: data.access_token,
        login: data.login,
        name: data.name,
        avatar_url: data.avatar_url,
        bio: data.bio,
    }
}

/// The record `user` with another list of topics.
pub open spec fn listing(user: UserStatusView, topics: Seq<Seq<char>>) -> UserStatusView {
    UserStatusView { status: user.status, data: with_topics(user.data, topics) }
}

/// Making the topic `name` for caller `uid`: the topic is written, its name
/// closes the trending list, and it closes the caller's own list.
pub open spec fn topic_made(
    entries: Entries,
    uid: u64,
    user: UserStatusView,
    name: Seq<char>,
    description: Seq<char>,
) -> Outcome<TopicView> {
    let topic = TopicView::fresh(uid, description);
    if !is_active(user.status) {
        Err(ApiError::InactiveUser)
    } else {
        match write::<Topic>(entries, topic_key(name), topic) {
            Err(e) => Err(e),
            Ok(with_topic) => match read_top(with_topic) {
                Err(e) => Err(e),
                Ok(top) => match write::<Top>(with_topic, top_key(), top.push(name)) {
                    Err(e) => Err(e),
                    Ok(with_top) => match write::<UserStatus>(
                        with_top,
                        user_key(uid),
                        listing(user, user.data.topics.push(name)),
                    ) {
                        Err(e) => Err(e),
                        Ok(after) => Ok((topic, after)),
                    },
                },
            },
        }
    }
}

/// Describing the topic `name` on the word of caller `uid`: a topic that is
/// there gets the description if the caller passes the guard of its author; a
/// topic that is not there is made.
pub open spec fn topic_described(
    entries: Entries,
    uid: u64,
    name: Seq<char>,
    description: Seq<char>,
) -> Outcome<TopicView> {
    match read_user(entries, uid) {
        Err(e) => Err(e),
        Ok(user) => match record_at::<Topic>(entries, topic_key(name)) {
            Err(e) => Err(e),
            Ok(Some(topic)) => match verdict(user.status, uid, topic.author) {
                Err(e) => Err(e),
                Ok(()) => match write::<Topic>(
                    entries,
                    topic_key(name),
                    topic.describe(description),
                ) {
                    Err(e) => Err(e),
                    Ok(after) => Ok((topic.describe(description), after)),
                },
            },
            Ok(None) => topic_made(entries, uid, user, name, description),
        },
    }
}

/// Describing the topic `name` on the word of caller `uid`.
pub fn describe_in(helper: &mut DbHelper<'_>, uid: u64, name: &String, description: &String) -> (r:
    Result<Topic, ApiError>)
    ensures
        agrees(r, final(helper)@, topic_described(old(helper)@, uid, name@, description@)),
        untroubled(
            r,
            old(helper).written(),
            set![user_place(uid), topic_place(name@), top_place()],
        ),
{
    let mut user = helper.get_or_not_found::<u64, UserStatus>(&uid)?;
    match helper.get::<String, Topic>(name)? {
        Some(mut topic) => {
            user.as_verified(uid, topic.author)?;
            topic.description = description.clone();
            helper.insert(name, &topic)?;
            Ok(topic)
        },
        None => {
            user.as_active()?;
            let topic = Topic::new(uid, description.clone());
            helper.insert(name, &topic)?;
            let mut top = match helper.get::<&str, Top>(&"")? {
                Some(top) => top,
                None => Top::default(),
            };
            let ghost listed = top@;
            top.0.push(name.clone());
            assert(top@ =~= listed.push(name@));
            helper.insert(&"", &top)?;
            let ghost before = user@;
            let data = user.data_mut();
            data.topics.push(name.clone());
            assert(user@ =~= listing(before, before.data.topics.push(name@)));
            helper.insert(&uid, &user)?;
            Ok(topic)
        },
    }
}

/// Deleting the topic `name` on the word of caller `uid`, who has to pass
/// the guard of its author: the name leaves the author's list and the
/// trending list, and the topic leaves the store.
pub open spec fn topic_deleted(entries: Entries, uid: u64, name: Seq<char>) -> Outcome<()> {
    match read_topic(entries, name) {
        Err(e) => Err(e),
        Ok(topic) => match read_user(entries, uid) {
            Err(e) => Err(e),
            Ok(caller) => match verdict(caller.status, uid, topic.author) {
                Err(e) => Err(e),
                Ok(()) => match read_user(entries, topic.author) {
                    Err(e) => Err(e),
                    Ok(author) => match write::<UserStatus>(
                        entries,
                        user_key(topic.author),
                        listing(author, without(author.data.topics, name)),
                    ) {
                        Err(e) => Err(e),
                        Ok(with_user) => match read_top(with_user) {
                            Err(e) => Err(e),
                            Ok(top) => match write::<Top>(
                                with_user,
                                top_key(),
                                without(top, name),
                            ) {
                                Err(e) => Err(e),
                                Ok(with_top) => Ok(
                                    ((), without_record::<Topic>(with_top, topic_key(name))),
                                ),
                            },
                        },
                    },
                },
            },
        },
    }
}

/// Deleting the topic `name` on the word of caller `uid`.
pub fn delete_in(helper: &mut DbHelper<'_>, uid: u64, name: &String) -> (r: Result<(), ApiError>)
    ensures
        agrees(r, final(helper)@, topic_deleted(old(helper)@, uid, name@)),
        untroubled(
            r,
            old(helper).written(),
            set![
                topic_place(name@),
                user_place(uid),
                top_place(),
                user_place(read_topic(old(helper)@, name@)->Ok_0.author),
            ],
        ),
{
    let topic = helper.get_or_not_found::<String, Topic>(name)?;
    let caller = helper.get_or_not_found::<u64, UserStatus>(&uid)?;
    caller.as_verified(uid, topic.author)?;
    let mut author = helper.get_or_not_found::<u64, UserStatus>(&topic.author)?;
    let ghost before = author@;
    let data = author.data_mut();
    data.topics = remove_text(&data.topics, name);
    assert(author@ =~= listing(before, without(before.data.topics, name@)));
    helper.insert(&topic.author, &author)?;
    let top = match helper.get::<&str, Top>(&"")? {
        Some(top) => top,
        None => Top::default(),
    };
    let kept = Top(remove_text(&top.0, name));
    helper.insert(&"", &kept)?;
    helper.remove::<String, Topic>(name)?;
    Ok(())
}

/// One more voice for `tag` on the topic `name`, from caller `uid` if there
/// is one. The answer shows the waiting tags to the owner alone.
pub open spec fn tag_added(
    entries: Entries,
    uid: Option<u64>,
    name: Seq<char>,
    tag: Seq<char>,
) -> Outcome<TopicView> {
    match read_topic(entries, name) {
        Err(e) => Err(e),
        Ok(topic) => match owner_check(entries, uid, topic.author) {
            Err(e) => Err(e),
            Ok(is_owner) => if topic.is_full(tag) {
                Err(ApiError::InvalidTag)
            } else {
                match write::<Topic>(entries, topic_key(name), topic.add_tag(tag, is_owner)) {
                    Err(e) => Err(e),
                    Ok(after) => Ok((topic.add_tag(tag, is_owner).shown_to(is_owner), after)),
                }
            },
        },
    }
}

/// One more voice for `tag` on the topic `name`.
pub fn add_tag_in(helper: &mut DbHelper<'_>, uid: Option<u64>, name: &String, tag: &String) -> (r:
    Result<Topic, ApiError>)
    ensures
        agrees(r, final(helper)@, tag_added(old(helper)@, uid, name@, tag@)),
        untroubled(r, old(helper).written(), caller_place(uid).insert(topic_place(name@))),
{
    let mut topic = helper.get_or_not_found::<String, Topic>(name)?;
    let is_owner = match uid {
        None => false,
        Some(uid) => match helper.get_or_not_found::<u64, UserStatus>(&uid) {
            Ok(user) => user.as_verified(uid, topic.author).is_ok(),
            Err(ApiError::NotFound) => false,
            Err(e) => { return Err(e); },
        },
    };
    topic.add_tag(tag, is_owner)?;
    helper.insert(name, &topic)?;
    Ok(show_to(topic, is_owner))
}

/// Taking `tag` off the topic `name` on the word of caller `uid`, who has to
/// pass the guard of its author.
pub open spec fn tag_removed(
    entries: Entries,
    uid: u64,
    name: Seq<char>,
    tag: Seq<char>,
) -> Outcome<TopicView> {
    match read_topic(entries, name) {
        Err(e) => Err(e),
        Ok(topic) => match read_user(entries, uid) {
            Err(e) => Err(e),
            Ok(user) => match verdict(user.status, uid, topic.author) {
                Err(e) => Err(e),
                Ok(()) => match write::<Topic>(entries, topic_key(name), topic.remove_tag(tag)) {
                    Err(e) => Err(e),
                    Ok(after) => Ok((topic.remove_tag(tag), after)),
                },
            },
        },
    }
}

/// Taking `tag` off the topic `name` on the word of caller `uid`.
pub fn remove_tag_in(helper: &mut DbHelper<'_>, uid: u64, name: &String, tag: &String) -> (r:
    Result<Topic, ApiError>)
    ensures
        agrees(r, final(helper)@, tag_removed(old(helper)@, uid, name@, tag@)),
        untroubled(r, old(helper).written(), set![topic_place(name@), user_place(uid)]),
{
    let mut topic = helper.get_or_not_found::<String, Topic>(name)?;
    let user = helper.get_or_not_found::<u64, UserStatus>(&uid)?;
    user.as_verified(uid, topic.author)?;
    topic.remove_tag(tag);
    helper.insert(name, &topic)?;
    Ok(topic)
}

/// Who a login was verified to be, and what the outside says of them.
#[derive(Clone, Debug, PartialEq, Eq)]
pub struct ExternalIdentity {
    pub id: u64,
    pub access_token: String,
    pub login: String,
    pub name: String,
    pub avatar_url: String,
    pub bio: String,
}

/// The mathematical content of an [`ExternalIdentity`].
pub struct ExternalIdentityView {
    pub id: u64,
    pub access_token: Seq<char>,
    pub login: Seq<char>,
    pub name: Seq<char>,
    pub avatar_url: Seq<char>,
    pub bio: Seq<char>,
}

impl View for ExternalIdentity {
    type V = ExternalIdentityView;

    open spec fn view(&self) -> ExternalIdentityView {
        ExternalIdentityView {
            id: self.id,
            access_token: self.access_token@,
            login: self.login@,
            name: self.name@,
            avatar_url: self.avatar_url@,
            bio: self.bio@,
        }
    }
}

/// The record `user` with its profile as `identity` gives it; the list of
/// topics and the status stay.
pub open spec fn refreshed(user: UserStatusView, identity: ExternalIdentityView) -> UserStatusView {
    UserStatusView {
        status: user.status,
        data: UserDataView {
            topics: user.data.topics,
            access_token: identity.access_token,
            login: identity.login,
            name: identity.name,
            avatar_url: identity.avatar_url,
            bio: identity.bio,
        },
    }
}

/// The record of a user who has never logged in: a normal account with
/// nothing in it.
pub open spec fn newcomer() -> UserStatusView {
    UserStatusView {
        status: Status::Normal,
        data: UserDataView {
            topics: Seq::empty(),
            access_token: Seq::empty(),
            login: Seq::empty(),
            name: Seq::empty(),
            avatar_url: Seq::empty(),
            bio: Seq::empty(),
        },
    }
}

/// Writing down a login: the record of the user is made if there is none,
/// and its profile is brought up to date.
pub open spec fn login_recorded(entries: Entries, identity: ExternalIdentityView) -> Outcome<()> {
    match record_at::<UserStatus>(entries, user_key(identity.id)) {
        Err(e) => Err(e),
        Ok(found) => {
            let user = match found {
                Some(user) => user,
                None => newcomer(),
            };
            match write::<UserStatus>(entries, user_key(identity.id), refreshed(user, identity)) {
                Err(e) => Err(e),
                Ok(after) => Ok(((), after)),
            }
        },
    }
}

/// Writing down a login.
pub fn login_in(helper: &mut DbHelper<'_>, identity: &ExternalIdentity) -> (r: Result<
    (),
    ApiError,
>)
    ensures
        agrees(r, final(helper)@, login_recorded(old(helper)@, identity@)),
        untroubled(r, old(helper).written(), set![user_place(identity.id)]),
{
    let mut user = match helper.get::<u64, UserStatus>(&identity.id)? {
        Some(user) => user,
        None => {
            let user = UserStatus::default();
            assert(user@ =~= newcomer());
            user
        },
    };
    let ghost before = user@;
    let data = user.data_mut();
    data.access_token = identity.access_token.clone();
    data.login = identity.login.clone();
    data.name = identity.name.clone();
    data.avatar_url = identity.avatar_url.clone();
    data.bio = identity.bio.clone();
    assert(user@ =~= refreshed(before, identity@));
    helper.insert(&identity.id, &user)?;
    Ok(())
}

/// The physical key of the user `uid`.
pub open spec fn user_place(uid: u64) -> Seq<u8> {
    physical_key(Kind::User, user_key(uid))
}

/// The physical key of the topic `name`.
pub open spec fn topic_place(name: Seq<char>) -> Seq<u8> {
    physical_key(Kind::Topic, topic_key(name))
}

/// The physical key of the trending list.
pub open spec fn top_place() -> Seq<u8> {
    physical_key(Kind::Top, top_key())
}

/// A deletion is all or nothing. Where it succeeds, three things have
/// happened together and nothing else: the topic has left the store, the
/// trending list is written without its name, and the author's record is
/// written without its name. Where it fails, the store stays as it was:
/// that half holds by what [`committed`] takes a failed transaction to do,
/// which is the store's promise and not a result of this library.
pub proof fn lemma_deletion_is_atomic(entries: Entries, uid: u64, name: Seq<char>)
    ensures
        topic_deleted(entries, uid, name) is Err ==> committed(
            entries,
            topic_deleted(entries, uid, name),
        ) == entries,
        topic_deleted(entries, uid, name) is Ok ==> {
            let after = committed(entries, topic_deleted(entries, uid, name));
            let topic = read_topic(entries, name)->Ok_0;
            let author = read_user(entries, topic.author)->Ok_0;
            let top = read_top(entries)->Ok_0;
            &&& read_topic(entries, name) is Ok
            &&& read_user(entries, topic.author) is Ok
            &&& read_top(entries) is Ok
            &&& is_verified(read_user(entries, uid)->Ok_0.status, uid, topic.author)
            &&& !after.contains_key(topic_place(name))
            &&& after.contains_key(top_place())
            &&& Some(after[top_place()]) == encoded::<Top>(without(top, name))
            &&& after.contains_key(user_place(topic.author))
            &&& Some(after[user_place(topic.author)]) == encoded::<UserStatus>(
                listing(author, without(author.data.topics, name)),
            )
            &&& forall|k: Seq<u8>|
                k != topic_place(name) && k != top_place() && k != user_place(topic.author) ==> (
                after.contains_key(k) <==> entries.contains_key(k)) && (after.contains_key(k)
                    ==> after[k] == entries[k])
        },
{
    if topic_deleted(entries, uid, name) is Ok {
        let topic = read_topic(entries, name)->Ok_0;
        lemma_kinds_are_isolated(Kind::User, user_key(topic.author), Kind::Top, top_key());
        lemma_kinds_are_isolated(Kind::User, user_key(topic.author), Kind::Topic, topic_key(name));
        lemma_kinds_are_isolated(Kind::Top, top_key(), Kind::Topic, topic_key(name));
    }
}

/// Making a topic is all or nothing too. Where it succeeds, three records
/// are written together and nothing else: the topic, without tags and under
/// its maker's name; the trending list, closed by the new name; and the
/// maker's record, closed by the new name. Where it fails, the store stays
/// as it was, by what [`committed`] takes a failed transaction to do: the
/// store's promise, not a result of this library.
pub proof fn lemma_making_is_atomic(
    entries: Entries,
    uid: u64,
    user: UserStatusView,
    name: Seq<char>,
    description: Seq<char>,
)
    ensures
        topic_made(entries, uid, user, name, description) is Err ==> committed(
            entries,
            topic_made(entries, uid, user, name, description),
        ) == entries,
        topic_made(entries, uid, user, name, description) is Ok ==> {
            let outcome = topic_made(entries, uid, user, name, description);
            let after = committed(entries, outcome);
            let top = read_top(entries)->Ok_0;
            &&& is_active(user.status)
            &&& read_top(entries) is Ok
            &&& outcome->Ok_0.0 == TopicView::fresh(uid, description)
            &&& after.contains_key(topic_place(name))
            &&& Some(after[topic_place(name)]) == encoded::<Topic>(
                TopicView::fresh(uid, description),
            )
            &&& after.contains_key(top_place())
            &&& Some(after[top_place()]) == encoded::<Top>(top.push(name))
            &&& after.contains_key(user_place(uid))
            &&& Some(after[user_place(uid)]) == encoded::<UserStatus>(
                listing(user, user.data.topics.push(name)),
            )
            &&& forall|k: Seq<u8>|
                k != topic_place(name) && k != top_place() && k != user_place(uid) ==> (
                after.contains_key(k) <==> entries.contains_key(k)) && (after.contains_key(k)
                    ==> after[k] == entries[k])
        },
{
    lemma_kinds_are_isolated(Kind::User, user_key(uid), Kind::Top, top_key());
    lemma_kinds_are_isolated(Kind::User, user_key(uid), Kind::Topic, topic_key(name));
    lemma_kinds_are_isolated(Kind::Top, top_key(), Kind::Topic, topic_key(name));
}

/// A voice for a tag touches one record, the topic's. A failed one touches
/// none, by what [`committed`] takes a failed transaction to do: the
/// store's promise, not a result of this library.
pub proof fn lemma_tag_changes_touch_one_record(
    entries: Entries,
    uid: Option<u64>,
    name: Seq<char>,
    tag: Seq<char>,
)
    ensures
        tag_added(entries, uid, name, tag) is Err ==> committed(
            entries,
            tag_added(entries, uid, name, tag),
        ) == entries,
        tag_added(entries, uid, name, tag) is Ok ==> {
            let after = committed(entries, tag_added(entries, uid, name, tag));
            let topic = read_topic(entries, name)->Ok_0;
            let is_owner = owner_check(entries, uid, topic.author)->Ok_0;
            &&& topic.wf()
            &&& !topic.is_full(tag)
            &&& after == entries.insert(
                topic_place(name),
                encoded::<Topic>(topic.add_tag(tag, is_owner)).unwrap(),
            )
        },
{
}

/// After a deletion the topic is read as absent, the trending list is read
/// without its name, and the author's record is read without its name.
pub proof fn lemma_deleted_topic_is_gone(entries: Entries, uid: u64, name: Seq<char>)
    requires
        topic_deleted(entries, uid, name) is Ok,
    ensures
        ({
            let after = committed(entries, topic_deleted(entries, uid, name));
            let topic = read_topic(entries, name)->Ok_0;
            let author = read_user(entries, topic.author)->Ok_0;
            let top = read_top(entries)->Ok_0;
            &&& read_topic(after, name) == Err::<TopicView, ApiError>(ApiError::NotFound)
            &&& read_top(after) == Ok::<Seq<Seq<char>>, ApiError>(without(top, name))
            &&& !without(top, name).contains(name)
            &&& read_user(after, topic.author) == Ok::<UserStatusView, ApiError>(
                listing(author, without(author.data.topics, name)),
            )
            &&& !without(author.data.topics, name).contains(name)
        }),
{
    lemma_deletion_is_atomic(entries, uid, name);
    let topic = read_topic(entries, name)->Ok_0;
    let author = read_user(entries, topic.author)->Ok_0;
    let top = read_top(entries)->Ok_0;
    crate::lists::lemma_without_contains(top, name, name);
    crate::lists::lemma_without_contains(author.data.topics, name, name);
}

/// After a topic is made it is read back without tags and under its maker's
/// id, the trending list is read with its name at the end, and so is the
/// maker's own list.
pub proof fn lemma_made_topic_reads_back(
    entries: Entries,
    uid: u64,
    user: UserStatusView,
    name: Seq<char>,
    description: Seq<char>,
)
    requires
        topic_made(entries, uid, user, name, description) is Ok,
    ensures
        ({
            let after = committed(entries, topic_made(entries, uid, user, name, description));
            let top = read_top(entries)->Ok_0;
            &&& read_topic(after, name) is Ok
            &&& read_topic(after, name)->Ok_0.author == uid
            &&& read_topic(after, name)->Ok_0.description == description
            &&& read_topic(after, name)->Ok_0.counts() == Map::<Seq<char>, u32>::empty()
            &&& read_topic(after, name)->Ok_0.pending() == Set::<Seq<char>>::empty()
            &&& read_top(after) == Ok::<Seq<Seq<char>>, ApiError>(top.push(name))
            &&& read_user(after, uid) == Ok::<UserStatusView, ApiError>(
                listing(user, user.data.topics.push(name)),
            )
        }),
{
    lemma_making_is_atomic(entries, uid, user, name, description);
    let fresh = TopicView::fresh(uid, description);
    assert(fresh.counts() =~= Map::<Seq<char>, u32>::empty());
    assert(fresh.pending() =~= Set::<Seq<char>>::empty());
}

/// After a voice for a tag the topic is read back with the counts and the
/// waiting tags that the voice leaves; every other record is read as before.
pub proof fn lemma_added_tag_reads_back(
    entries: Entries,
    uid: Option<u64>,
    name: Seq<char>,
    tag: Seq<char>,
)
    requires
        tag_added(entries, uid, name, tag) is Ok,
    ensures
        ({
            let after = committed(entries, tag_added(entries, uid, name, tag));
            let topic = read_topic(entries, name)->Ok_0;
            let is_owner = owner_check(entries, uid, topic.author)->Ok_0;
            &&& read_topic(after, name) is Ok
            &&& topic.add_tag(tag, is_owner).same(read_topic(after, name)->Ok_0)
            &&& read_top(after) == read_top(entries)
            &&& forall|other: u64| read_user(after, other) == read_user(entries, other)
        }),
{
    lemma_tag_changes_touch_one_record(entries, uid, name, tag);
    lemma_kinds_are_isolated(Kind::Topic, topic_key(name), Kind::Top, top_key());
    assert forall|other: u64|
        read_user(committed(entries, tag_added(entries, uid, name, tag)), other) == read_user(
            entries,
            other,
        ) by {
        lemma_kinds_are_isolated(Kind::Topic, topic_key(name), Kind::User, user_key(other));
    }
}

/// A voice for a tag succeeds exactly where the topic is read, the
/// caller's record is read or is not there, the count has room to grow, and
/// the topic as the voice leaves it can be stored.
pub proof fn lemma_tag_added_iff(
    entries: Entries,
    uid: Option<u64>,
    name: Seq<char>,
    tag: Seq<char>,
)
    ensures
        tag_added(entries, uid, name, tag) is Ok <==> {
            let topic = read_topic(entries, name)->Ok_0;
            let is_owner = owner_check(entries, uid, topic.author)->Ok_0;
            &&& read_topic(entries, name) is Ok
            &&& owner_check(entries, uid, topic.author) is Ok
            &&& !topic.is_full(tag)
            &&& encoded::<Topic>(topic.add_tag(tag, is_owner)) is Some
        },
{
}

/// A voice for a tag that the topic counts already, from whomever it comes:
/// where the transaction succeeds, the topic is read back with that count
/// raised by exactly one, every other count as it was and no tag counted
/// that was not, the waiting tags as they were and the tag not among them,
/// and author and description unchanged.
pub proof fn lemma_endorsement_is_stored(
    entries: Entries,
    uid: Option<u64>,
    name: Seq<char>,
    tag: Seq<char>,
)
    requires
        tag_added(entries, uid, name, tag) is Ok,
        read_topic(entries, name)->Ok_0.counts().contains_key(tag),
    ensures
        ({
            let before = read_topic(entries, name)->Ok_0;
            let after = read_topic(committed(entries, tag_added(entries, uid, name, tag)), name);
            &&& after is Ok
            &&& after->Ok_0.wf()
            &&& before.counts()[tag] < u32::MAX
            &&& after->Ok_0.counts() == before.counts().insert(
                tag,
                (before.counts()[tag] + 1) as u32,
            )
            &&& after->Ok_0.counts().dom() == before.counts().dom()
            &&& after->Ok_0.pending() == before.pending()
            &&& !after->Ok_0.pending().contains(tag)
            &&& after->Ok_0.author == before.author
            &&& after->Ok_0.description == before.description
        }),
{
    let before = read_topic(entries, name)->Ok_0;
    let is_owner = owner_check(entries, uid, before.author)->Ok_0;
    lemma_added_tag_reads_back(entries, uid, name, tag);
    crate::models::lemma_endorse_counted_tag(before, tag, is_owner);
    let after = read_topic(committed(entries, tag_added(entries, uid, name, tag)), name)->Ok_0;
    assert(after.counts().dom() =~= before.counts().dom());
}

/// No read or write of the store fails under a key that the transaction has
/// written or deleted before: where it has done so for every key in `keys`,
/// `r` is no failure of a read or write.
pub open spec fn untroubled<T>(
    r: Result<T, ApiError>,
    written: Set<Seq<u8>>,
    keys: Set<Seq<u8>>,
) -> bool {
    keys.subset_of(written) ==> !(r is Err && r->Err_0.is_access_fault())
}

/// The physical key of the record of caller `uid`, if there is a caller.
pub open spec fn caller_place(uid: Option<u64>) -> Set<Seq<u8>> {
    match uid {
        Some(uid) => set![user_place(uid)],
        None => Set::empty(),
    }
}

/// Whether an answer is what a transaction gives that comes to `outcome`:
/// the answer of `outcome`, committed; the failure of `outcome`; the failure
/// of a read or write on the way; or the failure of the store to commit
/// where `outcome` is a success.
pub open spec fn served<T: View>(r: Result<T, ApiError>, outcome: Outcome<T::V>) -> bool {
    match r {
        Ok(answer) => outcome is Ok && outcome->Ok_0.0 == answer@,
        Err(e) => {
            ||| e.is_access_fault()
            ||| outcome is Err && outcome->Err_0 == e
            ||| e == ApiError::CommitFailed && outcome is Ok
        },
    }
}

/// The trending list, read in a transaction of its own.
pub fn get_top(db: &sled::Db) -> (r: Result<Top, ApiError>)
    ensures
        exists|before: Entries|
            served(r, #[trigger] top_read(before)),
{
    let run = |helper: DbHelper<'_>| -> (r: Result<Top, ApiError>)
        ensures
            served(r, top_read(helper@)),
        { top_in(&helper) };
    with_transaction(db, run)
}

/// The caller's own record, as it is shown.
pub fn get_me(db: &sled::Db, token: &OptionalToken) -> (r: Result<UserInfo, ApiError>)
    ensures
        match subject(token@) {
            None => r == Err::<UserInfo, ApiError>(ApiError::LoginRequired),
            Some(uid) => exists|
                before: Entries,
            | served(r, #[trigger] user_shown(before, uid)),
        },
{
    let uid = token.auth()?;
    get_user(db, uid)
}

/// The record of user `uid`, as it is shown.
pub fn get_user(db: &sled::Db, uid: u64) -> (r: Result<UserInfo, ApiError>)
    ensures
        exists|before: Entries|
            served(r, #[trigger] user_shown(before, uid)),
{
    let run = |helper: DbHelper<'_>| -> (r: Result<UserInfo, ApiError>)
        ensures
            served(r, user_shown(helper@, uid)),
        { user_in(&helper, uid) };
    with_transaction(db, run)
}

/// Bans user `uid` on the word of the caller, who has to be an
/// administrator.
pub fn ban_user(db: &sled::Db, token: &OptionalToken, uid: u64) -> (r: Result<(), ApiError>)
    ensures
        match subject(token@) {
            None => r == Err::<(), ApiError>(ApiError::LoginRequired),
            Some(admin_uid) => exists|
                before: Entries,
            | served(r, #[trigger] user_banned(before, admin_uid, uid)),
        },
{
    let admin_uid = token.auth()?;
    let run = |helper: DbHelper<'_>| -> (r: Result<(), ApiError>)
        ensures
            served(r, user_banned(helper@, admin_uid, uid)),
        {
            let mut helper = helper;
            ban_in(&mut helper, admin_uid, uid)
        };
    with_transaction(db, run)
}

/// The topic `name`, as the caller may see it.
pub fn get_topic(db: &sled::Db, token: &OptionalToken, name: &String) -> (r: Result<
    Topic,
    ApiError,
>)
    ensures
        exists|before: Entries|
            served(r, #[trigger] topic_shown(before, subject(token@), name@)),
{
    let uid = token.get_sub();
    let run = |helper: DbHelper<'_>| -> (r: Result<Topic, ApiError>)
        ensures
            served(r, topic_shown(helper@, uid, name@)),
        { topic_in(&helper, uid, name) };
    with_transaction(db, run)
}

/// Whether a topic may bear `name`: between 1 and 128 bytes.
pub open spec fn valid_topic_name(name: Seq<char>) -> bool {
    1 <= encode_utf8(name).len() <= 128
}

/// Whether `tag` may be proposed: between 1 and 64 bytes.
pub open spec fn valid_tag(tag: Seq<char>) -> bool {
    1 <= encode_utf8(tag).len() <= 64
}

/// Whether a topic may bear `name`.
pub fn check_topic_name(name: &String) -> (r: Result<(), ApiError>)
    ensures
        r == if valid_topic_name(name@) {
            Ok::<(), ApiError>(())
        } else {
            Err::<(), ApiError>(ApiError::InvalidTopic)
        },
{
    let n = name.as_str().as_bytes().len();
    if n == 0 || n > 128 {
        Err(ApiError::InvalidTopic)
    } else {
        Ok(())
    }
}

/// Whether `tag` may be proposed.
pub fn check_tag(tag: &String) -> (r: Result<(), ApiError>)
    ensures
        r == if valid_tag(tag@) {
            Ok::<(), ApiError>(())
        } else {
            Err::<(), ApiError>(ApiError::InvalidTag)
        },
{
    let n = tag.as_str().as_bytes().len();
    if n == 0 || n > 64 {
        Err(ApiError::InvalidTag)
    } else {
        Ok(())
    }
}

/// Describes the topic `name` on the word of the caller, and makes it where
/// it is not there yet. The name is looked at first, the caller second.
pub fn topic_handler(
    db: &sled::Db,
    token: &OptionalToken,
    name: &String,
    description: &String,
) -> (r: Result<Topic, ApiError>)
    ensures
        !valid_topic_name(name@) ==> r == Err::<Topic, ApiError>(ApiError::InvalidTopic),
        valid_topic_name(name@) ==> match subject(token@) {
            None => r == Err::<Topic, ApiError>(ApiError::LoginRequired),
            Some(uid) => exists|
                before: Entries,
            | served(r, #[trigger] topic_described(before, uid, name@, description@)),
        },
{
    check_topic_name(name)?;
    let uid = token.auth()?;
    let run = |helper: DbHelper<'_>| -> (r: Result<Topic, ApiError>)
        ensures
            served(r, topic_described(helper@, uid, name@, description@)),
        {
            let mut helper = helper;
            describe_in(&mut helper, uid, name, description)
        };
    with_transaction(db, run)
}

/// Deletes the topic `name` on the word of the caller.
pub fn del_topic(db: &sled::Db, token: &OptionalToken, name: &String) -> (r: Result<(), ApiError>)
    ensures
        match subject(token@) {
            None => r == Err::<(), ApiError>(ApiError::LoginRequired),
            Some(uid) => exists|before: Entries|
                served(r, #[trigger] topic_deleted(before, uid, name@)),
        },
{
    let uid = token.auth()?;
    let run = |helper: DbHelper<'_>| -> (r: Result<(), ApiError>)
        ensures
            served(r, topic_deleted(helper@, uid, name@)),
        {
            let mut helper = helper;
            delete_in(&mut helper, uid, name)
        };
    with_transaction(db, run)
}

/// One more voice for `tag` on the topic `name`, from the caller or from
/// nobody in particular. The tag is looked at first.
pub fn add_tags_handler(db: &sled::Db, token: &OptionalToken, name: &String, tag: &String) -> (r:
    Result<Topic, ApiError>)
    ensures
        !valid_tag(tag@) ==> r == Err::<Topic, ApiError>(ApiError::InvalidTag),
        valid_tag(tag@) ==> exists|
            before: Entries,
        | served(r, #[trigger] tag_added(before, subject(token@), name@, tag@)),
{
    check_tag(tag)?;
    let uid = token.get_sub();
    let run = |helper: DbHelper<'_>| -> (r: Result<Topic, ApiError>)
        ensures
            served(r, tag_added(helper@, uid, name@, tag@)),
        {
            let mut helper = helper;
            add_tag_in(&mut helper, uid, name, tag)
        };
    with_transaction(db, run)
}

/// Takes `tag` off the topic `name` on the word of the caller.
pub fn del_tags_handler(db: &sled::Db, token: &OptionalToken, name: &String, tag: &String) -> (r:
    Result<Topic, ApiError>)
    ensures
        match subject(token@) {
            None => r == Err::<Topic, ApiError>(ApiError::LoginRequired),
            Some(uid) => exists|
                before: Entries,
            | served(r, #[trigger] tag_removed(before, uid, name@, tag@)),
        },
{
    let uid = token.auth()?;
    let run = |helper: DbHelper<'_>| -> (r: Result<Topic, ApiError>)
        ensures
            served(r, tag_removed(helper@, uid, name@, tag@)),
        {
            let mut helper = helper;
            remove_tag_in(&mut helper, uid, name, tag)
        };
    with_transaction(db, run)
}

/// Writes down the login of `identity` and hands out the token to show for
/// it, issued by `secret_key` at the time of the call.
pub fn oauth_callback(db: &sled::Db, secret_key: &[u8; 32], identity: &ExternalIdentity) -> (r:
    Result<String, ApiError>)
    ensures
        match r {
            Ok(text) => exists|now: i64, before: Entries|
                {
                    &&& -CLOCK_BOUND <= now <= CLOCK_BOUND
                    &&& text@ == (#[trigger] TokenView::issued(
                        secret_key@,
                        identity.id,
                        now,
                    )).shown()
                    &&& (#[trigger] login_recorded(before, identity@)) is Ok
                },
            Err(e) => exists|before: Entries|
                served(Err::<(), ApiError>(e), #[trigger] login_recorded(before, identity@)),
        },
{
    let token = Token::new(secret_key, identity.id);
    let run = |helper: DbHelper<'_>| -> (r: Result<(), ApiError>)
        ensures
            served(r, login_recorded(helper@, identity@)),
        {
            let mut helper = helper;
            login_in(&mut helper, identity)
        };
    match with_transaction(db, run) {
        Ok(()) => Ok(token.to_text()),
        Err(e) => Err(e),
    }
}

/// The worth of a digit; `None` for any other character.
pub open spec fn digit_worth(c: char) -> Option<nat> {
    if c == '0' {
        Some(0)
    } else if c == '1' {
        Some(1)
    } else if c == '2' {
        Some(2)
    } else if c == '3' {
        Some(3)
    } else if c == '4' {
        Some(4)
    } else if c == '5' {
        Some(5)
    } else if c == '6' {
        Some(6)
    } else if c == '7' {
        Some(7)
    } else if c == '8' {
        Some(8)
    } else if c == '9' {
        Some(9)
    } else {
        None
    }
}

/// The number that a run of decimal digits spells, the empty run spelling
/// nought; `None` where a character is no digit.
pub open spec fn digits_worth(digits: Seq<char>) -> Option<nat>
    decreases digits.len(),
{
    if digits.len() == 0 {
        Some(0)
    } else {
        match (digits_worth(digits.drop_last()), digit_worth(digits.last())) {
            (Some(front), Some(last)) => Some(10 * front + last),
            _ => None,
        }
    }
}

/// The number that `text` spells: an optional plus sign, then one decimal
/// digit or more, leading zeros allowed, the whole no more than a `u64`
/// holds. `None` for every other text.
pub open spec fn parsed_u64(text: Seq<char>) -> Option<u64> {
    let digits = if text.len() > 0 && text[0] == '+' {
        text.skip(1)
    } else {
        text
    };
    if digits.len() == 0 {
        None
    } else {
        match digits_worth(digits) {
            Some(n) => if n <= u64::MAX {
                Some(n as u64)
            } else {
                None
            },
            None => None,
        }
    }
}

/// Calls `str::parse` for a `u64`, which reads an optional plus sign and
/// then decimal digits, and fails on an empty text, on a sign alone, on any
/// other character and on a number too large.
#[verifier::external_body]
fn parse_u64(text: &str) -> (n: Option<u64>)
    ensures
        n == parsed_u64(text@),
{
    text.parse::<u64>().ok()
}

/// Whom a request to change a rank names, and whether it raises the rank:
/// the promotion counts where both are asked for.
pub open spec fn rank_request(op: Option<Seq<char>>, deop: Option<Seq<char>>) -> Option<
    (u64, bool),
> {
    let named = if op is Some {
        op
    } else {
        deop
    };
    match named {
        Some(text) => match parsed_u64(text) {
            Some(uid) => Some((uid, op is Some)),
            None => None,
        },
        None => None,
    }
}

/// Makes a user an administrator where `op` names them, or a normal user
/// again where `deop` does.
pub fn admin_handler(db: &sled::Db, op: Option<&str>, deop: Option<&str>) -> (r: Result<
    String,
    ApiError,
>)
    ensures
        rank_request(text_of(op), text_of(deop)) is None ==> r == Err::<String, ApiError>(
            ApiError::InvalidUid,
        ),
        rank_request(text_of(op), text_of(deop)) is Some ==> exists|before: Entries|
            served(
                r,
                #[trigger] admin_set(
                    before,
                    rank_request(text_of(op), text_of(deop)).unwrap().0,
                    rank_request(text_of(op), text_of(deop)).unwrap().1,
                ),
            ),
{
    let promote = op.is_some();
    let named = if promote {
        op
    } else {
        deop
    };
    assert(text_of(named) == if text_of(op) is Some {
        text_of(op)
    } else {
        text_of(deop)
    });
    let uid = match named {
        Some(text) => match parse_u64(text) {
            Some(uid) => uid,
            None => { return Err(ApiError::InvalidUid); },
        },
        None => { return Err(ApiError::InvalidUid); },
    };
    assert(rank_request(text_of(op), text_of(deop)) == Some((uid, promote)));
    let run = |helper: DbHelper<'_>| -> (r: Result<String, ApiError>)
        ensures
            served(r, admin_set(helper@, uid, promote)),
        {
            let mut helper = helper;
            admin_in(&mut helper, uid, promote)
        };
    let r = with_transaction(db, run);
    proof {
        let asked = rank_request(text_of(op), text_of(deop));
        if exists|helper: DbHelper<'_>| run.ensures((helper,), r) {
            let helper = choose|helper: DbHelper<'_>| run.ensures((helper,), r);
            assert(served(r, admin_set(helper@, asked.unwrap().0, asked.unwrap().1)));
        } else {
            let (helper, answer) = choose|helper: DbHelper<'_>, answer: String|
                run.ensures((helper,), Ok::<String, ApiError>(answer));
            assert(served(r, admin_set(helper@, asked.unwrap().0, asked.unwrap().1)));
        }
    }
    r
}

} // verus!
