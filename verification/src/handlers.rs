//! The request handlers' decision logic. Each handler takes plain values —
//! the process edge around the library does the parsing — and maps them,
//! with the store, to a response: a record, a list, a redirect location, or
//! a status code with a message.

use vstd::prelude::*;

use crate::models::{Friend, FriendView, NewFriend, NewFriendView};
use crate::paths::{friend_path, friend_path_spec};
use crate::store::{spec_find, Store};

verus! {

/// Which creation payload a request carries: the JSON body when one decoded,
/// else the form body, else none.
pub open spec fn chosen_body(json: Option<NewFriend>, form: Option<NewFriend>) -> Option<
    NewFriendView,
> {
    match json {
        Option::Some(n) => Option::Some(n@),
        Option::None => match form {
            Option::Some(n) => Option::Some(n@),
            Option::None => Option::None,
        },
    }
}

/// Content negotiation: a JSON body and a form body carrying the same
/// fields select the same payload, so either one leads to a stored record
/// with the same name and email (the assigned id apart).
pub proof fn lemma_body_formats_agree(j: NewFriend, f: NewFriend)
    requires
        j@ == f@,
    ensures
        chosen_body(Option::Some(j), Option::None) == chosen_body(Option::None, Option::Some(f)),
{
}

/// Maps a fault's description to the internal-error response: status 500
/// with the fault's text.
pub fn internal_error(msg: String) -> (r: (u16, String))
    ensures
        r.0 == 500,
        r.1@ == msg@,
{
    (500, msg)
}

/// Picks the creation payload out of the two possible body decodings, JSON
/// first; with neither, rejects the request with status 400.
pub fn choose_body(json: Option<NewFriend>, form: Option<NewFriend>) -> (r: Result<
    NewFriend,
    (u16, String),
>)
    ensures
        match chosen_body(json, form) {
            Option::Some(b) => r matches Ok(n) && n@ == b,
            Option::None => r matches Err(e) && e.0 == 400 && e.1@ == "expected a JSON or form body"@,
        },
{
    match json {
        Option::Some(n) => Ok(n),
        Option::None => match form {
            Option::Some(n) => Ok(n),
            Option::None => Err((400, String::from_str("expected a JSON or form body"))),
        },
    }
}

/// `GET /friends/{id}`: the record with the given id as the response body,
/// or status 404 when no record carries it. A missing record is never
/// reported as an internal fault.
pub fn view_friend(store: &Store, id: i32) -> (r: Result<Friend, (u16, String)>)
    requires
        store.wf(),
    ensures
        match r {
            Ok(f) => spec_find(store@, id as int) == Some(f@),
            Err(e) => {
                &&& spec_find(store@, id as int) is None
                &&& e.0 == 404
                &&& e.1@ == "friend not found"@
            },
        },
{
    match store.get_by_id(id) {
        Ok(f) => Ok(f),
        Err(_) => Err((404, String::from_str("friend not found"))),
    }
}

/// `GET /friends/all`: every record, in store order. An empty store yields
/// an empty list, not an error.
pub fn view_all_friends(store: &Store) -> (r: Result<Vec<Friend>, (u16, String)>)
    ensures
        r matches Ok(v) && v@.len() == store@.len() && (forall|i: int|
            0 <= i < v@.len() ==> v@[i]@ == store@[i]),
{
    Ok(store.list_all())
}

/// Inserts one record and maps a store fault to the internal-error
/// response. On success the returned record carries the store-assigned id
/// and the payload's fields unchanged.
pub fn add_friend_to_db(store: &mut Store, new: NewFriend) -> (r: Result<Friend, (u16, String)>)
    requires
        old(store).wf(),
    ensures
        final(store).wf(),
        match r {
            Ok(f) => {
                &&& old(store).next_id_spec() < i32::MAX as int
                &&& 1 <= f@.id
                &&& f@ == (FriendView {
                    id: old(store).next_id_spec(),
                    name: new@.name,
                    email: new@.email,
                })
                &&& final(store)@ =~= old(store)@.push(f@)
                &&& final(store).next_id_spec() == old(store).next_id_spec() + 1
            },
            Err(e) => {
                &&& e.0 == 500
                &&& e.1@ == "the store could not assign a new id"@
                &&& old(store).next_id_spec() == i32::MAX as int
                &&& final(store)@ == old(store)@
                &&& final(store).next_id_spec() == old(store).next_id_spec()
            },
        },
{
    match store.insert(new) {
        Ok(f) => Ok(f),
        Err(_) => Err(internal_error(String::from_str("the store could not assign a new id"))),
    }
}

/// `POST /friends/new`: decodes the payload (JSON first, else the form,
/// else status 400 and an untouched store), inserts it, and redirects to the
/// created record's location `/friends/{id}`; a store fault becomes status
/// 500 with the store untouched.
pub fn create_friend(store: &mut Store, json: Option<NewFriend>, form: Option<NewFriend>) -> (r:
    Result<String, (u16, String)>)
    requires
        old(store).wf(),
    ensures
        final(store).wf(),
        match chosen_body(json, form) {
            Option::Some(b) => match r {
                Ok(loc) => {
                    &&& old(store).next_id_spec() < i32::MAX as int
                    &&& final(store)@ =~= old(store)@.push(FriendView {
                        id: old(store).next_id_spec(),
                        name: b.name,
                        email: b.email,
                    })
                    &&& final(store).next_id_spec() == old(store).next_id_spec() + 1
                    &&& loc@ == friend_path_spec(old(store).next_id_spec() as nat)
                },
                Err(e) => {
                    &&& e.0 == 500
                    &&& e.1@ == "the store could not assign a new id"@
                    &&& old(store).next_id_spec() == i32::MAX as int
                    &&& final(store)@ == old(store)@
                },
            },
            Option::None => {
                &&& r matches Err(e) && e.0 == 400 && e.1@ == "expected a JSON or form body"@
                &&& final(store)@ == old(store)@
                &&& final(store).next_id_spec() == old(store).next_id_spec()
            },
        },
{
    let new = match choose_body(json, form) {
        Ok(n) => n,
        Err(e) => {
            return Err(e);
        },
    };
    match add_friend_to_db(store, new) {
        Ok(f) => {
            let id = f.id();
            Ok(friend_path(id))
        },
        Err(e) => Err(e),
    }
}

} // verus!
