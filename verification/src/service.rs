//! The store as a service: one request in, one reply out.
//!
//! A transport hands each request it has decoded to `UserStore::handle` and
//! renders the reply. Which status and which body answer which request is
//! decided here, so that it is decided once.

use vstd::prelude::*;
use crate::model::{
    after_create, after_delete, after_update, created, is_listing, lookup, next_id, Records,
    UserView,
};
use crate::store::UserStore;
use crate::text::{deleted_text, not_found_text};
use crate::user::{views, StoreError, User};

verus! {

/// The status of a reply that carries what was asked for.
pub const STATUS_OK: u16 = 200;

/// The status of the reply to a create.
pub const STATUS_CREATED: u16 = 201;

/// The status of a reply to a request for an identifier that is not in use.
pub const STATUS_NOT_FOUND: u16 = 404;

/// What a caller may ask of the store.
#[derive(Debug)]
pub enum Request {
    /// The record under `id`.
    Get { id: u32 },
    /// Every record.
    List,
    /// A new record with `name`.
    Create { name: String },
    /// The record under `id` is to have the name `name`.
    Update { id: u32, name: String },
    /// The record under `id` is to go.
    Delete { id: u32 },
}

/// What a reply carries.
#[derive(Debug)]
pub enum Body {
    /// One record.
    Record(User),
    /// Every record, in no particular order.
    Records(Vec<User>),
    /// A confirmation, as text.
    Message(String),
    /// Why the request failed, as text.
    Failure(String),
}

/// The answer to one request.
#[derive(Debug)]
pub struct Reply {
    pub status: u16,
    pub body: Body,
}

/// `reply` says that the identifier asked for is not in use.
pub open spec fn is_not_found(reply: Reply) -> bool {
    &&& reply.status == STATUS_NOT_FOUND
    &&& reply.body matches Body::Failure(text)
    &&& text@ == not_found_text()
}

/// `reply` has the status `status` and carries the record `user`.
pub open spec fn carries_record(reply: Reply, status: u16, user: UserView) -> bool {
    &&& reply.status == status
    &&& reply.body matches Body::Record(r)
    &&& r@ == user
}

/// `reply` is a right answer to `req` from a store that holds `recs`.
pub open spec fn answers(recs: Records, req: Request, reply: Reply) -> bool {
    match req {
        Request::Get { id } => match lookup(recs, id) {
            Some(user) => carries_record(reply, STATUS_OK, user),
            None => is_not_found(reply),
        },
        Request::List => {
            &&& reply.status == STATUS_OK
            &&& reply.body matches Body::Records(all)
            &&& is_listing(recs, views(all@))
        },
        Request::Create { name } => carries_record(reply, STATUS_CREATED, created(recs, name@)),
        Request::Update { id, name } => if recs.contains_key(id) {
            carries_record(reply, STATUS_OK, UserView { id, name: name@ })
        } else {
            is_not_found(reply)
        },
        Request::Delete { id } => if recs.contains_key(id) {
            &&& reply.status == STATUS_OK
            &&& reply.body matches Body::Message(text)
            &&& text@ == deleted_text(id)
        } else {
            is_not_found(reply)
        },
    }
}

/// What a store that held `recs` holds after `req`.
pub open spec fn store_after(recs: Records, req: Request) -> Records {
    match req {
        Request::Get { id } => recs,
        Request::List => recs,
        Request::Create { name } => after_create(recs, name@),
        Request::Update { id, name } => after_update(recs, id, name@),
        Request::Delete { id } => after_delete(recs, id),
    }
}

/// The reply to a request that failed with `e`.
fn refusal(e: StoreError) -> (reply: Reply)
    ensures
        is_not_found(reply),
{
    match e {
        StoreError::NotFound => Reply { status: STATUS_NOT_FOUND, body: Body::Failure(e.message()) },
    }
}

impl UserStore {
    /// Runs `req` on the store and answers it: 200 with the record for a get
    /// or an update, 200 with all records for a list, 201 with the new record
    /// for a create, 200 with a confirmation for a delete, and 404 where the
    /// identifier asked for is not in use.
    pub fn handle(&mut self, req: Request) -> (reply: Reply)
        requires
            req is Create ==> next_id(old(self)@) <= u32::MAX,
        ensures
            answers(old(self)@, req, reply),
            final(self)@ == store_after(old(self)@, req),
    {
        match req {
            Request::Get { id } => match self.get(id) {
                Ok(user) => Reply { status: STATUS_OK, body: Body::Record(user) },
                Err(e) => refusal(e),
            },
            Request::List => Reply { status: STATUS_OK, body: Body::Records(self.list()) },
            Request::Create { name } => Reply {
                status: STATUS_CREATED,
                body: Body::Record(self.create(name)),
            },
            Request::Update { id, name } => match self.update(id, name) {
                Ok(user) => Reply { status: STATUS_OK, body: Body::Record(user) },
                Err(e) => refusal(e),
            },
            Request::Delete { id } => match self.delete(id) {
                Ok(gone) => Reply { status: STATUS_OK, body: Body::Message(gone.message()) },
                Err(e) => refusal(e),
            },
        }
    }
}

} // verus!
