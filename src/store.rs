use vstd::prelude::*;
use std::sync::Arc;
use parking_lot::RwLock;
use crate::handler::{
    Id, Item, Reply, Request, applied, check_body, replied, spec_check_body,
};
use crate::records::Records;

verus! {

#[verifier::external_type_specification]
#[verifier::external_body]
#[verifier::reject_recursive_types(R)]
#[verifier::reject_recursive_types(T)]
pub struct ExRwLock<R, T: ?Sized>(parking_lot::lock_api::RwLock<R, T>);

#[verifier::external_type_specification]
#[verifier::external_body]
pub struct ExRawRwLock(parking_lot::RawRwLock);

/// Relies on parking_lot's `RwLock::new`: a lock that guards `records`.
#[verifier::external_body]
fn new_lock(records: Records) -> RwLock<Records> {
    RwLock::new(records)
}

/// Relies on parking_lot's `RwLock::write`: `f` runs once on the guarded
/// mapping and `req`, while no other reader or writer holds the lock. `f`
/// captures nothing (`Copy + 'static`), so it cannot reach a lock itself.
#[verifier::external_body]
fn write_locked<T, F: FnOnce(&mut Records, Request) -> T + Copy + 'static>(
    lock: &RwLock<Records>,
    f: F,
    req: Request,
) -> (r: T)
    requires
        forall|m: &mut Records, q: Request| #[trigger] f.requires((m, q)),
    ensures
        exists|m: &mut Records| #[trigger] f.ensures((m, req), r),
{
    let mut guard = lock.write();
    f(&mut *guard, req)
}

/// Relies on parking_lot's `RwLock::read`: `f` runs once on the guarded
/// mapping while no writer holds the lock. `f` captures nothing
/// (`Copy + 'static`), so it cannot reach a lock itself.
#[verifier::external_body]
fn read_locked<T, F: FnOnce(&Records) -> T + Copy + 'static>(lock: &RwLock<Records>, f: F) -> (r: T)
    requires
        forall|m: &Records| #[trigger] f.requires((m,)),
    ensures
        exists|m: &Records| #[trigger] f.ensures((m,), r),
{
    let guard = lock.read();
    f(&*guard)
}

/// A handle on one shared mapping. Clones of the handle reach the same
/// mapping; writers exclude each other and readers, readers share.
#[derive(Clone)]
pub struct Store {
    student_list: Arc<RwLock<Records>>,
}

impl Store {
    /// A store that holds no record.
    pub fn new() -> (r: Store) {
        Store { student_list: Arc::new(new_lock(Records::new())) }
    }

    /// Inserts the record, or replaces the branch of the record of that name,
    /// as one step that no reader sees half done.
    pub fn put(&self, name: String, branch: String) {
        self.handle(Request::Upsert(Item { name, branch }));
    }

    /// Removes the record of that name, if there is one; an absent name is no error.
    pub fn delete(&self, name: &String) {
        self.handle(Request::Remove(Id { name: name.clone() }));
    }

    /// An independent copy of the mapping as it stood at one instant while
    /// the call ran; later writes do not change it.
    pub fn snapshot(&self) -> (r: Records) {
        let f = |m: &Records| -> (r: Records)
            ensures
                r@ == m@,
            { m.snapshot() };
        read_locked(&self.student_list, f)
    }

    /// Carries out one request as one step on the shared mapping.
    pub fn handle(&self, req: Request) -> (r: Reply)
        ensures
            replied(req, r),
    {
        match req {
            Request::List => {
                let f = |m: &Records| -> (r: Reply)
                    ensures
                        applied(m@, Request::List, m@, r),
                    { Reply::Listing(m.snapshot()) };
                read_locked(&self.student_list, f)
            },
            _ => {
                let f = |m: &mut Records, q: Request| -> (r: Reply)
                    ensures
                        applied(old(m)@, q, final(m)@, r),
                    { m.apply(q) };
                write_locked(&self.student_list, f, req)
            },
        }
    }

    /// Carries out a mutating request that declares a body of `content_length`
    /// bytes and whose body decoded to `decoded`; a refused request never
    /// reaches the mapping.
    pub fn serve(&self, content_length: Option<u64>, decoded: Option<Request>) -> (r: Reply)
        ensures
            match spec_check_body(content_length, decoded) {
                Ok(req) => replied(req, r),
                Err(why) => r == Reply::Rejected(why),
            },
    {
        match check_body(content_length, decoded) {
            Ok(req) => self.handle(req),
            Err(why) => Reply::Rejected(why),
        }
    }
}

/// Create-or-replace: stores the item's branch under its name.
pub fn update_student_list(item: Item, store: Store) -> (r: Reply)
    ensures
        replied(Request::Upsert(item), r),
{
    store.handle(Request::Upsert(item))
}

/// Delete: removes the record of that name, if there is one.
pub fn delete_student_list_item(id: Id, store: Store) -> (r: Reply)
    ensures
        replied(Request::Remove(id), r),
{
    store.handle(Request::Remove(id))
}

/// List: every record of the store, as one consistent copy.
pub fn get_student_list(store: Store) -> (r: Reply)
    ensures
        r is Listing,
{
    store.handle(Request::List)
}

} // verus!
