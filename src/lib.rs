//! An in-memory store of student records, each a name and a branch, shared
//! between concurrent request handlers.
//!
//! `records` holds the mapping itself, `handler` the requests and replies
//! and what each request does to the mapping, `store` the handle that
//! concurrent handlers share, and `laws` the properties proved of them.

pub mod handler;
pub mod laws;
pub mod records;
pub mod store;

pub use handler::{
    check_body, Id, Item, Rejection, Reply, Request, Status, ADDED_TEXT, MAX_BODY_BYTES,
    REMOVED_TEXT,
};
pub use records::{Entry, Records};
pub use store::{delete_student_list_item, get_student_list, update_student_list, Store};
