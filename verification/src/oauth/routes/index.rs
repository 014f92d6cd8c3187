//! The start page of a signed-in user.

use vstd::prelude::*;

use super::Session;
use crate::oauth::database::{Database, StoreError};
use crate::oauth::error::Error;

verus! {

/// The names of `names`, as texts.
pub open spec fn name_texts(names: Seq<String>) -> Seq<Seq<char>> {
    Seq::new(names.len(), |i: int| names[i]@)
}

/// The names of the clients that the user of the session has granted something to,
/// in the order of the first grant.
pub fn index(session: &Session, db: &Database) -> (names: Result<Vec<String>, Error>)
    requires
        db.wf(),
    ensures
        names is Ok <==> db.users().contains_key(session.user.user_id@) && forall|i: int|
            0 <= i < db.users()[session.user.user_id@].clients.len() ==> db.clients().contains_key(
                #[trigger] db.users()[session.user.user_id@].clients[i],
            ),
        names matches Ok(list) ==> {
            let clients = db.users()[session.user.user_id@].clients;
            &&& list@.len() == clients.len()
            &&& forall|i: int|
                0 <= i < clients.len() ==> (#[trigger] list@[i])@ == db.clients()[clients[i]].name
        },
        names matches Err(error) ==> error == (Error::Database {
            source: StoreError::DoesNotExist,
        }),
{
    let record = match db.get_user_by_id(&session.user) {
        Ok(record) => record,
        Err(source) => {
            return Err(Error::Database { source });
        },
    };
    let authorized = record.get_authorized_clients();
    let mut names: Vec<String> = Vec::new();
    let mut i: usize = 0;
    while i < authorized.len()
        invariant
            db.wf(),
            db.users().contains_key(session.user.user_id@),
            record@ == db.users()[session.user.user_id@],
            i <= authorized.len(),
            names.len() == i,
            authorized@.len() == record@.clients.len(),
            forall|k: int|
                0 <= k < authorized@.len() ==> (#[trigger] authorized@[k]).client_id@
                    == record@.clients[k],
            forall|k: int| 0 <= k < i ==> db.clients().contains_key(#[trigger] record@.clients[k]),
            forall|k: int|
                0 <= k < i ==> (#[trigger] names@[k])@ == db.clients()[record@.clients[k]].name,
        decreases authorized.len() - i,
    {
        let name = match db.get_client_name(&authorized[i].client_id) {
            Ok(name) => name,
            Err(source) => {
                assert(!db.clients().contains_key(record@.clients[i as int]));
                return Err(Error::Database { source });
            },
        };
        names.push(name.inner);
        i += 1;
    }
    Ok(names)
}

} // verus!
