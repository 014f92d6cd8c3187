//! What the resource server tells about a user, and what it lets a user change.

use vstd::prelude::*;

use crate::oauth::database::resource::user::AuthUser;
use crate::oauth::database::{Database, StoreError, UserRecordView};
use crate::oauth::error::Error;
use crate::oauth::models::{ClientId, UserId, ID_LENGTH};
use crate::oauth::primitives::registrar::byte_len;

verus! {

/// A client that a user has granted something to.
#[derive(Debug, PartialEq, Eq)]
pub struct ClientInfo {
    pub id: ClientId,
    pub name: String,
}

/// What is told about a user.
#[derive(Debug, PartialEq, Eq)]
pub struct UserInfo {
    pub id: UserId,
    pub login: String,
    pub name: String,
    pub authorized_clients: Vec<ClientInfo>,
}

/// The change a user asks for.
#[derive(Clone, Debug)]
pub struct ChangeResource {
    pub given_name: String,
}

/// Whether a change was made.
#[derive(Clone, Copy, Debug, Default, PartialEq, Eq)]
pub struct MsgReply {
    pub success: bool,
}

/// The owner of a grant, read from the way a grant names its owner: an identifier,
/// a separator and the user name.
pub open spec fn owner_of(owner_id: Seq<char>) -> Option<Seq<char>> {
    if owner_id.len() > ID_LENGTH {
        Some(owner_id.subrange(0, ID_LENGTH as int))
    } else {
        None
    }
}

/// Tells about the user who owns a grant: identifier, user name, given name, and
/// the clients the user has granted something to, each with its name.
pub fn user(db: &Database, owner_id: &str) -> (told: Result<UserInfo, Error>)
    requires
        db.wf(),
    ensures
        told is Ok <==> owner_of(owner_id@) is Some && db.users().contains_key(
            owner_of(owner_id@)->0,
        ) && forall|i: int|
            0 <= i < db.users()[owner_of(owner_id@)->0].clients.len() ==> db.clients().contains_key(
                #[trigger] db.users()[owner_of(owner_id@)->0].clients[i],
            ),
        told matches Ok(info) ==> {
            let record = db.users()[owner_of(owner_id@)->0];
            &&& info.id@ == record.id
            &&& info.login@ == record.username
            &&& info.name@ == record.given_name
            &&& info.authorized_clients@.len() == record.clients.len()
            &&& forall|i: int|
                0 <= i < record.clients.len() ==> (#[trigger] info.authorized_clients@[i]).id@
                    == record.clients[i] && info.authorized_clients@[i].name@
                    == db.clients()[record.clients[i]].name
        },
        told matches Err(error) ==> error == (if owner_of(owner_id@) is None {
            Error::InvalidKey {
                source: crate::oauth::models::InvalidLengthError {
                    expected: if owner_id@.len() < ID_LENGTH {
                        ID_LENGTH
                    } else {
                        (ID_LENGTH + 1) as usize
                    },
                    actual: byte_len(owner_id@) as usize,
                },
            }
        } else {
            Error::Database { source: StoreError::DoesNotExist }
        }),
{
    let owner = match AuthUser::from_str(owner_id) {
        Ok(owner) => owner,
        Err(source) => {
            return Err(Error::InvalidKey { source });
        },
    };
    let record = match db.get_user_by_id(&owner) {
        Ok(record) => record,
        Err(source) => {
            return Err(Error::Database { source });
        },
    };
    let authorized = record.get_authorized_clients();
    let mut clients: Vec<ClientInfo> = Vec::new();
    let mut i: usize = 0;
    while i < authorized.len()
        invariant
            db.wf(),
            owner_of(owner_id@) == Some(owner.user_id@),
            db.users().contains_key(owner.user_id@),
            record@ == db.users()[owner.user_id@],
            i <= authorized.len(),
            clients.len() == i,
            authorized@.len() == record@.clients.len(),
            forall|k: int|
                0 <= k < authorized@.len() ==> (#[trigger] authorized@[k]).client_id@
                    == record@.clients[k],
            forall|k: int| 0 <= k < i ==> db.clients().contains_key(#[trigger] record@.clients[k]),
            forall|k: int|
                0 <= k < i ==> (#[trigger] clients@[k]).id@ == record@.clients[k] && clients@[k].name@
                    == db.clients()[record@.clients[k]].name,
        decreases authorized.len() - i,
    {
        let name = match db.get_client_name(&authorized[i].client_id) {
            Ok(name) => name,
            Err(source) => {
                assert(!db.clients().contains_key(record@.clients[i as int]));
                return Err(Error::Database { source });
            },
        };
        clients.push(ClientInfo { id: authorized[i].client_id.clone(), name: name.inner });
        i += 1;
    }
    let login = match record.username() {
        Some(login) => login,
        None => String::new(),
    };
    let name = match record.given_name() {
        Some(name) => name,
        None => String::new(),
    };
    proof {
        db.lemma_users();
        assert(record@.given_name.len() == 0 ==> record@.given_name =~= Seq::<char>::empty());
        assert(record@.username.len() == 0 ==> record@.username =~= Seq::<char>::empty());
    }
    Ok(UserInfo { id: owner.user_id, login, name, authorized_clients: clients })
}

/// Changes the given name of the user who owns a grant.
pub fn update_account_name(db: &mut Database, owner_id: &str, form: &ChangeResource) -> (changed:
    Result<MsgReply, Error>)
    requires
        old(db).wf(),
    ensures
        final(db).wf(),
        final(db).clients() == old(db).clients(),
        final(db).names() == old(db).names(),
        final(db).policy() == old(db).policy(),
        changed is Ok <==> owner_of(owner_id@) is Some && old(db).users().contains_key(
            owner_of(owner_id@)->0,
        ),
        changed matches Ok(reply) ==> reply.success && final(db).users() == old(db).users().insert(
            owner_of(owner_id@)->0,
            UserRecordView {
                given_name: form.given_name@,
                ..old(db).users()[owner_of(owner_id@)->0]
            },
        ),
        changed is Err ==> final(db).users() == old(db).users(),
{
    let owner = match AuthUser::from_str(owner_id) {
        Ok(owner) => owner,
        Err(source) => {
            return Err(Error::InvalidKey { source });
        },
    };
    match db.update_given_name_by_id(&owner, form.given_name.as_str()) {
        Ok(success) => Ok(MsgReply { success }),
        Err(source) => Err(Error::Database { source }),
    }
}

} // verus!
