use vstd::prelude::*;
use vstd::string::StringExecFns;

use super::{ClientId, UserId};

verus! {

/// Names the authorization a user gave to a client: the pair of both identifiers,
/// compared field by field.
#[derive(Clone, Debug, PartialEq, Eq, Hash)]
pub struct ClientQuery {
    pub user_id: UserId,
    pub id: ClientId,
}

impl ClientQuery {
    /// Whether two queries name the same user and the same client.
    pub fn same(&self, other: &ClientQuery) -> (equal: bool)
        ensures
            equal == (self.user_id@ == other.user_id@ && self.id@ == other.id@),
    {
        self.user_id.same(&other.user_id) && self.id.same(&other.id)
    }

    /// The user's identifier followed by the client's.
    pub fn to_string(&self) -> (text: String)
        ensures
            text@ == self.user_id@ + self.id@,
    {
        let mut text = self.user_id.to_string();
        text.append(self.id.as_str());
        text
    }
}

} // verus!
