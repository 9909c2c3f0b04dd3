//! The handle on the database that users, categories and expenses are stored in.
use vstd::prelude::*;

verus! {

#[verifier::external_type_specification]
#[verifier::external_body]
pub struct ExClient(tokio_postgres::Client);

/// Holds the database client through which the bot's records are written.
pub struct Storage {
    client: tokio_postgres::Client,
}

impl Storage {
    pub closed spec fn spec_client(&self) -> tokio_postgres::Client {
        self.client
    }

    pub fn new(client: tokio_postgres::Client) -> (r: Storage)
        ensures
            r.spec_client() == client,
    {
        Storage { client }
    }

    /// The client that statements are run through.
    pub fn client(&self) -> (r: &tokio_postgres::Client)
        ensures
            *r == self.spec_client(),
    {
        &self.client
    }
}

/// The key a user is stored under: the user id as a signed 64-bit integer, when it fits.
pub fn user_key(user_id: u64) -> (r: Option<i64>)
    ensures
        r == (if user_id <= i64::MAX {
            Some(user_id as i64)
        } else {
            None
        }),
{
    if user_id <= 9223372036854775807 {
        Some(user_id as i64)
    } else {
        None
    }
}

/// Whether an insert-or-ignore statement that modified `modified_rows` rows inserted its record.
pub fn inserted(modified_rows: u64) -> (r: bool)
    ensures
        r == (modified_rows > 0),
{
    modified_rows > 0
}

} // verus!
