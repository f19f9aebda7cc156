//! The rules of the commands on saved servers.

use vstd::prelude::*;
use crate::models::Server;

verus! {

/// What saving a server has to do.
#[derive(Debug, Clone, Copy, PartialEq, Eq, Structural)]
pub enum SaveServer {
    /// The server is saved already: update the record with this
    /// identifier, which is also the result.
    Update(i64),
    /// The server is new: create a record; its identifier is the result.
    Create,
}

/// Decides how a server is saved: one that has an identifier is updated,
/// one that has none is created.
pub fn save_server(server: &Server) -> (plan: SaveServer)
    ensures
        plan == match server.id {
            Some(id) => SaveServer::Update(id),
            None => SaveServer::Create,
        },
{
    match server.id {
        Some(id) => SaveServer::Update(id),
        None => SaveServer::Create,
    }
}

} // verus!
