//! Connections of the local Holium area, the merge of a stored one with an update, and the cells
//! of the table they are listed in.
use vstd::prelude::*;

verus! {

/// A connection of the local area.
pub struct Connection {
    pub id: String,
}

/// An update of a connection.
pub struct OptionalConnection {
    pub id: Option<String>,
}

/// Merge a stored connection with an update: its identifier is replaced if the update sets it.
pub fn merge(old: &Connection, merged: &OptionalConnection) -> (r: Connection)
    ensures r.id@ == (if merged.id is Some { merged.id->0@ } else { old.id@ }),
{
    Connection { id: match &merged.id { Some(i) => i.clone(), None => old.id.clone() } }
}

impl Connection {
    /// The titles of the columns of a table of connections.
    pub fn title_row() -> (r: Vec<String>)
        ensures r@.len() == 1, r@[0]@ == "ID"@,
    {
        let mut r: Vec<String> = Vec::new();
        r.push(String::from_str("ID"));
        r
    }

    /// The cells of the row of the connection in a table: its identifier.
    pub fn object_to_row(&self) -> (r: Vec<String>)
        ensures r@.len() == 1, r@[0]@ == self.id@,
    {
        let mut r: Vec<String> = Vec::new();
        r.push(self.id.clone());
        r
    }
}

} // verus!
