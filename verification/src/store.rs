//! The saved connections and where they live on disk. Reading and writing
//! the file is the application's part; the library keeps the values.

use vstd::prelude::*;

use crate::list::conns_view;
use crate::model::{Connection, ConnectionView};

verus! {

pub struct Store {
    /// The file the connections are saved to.
    pub path: String,
    pub connections: Vec<Connection>,
}

pub struct StoreView {
    pub path: Seq<char>,
    pub connections: Seq<ConnectionView>,
}

impl View for Store {
    type V = StoreView;

    open spec fn view(&self) -> StoreView {
        StoreView { path: self.path@, connections: conns_view(self.connections@) }
    }
}

impl Store {
    /// A store with no connections yet, to be saved at `path`.
    pub fn new_empty(path: String) -> (r: Store)
        ensures
            r@.path == path@,
            r@.connections.len() == 0,
    {
        let r = Store { path, connections: Vec::new() };
        assert(r@.connections =~= Seq::<ConnectionView>::empty());
        r
    }

    /// The store as read from `path`.
    pub fn loaded(path: String, connections: Vec<Connection>) -> (r: Store)
        ensures
            r@.path == path@,
            r@.connections == conns_view(connections@),
    {
        Store { path, connections }
    }
}

} // verus!
