//! The catalogue of categories a player can pick from.

use vstd::prelude::*;

verus! {

/// Where a category draws its songs from.
#[derive(Debug, Clone, Copy, PartialEq, Eq, Structural)]
pub enum CategorySource {
    /// Deezer genre chart (`/chart/{id}/tracks`); id 0 == overall top.
    Chart(i64),
    /// Deezer playlist (`/playlist/{id}/tracks`).
    Playlist(i64),
}

/// A named song pool.
#[derive(Debug)]
pub struct Category {
    pub name: String,
    pub source: CategorySource,
}

impl Clone for Category {
    fn clone(&self) -> (r: Self)
        ensures
            r == *self,
    {
        Category { name: self.name.clone(), source: self.source }
    }
}

impl Category {
    /// A genre-chart category.
    pub fn chart(name: &str, id: i64) -> (r: Category)
        ensures
            r.name@ == name@,
            r.source == CategorySource::Chart(id),
    {
        Category { name: String::from_str(name), source: CategorySource::Chart(id) }
    }

    /// A playlist category.
    pub fn playlist(name: &str, id: i64) -> (r: Category)
        ensures
            r.name@ == name@,
            r.source == CategorySource::Playlist(id),
    {
        Category { name: String::from_str(name), source: CategorySource::Playlist(id) }
    }
}

} // verus!
