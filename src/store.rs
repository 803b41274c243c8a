use vstd::prelude::*;

use crate::movie::Movie;

verus! {

/// What a lookup of `id` finds among the records `contents`, keyed by id.
pub open spec fn lookup(contents: Map<Seq<char>, Movie>, id: Seq<char>) -> Option<Movie> {
    if contents.contains_key(id) {
        Some(contents[id])
    } else {
        None
    }
}

/// The record that an update addressed by `id` stores: every field of
/// `payload` but its `id`, which is the addressing one.
pub open spec fn replaced_with_id(id: String, payload: Movie) -> Movie {
    Movie { id: id, name: payload.name, year: payload.year, was_good: payload.was_good }
}

/// `listed` holds each record of `contents` exactly once, and nothing else.
pub open spec fn is_listing(listed: Seq<Movie>, contents: Map<Seq<char>, Movie>) -> bool {
    &&& forall|i: int|
        #![trigger listed[i]]
        0 <= i < listed.len() ==> contents.contains_key(listed[i].id@) && contents[listed[i].id@]
            == listed[i]
    &&& forall|k: Seq<char>|
        #[trigger] contents.contains_key(k) ==> exists|i: int|
            0 <= i < listed.len() && (#[trigger] listed[i]).id@ == k
    &&& forall|i: int, j: int|
        #![trigger listed[i], listed[j]]
        0 <= i < j < listed.len() ==> listed[i].id@ != listed[j].id@
}

/// Creating a record a second time leaves the contents exactly as creating it
/// once did.
pub proof fn lemma_create_twice_same_as_once(contents: Map<Seq<char>, Movie>, movie: Movie)
    ensures
        contents.insert(movie.id@, movie).insert(movie.id@, movie) == contents.insert(
            movie.id@,
            movie,
        ),
{
    assert(contents.insert(movie.id@, movie).insert(movie.id@, movie) =~= contents.insert(
        movie.id@,
        movie,
    ));
}

/// An update addressed by `id` stores, and returns, a record whose id is `id`,
/// whatever id its payload carried.
pub proof fn lemma_update_keeps_addressing_id(
    contents: Map<Seq<char>, Movie>,
    id: String,
    payload: Movie,
)
    requires
        contents.contains_key(id@),
    ensures
        replaced_with_id(id, payload).id == id,
        lookup(contents.insert(id@, replaced_with_id(id, payload)), id@) == Some(
            replaced_with_id(id, payload),
        ),
        contents.insert(id@, replaced_with_id(id, payload))[id@].id == id,
{
}

/// After a record is created, a lookup of its id finds that same record.
pub proof fn lemma_create_then_get(contents: Map<Seq<char>, Movie>, movie: Movie)
    ensures
        lookup(contents.insert(movie.id@, movie), movie.id@) == Some(movie),
{
}

/// After the record under `id` is deleted, a lookup of `id` finds nothing.
pub proof fn lemma_delete_then_get(contents: Map<Seq<char>, Movie>, id: String)
    ensures
        lookup(contents.remove(id@), id@) == None::<Movie>,
{
}

/// The collection of records, keyed by their `id`.
///
/// Its view maps each id to the one record stored under it; a record's own
/// `id` always equals its key.
pub struct MovieStore {
    movies: Vec<Movie>,
    contents: Ghost<Map<Seq<char>, Movie>>,
}

impl View for MovieStore {
    type V = Map<Seq<char>, Movie>;

    closed spec fn view(&self) -> Map<Seq<char>, Movie> {
        self.contents@
    }
}

impl MovieStore {
    /// The stored vector lists the contents once each.
    pub closed spec fn wf(&self) -> bool {
        is_listing(self.movies@, self.contents@)
    }

    /// An empty store.
    pub fn new() -> (r: MovieStore)
        ensures
            r.wf(),
            r@ == Map::<Seq<char>, Movie>::empty(),
    {
        MovieStore { movies: Vec::new(), contents: Ghost(Map::empty()) }
    }

    /// The position of the record stored under `id`, if there is one.
    fn find(&self, id: &String) -> (r: Option<usize>)
        requires
            self.wf(),
        ensures
            match r {
                Some(i) => i < self.movies@.len() && self.movies@[i as int].id@ == id@,
                None => !self@.contains_key(id@),
            },
    {
        let mut i: usize = 0;
        while i < self.movies.len()
            invariant
                self.wf(),
                i <= self.movies@.len(),
                forall|j: int| 0 <= j < i ==> (#[trigger] self.movies@[j]).id@ != id@,
            decreases self.movies@.len() - i,
        {
            if self.movies[i].id == *id {
                return Some(i);
            }
            i += 1;
        }
        None
    }

    /// Stores `movie` at position `i`, which holds the record with the same id.
    fn replace_at(&mut self, i: usize, movie: Movie)
        requires
            old(self).wf(),
            i < old(self).movies@.len(),
            old(self).movies@[i as int].id@ == movie.id@,
        ensures
            final(self).wf(),
            final(self)@ == old(self)@.insert(movie.id@, movie),
    {
        let ghost key = movie.id@;
        let ghost before = self.movies@;
        let ghost m = self.contents@;
        self.movies.set(i, movie);
        self.contents = Ghost(self.contents@.insert(key, movie));
        assert forall|k: Seq<char>| #[trigger] self.contents@.contains_key(k) implies exists|j: int|
            0 <= j < self.movies@.len() && (#[trigger] self.movies@[j]).id@ == k by {
            if k == key {
                assert(self.movies@[i as int].id@ == k);
            } else {
                assert(m.contains_key(k));
                let j = choose|j: int| 0 <= j < before.len() && (#[trigger] before[j]).id@ == k;
                assert(self.movies@[j].id@ == k);
            }
        }
    }

    /// Every stored record, once each, in no particular order.
    pub fn list(&self) -> (r: Vec<Movie>)
        requires
            self.wf(),
        ensures
            is_listing(r@, self@),
    {
        let mut out: Vec<Movie> = Vec::new();
        let mut i: usize = 0;
        while i < self.movies.len()
            invariant
                self.wf(),
                i <= self.movies@.len(),
                out@ == self.movies@.subrange(0, i as int),
            decreases self.movies@.len() - i,
        {
            out.push(self.movies[i].clone());
            i += 1;
        }
        assert(out@ =~= self.movies@);
        out
    }

    /// A copy of the record stored under `id`, or `None` where there is none.
    pub fn get(&self, id: &String) -> (r: Option<Movie>)
        requires
            self.wf(),
        ensures
            r == lookup(self@, id@),
    {
        match self.find(id) {
            Some(i) => {
                let found = self.movies[i].clone();
                assert(self@.contains_key(self.movies@[i as int].id@));
                Some(found)
            },
            None => None,
        }
    }

    /// Stores `movie` under its own id, replacing any record held there, and
    /// returns the stored record.
    pub fn create(&mut self, movie: Movie) -> (r: Movie)
        requires
            old(self).wf(),
        ensures
            final(self).wf(),
            final(self)@ == old(self)@.insert(movie.id@, movie),
            r == movie,
    {
        let stored = movie.clone();
        match self.find(&movie.id) {
            Some(i) => {
                self.replace_at(i, stored);
            },
            None => {
                let ghost key = movie.id@;
                let ghost m = self.contents@;
                let ghost before = self.movies@;
                self.movies.push(stored);
                self.contents = Ghost(self.contents@.insert(key, movie));
                let ghost last = self.movies@.len() - 1;
                assert(self.movies@[last] == movie);
                assert forall|k: Seq<char>| #[trigger] self.contents@.contains_key(k) implies exists|
                    j: int,
                | 0 <= j < self.movies@.len() && (#[trigger] self.movies@[j]).id@ == k by {
                    if k != key {
                        assert(m.contains_key(k));
                        let j = choose|j: int| 0 <= j < before.len() && (#[trigger] before[j]).id@ == k;
                        assert(self.movies@[j].id@ == k);
                    } else {
                        assert(self.movies@[last].id@ == k);
                    }
                }
                assert forall|i: int, j: int|
                    #![trigger self.movies@[i], self.movies@[j]]
                    0 <= i < j < self.movies@.len() implies self.movies@[i].id@
                    != self.movies@[j].id@ by {
                    if j == self.movies@.len() - 1 {
                        assert(m.contains_key(self.movies@[i].id@));
                    }
                }
            },
        }
        movie
    }

    /// Where a record is stored under `id`, replaces it by `payload` with its
    /// id forced to `id`, and returns the stored record; else changes nothing
    /// and returns `None`.
    pub fn update(&mut self, id: String, payload: Movie) -> (r: Option<Movie>)
        requires
            old(self).wf(),
        ensures
            final(self).wf(),
            old(self)@.contains_key(id@) ==> r == Some(replaced_with_id(id, payload))
                && final(self)@ == old(self)@.insert(id@, replaced_with_id(id, payload)),
            !old(self)@.contains_key(id@) ==> r.is_none() && final(self)@ == old(self)@,
    {
        match self.find(&id) {
            Some(i) => {
                let movie = Movie {
                    id: id,
                    name: payload.name,
                    year: payload.year,
                    was_good: payload.was_good,
                };
                self.replace_at(i, movie.clone());
                Some(movie)
            },
            None => None,
        }
    }

    /// Removes the record stored under `id`; says whether there was one.
    pub fn delete(&mut self, id: &String) -> (r: bool)
        requires
            old(self).wf(),
        ensures
            final(self).wf(),
            r == old(self)@.contains_key(id@),
            final(self)@ == old(self)@.remove(id@),
    {
        match self.find(id) {
            Some(i) => {
                let ghost before = self.movies@;
                let ghost m = self.contents@;
                self.movies.remove(i);
                self.contents = Ghost(self.contents@.remove(id@));
                assert forall|k: Seq<char>| #[trigger] self.contents@.contains_key(k) implies exists|
                    j: int,
                | 0 <= j < self.movies@.len() && (#[trigger] self.movies@[j]).id@ == k by {
                    assert(m.contains_key(k));
                    let j = choose|j: int| 0 <= j < before.len() && (#[trigger] before[j]).id@ == k;
                    if j < i {
                        assert(self.movies@[j].id@ == k);
                    } else {
                        assert(self.movies@[j - 1].id@ == k);
                    }
                }
                assert forall|a: int, b: int|
                    #![trigger self.movies@[a], self.movies@[b]]
                    0 <= a < b < self.movies@.len() implies self.movies@[a].id@
                    != self.movies@[b].id@ by {
                    let a0 = if a < i { a } else { a + 1 };
                    let b0 = if b < i { b } else { b + 1 };
                    assert(before[a0].id@ != before[b0].id@);
                }
                true
            },
            None => {
                assert(self.contents@.remove(id@) =~= self.contents@);
                false
            },
        }
    }
}

} // verus!
