//! Lookup tables and collections of the central index, rebuilt from its
//! movies and TV shows.

use vstd::prelude::*;
use crate::models::index::{
    CentralIndex, CollectionInfo, CollectionMovie, Indexes, MovieEntry, TvShowEntry, copy_strings,
};
use crate::models::keymap::{KeyMap, MapKey};

verus! {

/// The lookup tables keyed by a name.
pub enum Lookup {
    Actor,
    Director,
    Genre,
    Country,
}

/// The ids held in a list of strings.
pub open spec fn ids_view(v: Vec<String>) -> Seq<Seq<char>> {
    v@.map_values(|s: String| s@)
}

/// The table that a list of (key, id) pairs builds: each key lists the
/// ids paired with it, in order.
pub open spec fn postings<K>(pairs: Seq<(K, Seq<char>)>) -> Map<K, Seq<Seq<char>>>
    decreases pairs.len(),
{
    if pairs.len() == 0 {
        Map::empty()
    } else {
        let m = postings(pairs.drop_last());
        let k = pairs.last().0;
        let before = if m.contains_key(k) {
            m[k]
        } else {
            Seq::empty()
        };
        m.insert(k, before.push(pairs.last().1))
    }
}

/// A table of id lists that stands for `p`.
pub open spec fn table_matches<K>(m: Map<K, Vec<String>>, p: Map<K, Seq<Seq<char>>>) -> bool {
    &&& m.dom() == p.dom()
    &&& forall|k: K| #[trigger] p.contains_key(k) ==> ids_view(m[k]) == p[k]
}

/// Each name paired with one id.
pub open spec fn name_pairs(names: Seq<String>, id: Seq<char>) -> Seq<(Seq<char>, Seq<char>)> {
    names.map_values(|n: String| (n@, id))
}

/// An optional key paired with an id.
pub open spec fn opt_pair(key: Option<String>, id: Seq<char>) -> Seq<(Seq<char>, Seq<char>)> {
    match key {
        Some(k) => seq![(k@, id)],
        None => seq![],
    }
}

/// An optional year paired with an id.
pub open spec fn year_pair(year: Option<u16>, id: Seq<char>) -> Seq<(u64, Seq<char>)> {
    match year {
        Some(y) => seq![(y as u64, id)],
        None => seq![],
    }
}

/// What a movie adds to a table.
pub open spec fn movie_pairs(m: MovieEntry, t: Lookup) -> Seq<(Seq<char>, Seq<char>)> {
    match t {
        Lookup::Actor => name_pairs(m.actors@, m.id@),
        Lookup::Director => name_pairs(m.directors@, m.id@),
        Lookup::Genre => name_pairs(m.genres@, m.id@),
        Lookup::Country => opt_pair(m.country, m.id@),
    }
}

/// What a TV show adds to a table (TV shows list no directors).
pub open spec fn show_pairs(s: TvShowEntry, t: Lookup) -> Seq<(Seq<char>, Seq<char>)> {
    match t {
        Lookup::Actor => name_pairs(s.actors@, s.id@),
        Lookup::Director => seq![],
        Lookup::Genre => name_pairs(s.genres@, s.id@),
        Lookup::Country => opt_pair(s.country, s.id@),
    }
}

pub open spec fn movies_pairs(ms: Seq<MovieEntry>, t: Lookup) -> Seq<(Seq<char>, Seq<char>)>
    decreases ms.len(),
{
    if ms.len() == 0 {
        seq![]
    } else {
        movies_pairs(ms.drop_last(), t) + movie_pairs(ms.last(), t)
    }
}

pub open spec fn shows_pairs(ss: Seq<TvShowEntry>, t: Lookup) -> Seq<(Seq<char>, Seq<char>)>
    decreases ss.len(),
{
    if ss.len() == 0 {
        seq![]
    } else {
        shows_pairs(ss.drop_last(), t) + show_pairs(ss.last(), t)
    }
}

pub open spec fn movies_years(ms: Seq<MovieEntry>) -> Seq<(u64, Seq<char>)>
    decreases ms.len(),
{
    if ms.len() == 0 {
        seq![]
    } else {
        movies_years(ms.drop_last()) + year_pair(ms.last().year, ms.last().id@)
    }
}

pub open spec fn shows_years(ss: Seq<TvShowEntry>) -> Seq<(u64, Seq<char>)>
    decreases ss.len(),
{
    if ss.len() == 0 {
        seq![]
    } else {
        shows_years(ss.drop_last()) + year_pair(ss.last().year, ss.last().id@)
    }
}

/// The pairs of a table: the movies' first, then the TV shows'.
pub open spec fn table_pairs(ms: Seq<MovieEntry>, ss: Seq<TvShowEntry>, t: Lookup) -> Seq<
    (Seq<char>, Seq<char>),
> {
    movies_pairs(ms, t) + shows_pairs(ss, t)
}

pub open spec fn year_pairs(ms: Seq<MovieEntry>, ss: Seq<TvShowEntry>) -> Seq<(u64, Seq<char>)> {
    movies_years(ms) + shows_years(ss)
}

/// A collection as the movies build it: name, size of the collection and
/// the owned members, in order.
pub type CollectionSpec = (Seq<char>, u32, Seq<CollectionMovie>);

/// How a movie is listed in its collection.
pub open spec fn member_of(m: MovieEntry) -> CollectionMovie {
    CollectionMovie { tmdb_id: m.tmdb_id, title: m.title, year: m.year, disk: m.disk }
}

pub open spec fn text_or_empty(s: Option<String>) -> Seq<char> {
    match s {
        Some(t) => t@,
        None => Seq::empty(),
    }
}

/// The collections of a list of movies: the first member gives the name
/// and the size of the collection.
pub open spec fn collections_of(ms: Seq<MovieEntry>) -> Map<u64, CollectionSpec>
    decreases ms.len(),
{
    if ms.len() == 0 {
        Map::empty()
    } else {
        let c = collections_of(ms.drop_last());
        let m = ms.last();
        match m.collection_id {
            None => c,
            Some(id) => if c.contains_key(id) {
                c.insert(id, (c[id].0, c[id].1, c[id].2.push(member_of(m))))
            } else {
                c.insert(
                    id,
                    (
                        text_or_empty(m.collection_name),
                        match m.collection_total_movies {
                            Some(n) => n,
                            None => 0u32,
                        },
                        seq![member_of(m)],
                    ),
                )
            },
        }
    }
}

/// Collections that stand for `c`; the owned count is the number of members.
pub open spec fn collections_match(m: Map<u64, CollectionInfo>, c: Map<u64, CollectionSpec>) -> bool {
    &&& m.dom() == c.dom()
    &&& forall|k: u64| #[trigger]
        c.contains_key(k) ==> {
            &&& m[k].id == k
            &&& m[k].name@ == c[k].0
            &&& m[k].total_in_collection == c[k].1
            &&& m[k].movies@ == c[k].2
            &&& m[k].owned_count == c[k].2.len()
        }
}

pub proof fn lemma_postings_push<K>(pairs: Seq<(K, Seq<char>)>, k: K, id: Seq<char>)
    ensures
        postings(pairs.push((k, id))) == postings(pairs).insert(
            k,
            (if postings(pairs).contains_key(k) {
                postings(pairs)[k]
            } else {
                Seq::empty()
            }).push(id),
        ),
{
    assert(pairs.push((k, id)).drop_last() =~= pairs);
}

/// A member list never holds more members than there are movies.
pub proof fn lemma_collection_sizes(ms: Seq<MovieEntry>)
    ensures
        forall|k: u64| #[trigger]
            collections_of(ms).contains_key(k) ==> collections_of(ms)[k].2.len() <= ms.len(),
    decreases ms.len(),
{
    if ms.len() > 0 {
        let p = ms.drop_last();
        lemma_collection_sizes(p);
        let c = collections_of(p);
        assert forall|k: u64| #[trigger]
            collections_of(ms).contains_key(k) implies collections_of(ms)[k].2.len()
            <= ms.len() by {
            if c.contains_key(k) {
                assert(c[k].2.len() <= p.len());
            }
        }
    }
}

/// Add `id` to the list under `key`.
fn add_posting<K: MapKey>(map: &mut KeyMap<K, Vec<String>>, key: K, id: &String)
    ensures
        final(map).view() == old(map).view().insert(key.key(), final(map).view()[key.key()]),
        ids_view(final(map).view()[key.key()]) == (if old(map).view().contains_key(key.key()) {
            ids_view(old(map).view()[key.key()])
        } else {
            Seq::empty()
        }).push(id@),
{
    let mut v: Vec<String> = match map.lookup(&key) {
        Some(cur) => copy_strings(cur),
        None => Vec::new(),
    };
    let ghost before = v@;
    v.push(id.clone());
    proof {
        assert(v@.map_values(|s: String| s@) =~= before.map_values(|s: String| s@).push(id@));
    }
    let ghost kk = key.key();
    map.insert(key, v);
    proof {
        assert(map.view()[kk] == v);
    }
}

proof fn lemma_table_push<K>(
    m: Map<K, Vec<String>>,
    m2: Map<K, Vec<String>>,
    pairs: Seq<(K, Seq<char>)>,
    k: K,
    id: Seq<char>,
)
    requires
        table_matches(m, postings(pairs)),
        m2 == m.insert(k, m2[k]),
        ids_view(m2[k]) == (if m.contains_key(k) {
            ids_view(m[k])
        } else {
            Seq::empty()
        }).push(id),
    ensures
        table_matches(m2, postings(pairs.push((k, id)))),
{
    lemma_postings_push(pairs, k, id);
    let p = postings(pairs);
    let p2 = postings(pairs.push((k, id)));
    assert(m2.dom() =~= p2.dom());
    assert forall|j: K| #[trigger] p2.contains_key(j) implies ids_view(m2[j]) == p2[j] by {
        if j != k {
            assert(m2[j] == m[j]);
        }
    }
}

/// Add each name with `id`.
fn add_names(
    map: &mut KeyMap<String, Vec<String>>,
    names: &Vec<String>,
    id: &String,
    Ghost(prev): Ghost<Seq<(Seq<char>, Seq<char>)>>,
)
    requires
        table_matches(old(map).view(), postings(prev)),
    ensures
        table_matches(final(map).view(), postings(prev + name_pairs(names@, id@))),
{
    let mut j: usize = 0;
    assert(prev + name_pairs(names@.take(0), id@) =~= prev);
    while j < names.len()
        invariant
            j <= names@.len(),
            table_matches(map.view(), postings(prev + name_pairs(names@.take(j as int), id@))),
        decreases names@.len() - j,
    {
        let ghost m = map.view();
        let ghost pre = prev + name_pairs(names@.take(j as int), id@);
        add_posting(map, names[j].clone(), id);
        proof {
            lemma_table_push(m, map.view(), pre, names@[j as int]@, id@);
            assert(prev + name_pairs(names@.take(j + 1), id@) =~= pre.push(
                (names@[j as int]@, id@),
            ));
        }
        j = j + 1;
    }
    assert(names@.take(names@.len() as int) =~= names@);
}

/// Add an optional key with `id`.
fn add_opt(
    map: &mut KeyMap<String, Vec<String>>,
    key: &Option<String>,
    id: &String,
    Ghost(prev): Ghost<Seq<(Seq<char>, Seq<char>)>>,
)
    requires
        table_matches(old(map).view(), postings(prev)),
    ensures
        table_matches(final(map).view(), postings(prev + opt_pair(*key, id@))),
{
    match key {
        Some(k) => {
            let ghost m = map.view();
            add_posting(map, k.clone(), id);
            proof {
                lemma_table_push(m, map.view(), prev, k@, id@);
                assert(prev + opt_pair(*key, id@) =~= prev.push((k@, id@)));
            }
        },
        None => {
            assert(prev + opt_pair(*key, id@) =~= prev);
        },
    }
}

/// Add an optional year with `id`.
fn add_year(
    map: &mut KeyMap<u64, Vec<String>>,
    year: Option<u16>,
    id: &String,
    Ghost(prev): Ghost<Seq<(u64, Seq<char>)>>,
)
    requires
        table_matches(old(map).view(), postings(prev)),
    ensures
        table_matches(final(map).view(), postings(prev + year_pair(year, id@))),
{
    match year {
        Some(y) => {
            let ghost m = map.view();
            let key: u64 = y as u64;
            add_posting(map, key, id);
            proof {
                lemma_table_push(m, map.view(), prev, key, id@);
                assert(prev + year_pair(year, id@) =~= prev.push((key, id@)));
            }
        },
        None => {
            assert(prev + year_pair(year, id@) =~= prev);
        },
    }
}

/// Add a movie to the collection it belongs to.
fn add_to_collection(
    colls: &mut KeyMap<u64, CollectionInfo>,
    m: &MovieEntry,
    Ghost(done): Ghost<Seq<MovieEntry>>,
)
    requires
        collections_match(old(colls).view(), collections_of(done)),
        done.len() < usize::MAX,
    ensures
        collections_match(final(colls).view(), collections_of(done.push(*m))),
{
    proof {
        assert(done.push(*m).drop_last() =~= done);
        lemma_collection_sizes(done);
    }
    let ghost c = collections_of(done);
    match m.collection_id {
        None => {},
        Some(cid) => {
            let member = CollectionMovie {
                tmdb_id: m.tmdb_id,
                title: m.title.clone(),
                year: m.year,
                disk: m.disk.clone(),
            };
            assert(member == member_of(*m));
            if colls.has_key(&cid) {
                let placeholder = CollectionInfo {
                    id: cid,
                    name: String::new(),
                    movies: Vec::new(),
                    total_in_collection: 0,
                    owned_count: 0,
                };
                let mut info = colls.replace(&cid, placeholder);
                info.movies.push(member);
                info.owned_count = info.owned_count + 1;
                let ghost m1 = colls.view();
                colls.replace(&cid, info);
                proof {
                    let c2 = collections_of(done.push(*m));
                    assert(colls.view().dom() =~= c2.dom());
                    assert forall|k: u64| #[trigger] c2.contains_key(k) implies {
                        &&& colls.view()[k].id == k
                        &&& colls.view()[k].name@ == c2[k].0
                        &&& colls.view()[k].total_in_collection == c2[k].1
                        &&& colls.view()[k].movies@ == c2[k].2
                        &&& colls.view()[k].owned_count == c2[k].2.len()
                    } by {
                        if k != cid {
                            assert(colls.view()[k] == old(colls).view()[k]);
                        }
                    }
                }
            } else {
                let name = match &m.collection_name {
                    Some(n) => n.clone(),
                    None => String::new(),
                };
                let total: u32 = match m.collection_total_movies {
                    Some(n) => n,
                    None => 0,
                };
                let mut movies: Vec<CollectionMovie> = Vec::new();
                movies.push(member);
                let info = CollectionInfo {
                    id: cid,
                    name,
                    movies,
                    total_in_collection: total,
                    owned_count: 1,
                };
                colls.insert(cid, info);
                proof {
                    let c2 = collections_of(done.push(*m));
                    assert(colls.view().dom() =~= c2.dom());
                    assert forall|k: u64| #[trigger] c2.contains_key(k) implies {
                        &&& colls.view()[k].id == k
                        &&& colls.view()[k].name@ == c2[k].0
                        &&& colls.view()[k].total_in_collection == c2[k].1
                        &&& colls.view()[k].movies@ == c2[k].2
                        &&& colls.view()[k].owned_count == c2[k].2.len()
                    } by {
                        if k != cid {
                            assert(colls.view()[k] == old(colls).view()[k]);
                        } else {
                            assert(colls.view()[k].movies@ =~= seq![member_of(*m)]);
                        }
                    }
                }
            }
        },
    }
}

impl CentralIndex {
    /// Rebuild the lookup tables and the collections from the movies and
    /// TV shows: every table lists, under each name, year or country, the
    /// ids of the works that carry it, movies first, in index order.
    pub fn rebuild_indexes(&mut self)
        ensures
            final(self).movies == old(self).movies,
            final(self).tvshows == old(self).tvshows,
            final(self).disks == old(self).disks,
            final(self).statistics == old(self).statistics,
            final(self).version == old(self).version,
            final(self).created_at == old(self).created_at,
            final(self).updated_at == old(self).updated_at,
            table_matches(
                final(self).indexes.by_actor.view(),
                postings(table_pairs(old(self).movies@, old(self).tvshows@, Lookup::Actor)),
            ),
            table_matches(
                final(self).indexes.by_director.view(),
                postings(movies_pairs(old(self).movies@, Lookup::Director)),
            ),
            table_matches(
                final(self).indexes.by_genre.view(),
                postings(table_pairs(old(self).movies@, old(self).tvshows@, Lookup::Genre)),
            ),
            table_matches(
                final(self).indexes.by_country.view(),
                postings(table_pairs(old(self).movies@, old(self).tvshows@, Lookup::Country)),
            ),
            table_matches(
                final(self).indexes.by_year.view(),
                postings(year_pairs(old(self).movies@, old(self).tvshows@)),
            ),
            collections_match(final(self).collections.view(), collections_of(old(self).movies@)),
    {
        let ghost ms = self.movies@;
        let ghost ss = self.tvshows@;
        let mut by_actor: KeyMap<String, Vec<String>> = KeyMap::new();
        let mut by_director: KeyMap<String, Vec<String>> = KeyMap::new();
        let mut by_genre: KeyMap<String, Vec<String>> = KeyMap::new();
        let mut by_country: KeyMap<String, Vec<String>> = KeyMap::new();
        let mut by_year: KeyMap<u64, Vec<String>> = KeyMap::new();
        let mut colls: KeyMap<u64, CollectionInfo> = KeyMap::new();
        proof {
            assert(ms.take(0) =~= Seq::<MovieEntry>::empty());
            assert(collections_of(ms.take(0)) =~= Map::<u64, CollectionSpec>::empty());
            assert(postings(Seq::<(Seq<char>, Seq<char>)>::empty()) =~= Map::empty());
            assert(postings(Seq::<(u64, Seq<char>)>::empty()) =~= Map::empty());
        }
        let mut i: usize = 0;
        while i < self.movies.len()
            invariant
                ms == self.movies@,
                i <= ms.len(),
                table_matches(by_actor.view(), postings(movies_pairs(ms.take(i as int), Lookup::Actor))),
                table_matches(
                    by_director.view(),
                    postings(movies_pairs(ms.take(i as int), Lookup::Director)),
                ),
                table_matches(by_genre.view(), postings(movies_pairs(ms.take(i as int), Lookup::Genre))),
                table_matches(
                    by_country.view(),
                    postings(movies_pairs(ms.take(i as int), Lookup::Country)),
                ),
                table_matches(by_year.view(), postings(movies_years(ms.take(i as int)))),
                collections_match(colls.view(), collections_of(ms.take(i as int))),
            decreases ms.len() - i,
        {
            let m = &self.movies[i];
            let ghost done = ms.take(i as int);
            proof {
                assert(ms.take(i + 1).drop_last() =~= done);
                assert(ms.take(i + 1) =~= done.push(*m));
            }
            add_names(&mut by_actor, &m.actors, &m.id, Ghost(movies_pairs(done, Lookup::Actor)));
            add_names(
                &mut by_director,
                &m.directors,
                &m.id,
                Ghost(movies_pairs(done, Lookup::Director)),
            );
            add_names(&mut by_genre, &m.genres, &m.id, Ghost(movies_pairs(done, Lookup::Genre)));
            add_opt(&mut by_country, &m.country, &m.id, Ghost(movies_pairs(done, Lookup::Country)));
            add_year(&mut by_year, m.year, &m.id, Ghost(movies_years(done)));
            add_to_collection(&mut colls, m, Ghost(done));
            i = i + 1;
        }
        proof {
            assert(ms.take(ms.len() as int) =~= ms);
            assert(ss.take(0) =~= Seq::<TvShowEntry>::empty());
            assert(movies_pairs(ms, Lookup::Actor) + shows_pairs(ss.take(0), Lookup::Actor)
                =~= movies_pairs(ms, Lookup::Actor));
            assert(movies_pairs(ms, Lookup::Genre) + shows_pairs(ss.take(0), Lookup::Genre)
                =~= movies_pairs(ms, Lookup::Genre));
            assert(movies_pairs(ms, Lookup::Country) + shows_pairs(ss.take(0), Lookup::Country)
                =~= movies_pairs(ms, Lookup::Country));
            assert(movies_years(ms) + shows_years(ss.take(0)) =~= movies_years(ms));
        }
        let mut j: usize = 0;
        while j < self.tvshows.len()
            invariant
                ms == self.movies@,
                ss == self.tvshows@,
                j <= ss.len(),
                table_matches(
                    by_actor.view(),
                    postings(table_pairs(ms, ss.take(j as int), Lookup::Actor)),
                ),
                table_matches(by_director.view(), postings(movies_pairs(ms, Lookup::Director))),
                table_matches(
                    by_genre.view(),
                    postings(table_pairs(ms, ss.take(j as int), Lookup::Genre)),
                ),
                table_matches(
                    by_country.view(),
                    postings(table_pairs(ms, ss.take(j as int), Lookup::Country)),
                ),
                table_matches(by_year.view(), postings(year_pairs(ms, ss.take(j as int)))),
                collections_match(colls.view(), collections_of(ms)),
            decreases ss.len() - j,
        {
            let t = &self.tvshows[j];
            let ghost done = ss.take(j as int);
            proof {
                assert(ss.take(j + 1).drop_last() =~= done);
                assert(table_pairs(ms, ss.take(j + 1), Lookup::Actor) =~= table_pairs(
                    ms,
                    done,
                    Lookup::Actor,
                ) + name_pairs(t.actors@, t.id@));
                assert(table_pairs(ms, ss.take(j + 1), Lookup::Genre) =~= table_pairs(
                    ms,
                    done,
                    Lookup::Genre,
                ) + name_pairs(t.genres@, t.id@));
                assert(table_pairs(ms, ss.take(j + 1), Lookup::Country) =~= table_pairs(
                    ms,
                    done,
                    Lookup::Country,
                ) + opt_pair(t.country, t.id@));
                assert(year_pairs(ms, ss.take(j + 1)) =~= year_pairs(ms, done) + year_pair(
                    t.year,
                    t.id@,
                ));
            }
            add_names(&mut by_actor, &t.actors, &t.id, Ghost(table_pairs(ms, done, Lookup::Actor)));
            add_names(&mut by_genre, &t.genres, &t.id, Ghost(table_pairs(ms, done, Lookup::Genre)));
            add_opt(
                &mut by_country,
                &t.country,
                &t.id,
                Ghost(table_pairs(ms, done, Lookup::Country)),
            );
            add_year(&mut by_year, t.year, &t.id, Ghost(year_pairs(ms, done)));
            j = j + 1;
        }
        proof {
            assert(ss.take(ss.len() as int) =~= ss);
        }
        self.indexes = Indexes { by_actor, by_director, by_genre, by_year, by_country };
        self.collections = colls;
    }
}

/// How many pairs carry each key.
pub open spec fn tally<K>(pairs: Seq<(K, Seq<char>)>) -> Map<K, nat>
    decreases pairs.len(),
{
    if pairs.len() == 0 {
        Map::empty()
    } else {
        let m = tally(pairs.drop_last());
        let k = pairs.last().0;
        m.insert(
            k,
            if m.contains_key(k) {
                m[k] + 1
            } else {
                1
            },
        )
    }
}

/// A table of counts that stands for `t`.
pub open spec fn counts_match<K>(m: Map<K, usize>, t: Map<K, nat>) -> bool {
    &&& m.dom() == t.dom()
    &&& forall|k: K| #[trigger] t.contains_key(k) ==> m[k] == t[k]
}

/// The decade of a year, written like `1990s`.
pub open spec fn decade_key(y: u64) -> Seq<char> {
    crate::utils::text::decimal(((y / 10) * 10) as nat) + seq!['s']
}

/// The decade of each dated work, movies first.
pub open spec fn decade_pairs(ms: Seq<MovieEntry>, ss: Seq<TvShowEntry>) -> Seq<
    (Seq<char>, Seq<char>),
> {
    year_pairs(ms, ss).map_values(|p: (u64, Seq<char>)| (decade_key(p.0), p.1))
}

/// Sizes added up with wrap-around, movies first.
pub open spec fn movies_size(ms: Seq<MovieEntry>, start: u64) -> u64
    decreases ms.len(),
{
    if ms.len() == 0 {
        start
    } else {
        vstd::wrapping::u64_specs::wrapping_add(movies_size(ms.drop_last(), start), ms.last().size_bytes)
    }
}

pub open spec fn shows_size(ss: Seq<TvShowEntry>, start: u64) -> u64
    decreases ss.len(),
{
    if ss.len() == 0 {
        start
    } else {
        vstd::wrapping::u64_specs::wrapping_add(shows_size(ss.drop_last(), start), ss.last().size_bytes)
    }
}

/// A collection that owns every one of its known number of movies.
pub open spec fn is_complete(c: CollectionInfo) -> bool {
    c.total_in_collection > 0 && c.owned_count >= c.total_in_collection
}

pub open spec fn complete_count(cs: Seq<(u64, CollectionInfo)>) -> nat
    decreases cs.len(),
{
    if cs.len() == 0 {
        0
    } else {
        complete_count(cs.drop_last()) + if is_complete(cs.last().1) {
            1nat
        } else {
            0nat
        }
    }
}

pub proof fn lemma_tally_bound<K>(pairs: Seq<(K, Seq<char>)>)
    ensures
        forall|k: K| #[trigger] tally(pairs).contains_key(k) ==> tally(pairs)[k] <= pairs.len(),
    decreases pairs.len(),
{
    if pairs.len() > 0 {
        let p = pairs.drop_last();
        lemma_tally_bound(p);
        assert forall|k: K| #[trigger] tally(pairs).contains_key(k) implies tally(pairs)[k]
            <= pairs.len() by {
            if tally(p).contains_key(k) {
                assert(tally(p)[k] <= p.len());
            }
        }
    }
}

proof fn lemma_complete_bound(cs: Seq<(u64, CollectionInfo)>)
    ensures
        complete_count(cs) <= cs.len(),
    decreases cs.len(),
{
    if cs.len() > 0 {
        lemma_complete_bound(cs.drop_last());
    }
}

/// Count one more pair under `key`.
fn bump<K: MapKey>(
    map: &mut KeyMap<K, usize>,
    key: K,
    Ghost(prev): Ghost<Seq<(K::Key, Seq<char>)>>,
    Ghost(id): Ghost<Seq<char>>,
)
    requires
        counts_match(old(map).view(), tally(prev)),
        prev.len() < usize::MAX,
    ensures
        counts_match(final(map).view(), tally(prev.push((key.key(), id)))),
{
    proof {
        lemma_tally_bound(prev);
        assert(prev.push((key.key(), id)).drop_last() =~= prev);
    }
    let ghost kk = key.key();
    let n: usize = match map.lookup(&key) {
        Some(c) => *c + 1,
        None => 1,
    };
    map.insert(key, n);
    proof {
        let t2 = tally(prev.push((kk, id)));
        assert(map.view().dom() =~= t2.dom());
        assert forall|k: K::Key| #[trigger] t2.contains_key(k) implies map.view()[k] == t2[k] by {
            if k != kk {
                assert(map.view()[k] == old(map).view()[k]);
            }
        }
    }
}

/// Count an optional country.
fn bump_opt(
    map: &mut KeyMap<String, usize>,
    key: &Option<String>,
    id: &String,
    Ghost(prev): Ghost<Seq<(Seq<char>, Seq<char>)>>,
)
    requires
        counts_match(old(map).view(), tally(prev)),
        prev.len() < usize::MAX,
    ensures
        counts_match(final(map).view(), tally(prev + opt_pair(*key, id@))),
{
    match key {
        Some(k) => {
            bump(map, k.clone(), Ghost(prev), Ghost(id@));
            assert(prev + opt_pair(*key, id@) =~= prev.push((k@, id@)));
        },
        None => {
            assert(prev + opt_pair(*key, id@) =~= prev);
        },
    }
}

/// The decade key of a year.
fn decade_of(y: u16) -> (r: String)
    ensures
        r@ == decade_key(y as u64),
{
    let d: u64 = (y as u64 / 10) * 10;
    let mut v = crate::utils::text::decimal_chars(d);
    v.push('s');
    crate::utils::text::string_of(&v)
}

/// Count an optional year by its decade.
fn bump_decade(
    map: &mut KeyMap<String, usize>,
    year: Option<u16>,
    id: &String,
    Ghost(prev): Ghost<Seq<(u64, Seq<char>)>>,
)
    requires
        counts_match(
            old(map).view(),
            tally(prev.map_values(|p: (u64, Seq<char>)| (decade_key(p.0), p.1))),
        ),
        prev.len() < usize::MAX,
    ensures
        counts_match(
            final(map).view(),
            tally(
                (prev + year_pair(year, id@)).map_values(
                    |p: (u64, Seq<char>)| (decade_key(p.0), p.1),
                ),
            ),
        ),
{
    let ghost dp = prev.map_values(|p: (u64, Seq<char>)| (decade_key(p.0), p.1));
    match year {
        Some(y) => {
            let key = decade_of(y);
            bump(map, key, Ghost(dp), Ghost(id@));
            assert((prev + year_pair(year, id@)).map_values(
                |p: (u64, Seq<char>)| (decade_key(p.0), p.1),
            ) =~= dp.push((decade_key(y as u64), id@)));
        },
        None => {
            assert((prev + year_pair(year, id@)).map_values(
                |p: (u64, Seq<char>)| (decade_key(p.0), p.1),
            ) =~= dp);
        },
    }
}

proof fn lemma_single_pairs_len(ms: Seq<MovieEntry>, ss: Seq<TvShowEntry>)
    ensures
        movies_pairs(ms, Lookup::Country).len() <= ms.len(),
        shows_pairs(ss, Lookup::Country).len() <= ss.len(),
        movies_years(ms).len() <= ms.len(),
        shows_years(ss).len() <= ss.len(),
    decreases ms.len() + ss.len(),
{
    if ms.len() > 0 {
        lemma_single_pairs_len(ms.drop_last(), ss);
    }
    if ss.len() > 0 {
        lemma_single_pairs_len(ms, ss.drop_last());
    }
}

impl CentralIndex {
    /// Recount the statistics: totals, size, works per country and per
    /// decade (movies and TV shows), complete and incomplete collections.
    pub fn update_statistics(&mut self)
        requires
            old(self).movies@.len() + old(self).tvshows@.len() < usize::MAX,
        ensures
            final(self).movies == old(self).movies,
            final(self).tvshows == old(self).tvshows,
            final(self).disks == old(self).disks,
            final(self).collections == old(self).collections,
            final(self).indexes == old(self).indexes,
            final(self).version == old(self).version,
            final(self).created_at == old(self).created_at,
            final(self).updated_at == old(self).updated_at,
            final(self).statistics.total_movies == old(self).movies@.len(),
            final(self).statistics.total_tvshows == old(self).tvshows@.len(),
            final(self).statistics.total_disks == old(self).disks.view().dom().len(),
            final(self).statistics.total_size_bytes == shows_size(
                old(self).tvshows@,
                movies_size(old(self).movies@, 0),
            ),
            counts_match(
                final(self).statistics.by_country.view(),
                tally(table_pairs(old(self).movies@, old(self).tvshows@, Lookup::Country)),
            ),
            counts_match(
                final(self).statistics.by_decade.view(),
                tally(decade_pairs(old(self).movies@, old(self).tvshows@)),
            ),
            final(self).statistics.complete_collections == complete_count(
                old(self).collections.entry_seq(),
            ),
            final(self).statistics.complete_collections
                + final(self).statistics.incomplete_collections
                == old(self).collections.entry_seq().len(),
    {
        let ghost ms = self.movies@;
        let ghost ss = self.tvshows@;
        let ghost yp = |p: (u64, Seq<char>)| (decade_key(p.0), p.1);
        proof {
            lemma_single_pairs_len(ms, ss);
            assert(ms.take(0) =~= Seq::<MovieEntry>::empty());
            assert(tally(Seq::<(Seq<char>, Seq<char>)>::empty()) =~= Map::empty());
            assert(Seq::<(u64, Seq<char>)>::empty().map_values(yp) =~= Seq::empty());
        }
        let mut by_country: KeyMap<String, usize> = KeyMap::new();
        let mut by_decade: KeyMap<String, usize> = KeyMap::new();
        let mut size: u64 = 0;
        let mut i: usize = 0;
        while i < self.movies.len()
            invariant
                ms == self.movies@,
                ss == self.tvshows@,
                ms.len() + ss.len() < usize::MAX,
                i <= ms.len(),
                yp == (|p: (u64, Seq<char>)| (decade_key(p.0), p.1)),
                counts_match(
                    by_country.view(),
                    tally(movies_pairs(ms.take(i as int), Lookup::Country)),
                ),
                counts_match(by_decade.view(), tally(movies_years(ms.take(i as int)).map_values(yp))),
                size == movies_size(ms.take(i as int), 0),
            decreases ms.len() - i,
        {
            let m = &self.movies[i];
            let ghost done = ms.take(i as int);
            proof {
                assert(ms.take(i + 1).drop_last() =~= done);
                lemma_single_pairs_len(done, ss);
            }
            bump_opt(&mut by_country, &m.country, &m.id, Ghost(movies_pairs(done, Lookup::Country)));
            bump_decade(&mut by_decade, m.year, &m.id, Ghost(movies_years(done)));
            size = size.wrapping_add(m.size_bytes);
            i = i + 1;
        }
        proof {
            assert(ms.take(ms.len() as int) =~= ms);
            assert(ss.take(0) =~= Seq::<TvShowEntry>::empty());
            assert(table_pairs(ms, ss.take(0), Lookup::Country) =~= movies_pairs(ms, Lookup::Country));
            assert(year_pairs(ms, ss.take(0)) =~= movies_years(ms));
        }
        let mut j: usize = 0;
        while j < self.tvshows.len()
            invariant
                ms == self.movies@,
                ss == self.tvshows@,
                ms.len() + ss.len() < usize::MAX,
                j <= ss.len(),
                yp == (|p: (u64, Seq<char>)| (decade_key(p.0), p.1)),
                counts_match(
                    by_country.view(),
                    tally(table_pairs(ms, ss.take(j as int), Lookup::Country)),
                ),
                counts_match(by_decade.view(), tally(year_pairs(ms, ss.take(j as int)).map_values(yp))),
                size == shows_size(ss.take(j as int), movies_size(ms, 0)),
            decreases ss.len() - j,
        {
            let t = &self.tvshows[j];
            let ghost done = ss.take(j as int);
            proof {
                assert(ss.take(j + 1).drop_last() =~= done);
                lemma_single_pairs_len(ms, done);
                assert(table_pairs(ms, ss.take(j + 1), Lookup::Country) =~= table_pairs(
                    ms,
                    done,
                    Lookup::Country,
                ) + opt_pair(t.country, t.id@));
                assert(year_pairs(ms, ss.take(j + 1)) =~= year_pairs(ms, done) + year_pair(
                    t.year,
                    t.id@,
                ));
            }
            bump_opt(
                &mut by_country,
                &t.country,
                &t.id,
                Ghost(table_pairs(ms, done, Lookup::Country)),
            );
            bump_decade(&mut by_decade, t.year, &t.id, Ghost(year_pairs(ms, done)));
            size = size.wrapping_add(t.size_bytes);
            j = j + 1;
        }
        proof {
            assert(ss.take(ss.len() as int) =~= ss);
        }
        let entries = self.collections.entries();
        let ghost cs = entries@;
        let mut complete: usize = 0;
        let mut k: usize = 0;
        while k < entries.len()
            invariant
                cs == entries@,
                k <= cs.len(),
                complete == complete_count(cs.take(k as int)),
            decreases cs.len() - k,
        {
            proof {
                assert(cs.take(k + 1).drop_last() =~= cs.take(k as int));
                lemma_complete_bound(cs.take(k as int));
            }
            let c = &entries[k].1;
            if c.total_in_collection > 0 && c.owned_count >= c.total_in_collection as usize {
                complete = complete + 1;
            }
            k = k + 1;
        }
        proof {
            assert(cs.take(cs.len() as int) =~= cs);
            lemma_complete_bound(cs);
        }
        let total_disks = self.disks.len();
        let n_collections = entries.len();
        self.statistics = crate::models::index::Statistics {
            total_movies: self.movies.len(),
            total_tvshows: self.tvshows.len(),
            total_disks,
            total_size_bytes: size,
            by_country,
            by_decade,
            complete_collections: complete,
            incomplete_collections: n_collections - complete,
        };
    }
}

} // verus!
