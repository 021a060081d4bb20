//! Properties of the central index: its tables, collections, merges and
//! searches.

use vstd::prelude::*;
use crate::engine::indexer::{
    id_wanted, index_consistent, movie_wanted, movies_found, show_wanted, shows_found, merged_movies, merged_shows, movie_off_disk, movie_on_disk,
    name_hit, show_off_disk, show_on_disk, SearchFilters, desc_order, year_rank,
};
use crate::models::index::{same_movie, CentralIndex, Indexes, MovieEntry, TvShowEntry};
use crate::models::index_ops::{
    collections_of, ids_view, member_of, movies_pairs, name_pairs, postings, shows_pairs,
    table_pairs, Lookup, CollectionSpec,
};
use crate::utils::text::{contains_seq, occurs_at, str_lowercase, str_uppercase};

verus! {

/// A table built from pairs lists an id under a key exactly when the pair
/// was among them.
pub proof fn law_postings_exact<K>(pairs: Seq<(K, Seq<char>)>, k: K, id: Seq<char>)
    ensures
        (postings(pairs).contains_key(k) && postings(pairs)[k].contains(id)) == pairs.contains(
            (k, id),
        ),
    decreases pairs.len(),
{
    if pairs.len() > 0 {
        let p = pairs.drop_last();
        law_postings_exact(p, k, id);
        let m = postings(p);
        let last = pairs.last();
        if pairs.contains((k, id)) {
            let i = choose|i: int| 0 <= i < pairs.len() && pairs[i] == (k, id);
            if i < pairs.len() - 1 {
                assert(p[i] == (k, id));
                assert(p.contains((k, id)));
                if last.0 == k {
                    assert(postings(pairs)[k] == m[k].push(last.1));
                    let j = choose|j: int| 0 <= j < m[k].len() && m[k][j] == id;
                    assert(postings(pairs)[k][j] == id);
                }
            } else {
                let before = if m.contains_key(k) {
                    m[k]
                } else {
                    Seq::empty()
                };
                assert(postings(pairs)[k] == before.push(id));
                assert(postings(pairs)[k][before.len() as int] == id);
            }
        }
        if postings(pairs).contains_key(k) && postings(pairs)[k].contains(id) {
            let j = choose|j: int| 0 <= j < postings(pairs)[k].len() && postings(pairs)[k][j] == id;
            if last.0 == k {
                let before = if m.contains_key(k) {
                    m[k]
                } else {
                    Seq::empty()
                };
                if j < before.len() {
                    assert(before[j] == id);
                    let i = choose|i: int| 0 <= i < p.len() && p[i] == (k, id);
                    assert(pairs[i] == (k, id));
                } else {
                    assert(last == (k, id));
                    assert(pairs[pairs.len() - 1] == (k, id));
                }
            } else {
                assert(m[k].contains(id));
                let i = choose|i: int| 0 <= i < p.len() && p[i] == (k, id);
                assert(pairs[i] == (k, id));
            }
        }
    }
}

/// Every name a movie lists is among the actor pairs of the index.
proof fn lemma_movie_names_listed(ms: Seq<MovieEntry>, i: int, j: int)
    requires
        0 <= i < ms.len(),
        0 <= j < ms[i].actors@.len(),
    ensures
        movies_pairs(ms, Lookup::Actor).contains((ms[i].actors@[j]@, ms[i].id@)),
    decreases ms.len(),
{
    let p = ms.drop_last();
    if i < ms.len() - 1 {
        assert(p[i] == ms[i]);
        lemma_movie_names_listed(p, i, j);
        let q = choose|q: int| 0 <= q < movies_pairs(p, Lookup::Actor).len()
            && movies_pairs(p, Lookup::Actor)[q] == (ms[i].actors@[j]@, ms[i].id@);
        assert(movies_pairs(ms, Lookup::Actor)[q] == (ms[i].actors@[j]@, ms[i].id@));
    } else {
        let np = name_pairs(ms[i].actors@, ms[i].id@);
        assert(np[j] == (ms[i].actors@[j]@, ms[i].id@));
        let q = movies_pairs(p, Lookup::Actor).len() + j;
        assert(movies_pairs(ms, Lookup::Actor)[q] == (ms[i].actors@[j]@, ms[i].id@));
    }
}

/// In a consistent index, searching for the exact name of an actor of a
/// movie lets that movie through the actor filter.
pub proof fn law_actor_search_finds(c: CentralIndex, i: int, j: int)
    requires
        index_consistent(c),
        0 <= i < c.movies@.len(),
        0 <= j < c.movies@[i].actors@.len(),
    ensures
        name_hit(c.indexes.by_actor.view(), c.movies@[i].actors@[j]@, c.movies@[i].id@),
{
    let ms = c.movies@;
    let ss = c.tvshows@;
    let name = ms[i].actors@[j]@;
    let id = ms[i].id@;
    let pairs = table_pairs(ms, ss, Lookup::Actor);
    lemma_movie_names_listed(ms, i, j);
    let q = choose|q: int| 0 <= q < movies_pairs(ms, Lookup::Actor).len()
        && movies_pairs(ms, Lookup::Actor)[q] == (name, id);
    assert(pairs[q] == (name, id));
    law_postings_exact(pairs, name, id);
    assert(c.indexes.by_actor.view().contains_key(name));
    assert(ids_view(c.indexes.by_actor.view()[name]) == postings(pairs)[name]);
    assert(contains_seq(str_lowercase(name), str_lowercase(name))) by {
        assert(occurs_at(str_lowercase(name), str_lowercase(name), 0)) by {
            assert(str_lowercase(name).subrange(0, str_lowercase(name).len() as int) =~= str_lowercase(name));
        }
    }
    reveal(name_hit);
}

/// A collection lists, in index order, exactly the movies that carry its id.
pub proof fn law_collection_members(ms: Seq<MovieEntry>, id: u64)
    ensures
        collections_of(ms).contains_key(id) == exists|i: int|
            0 <= i < ms.len() && ms[i].collection_id == Some(id),
        collections_of(ms).contains_key(id) ==> collections_of(ms)[id].2 == ms.filter(
            |m: MovieEntry| m.collection_id == Some(id),
        ).map_values(|m: MovieEntry| member_of(m)),
    decreases ms.len(),
{
    reveal(Seq::filter);
    if ms.len() > 0 {
        let p = ms.drop_last();
        law_collection_members(p, id);
        let f = |m: MovieEntry| m.collection_id == Some(id);
        if exists|i: int| 0 <= i < p.len() && p[i].collection_id == Some(id) {
            let i = choose|i: int| 0 <= i < p.len() && p[i].collection_id == Some(id);
            assert(ms[i] == p[i]);
        }
        if exists|i: int| 0 <= i < ms.len() && ms[i].collection_id == Some(id) {
            let i = choose|i: int| 0 <= i < ms.len() && ms[i].collection_id == Some(id);
            if i < ms.len() - 1 {
                assert(p[i] == ms[i]);
            }
        }
        if f(ms.last()) {
            assert(ms.filter(f) == p.filter(f).push(ms.last()));
            assert(ms.filter(f).map_values(|m: MovieEntry| member_of(m)) =~= p.filter(f).map_values(
                |m: MovieEntry| member_of(m),
            ).push(member_of(ms.last())));
            if !collections_of(p).contains_key(id) {
                assert forall|i: int| 0 <= i < p.len() implies !f(#[trigger] p[i]) by {}
                lemma_filter_none(p, f);
                assert(collections_of(ms)[id].2 =~= seq![member_of(ms.last())]);
            }
        } else {
            assert(ms.filter(f) == p.filter(f));
        }
    }
}

/// Merging a scan whose works all sit on its disk leaves the works of the
/// other disks as they were, and those of its disk become the scanned ones
/// for each media type that the scan found.
pub proof fn law_merge_replaces_disk(
    before_movies: Seq<MovieEntry>,
    before_shows: Seq<TvShowEntry>,
    label: Seq<char>,
    movies: Seq<MovieEntry>,
    shows: Seq<TvShowEntry>,
)
    requires
        forall|i: int| 0 <= i < movies.len() ==> #[trigger] movies[i].disk@ == label,
        forall|i: int| 0 <= i < shows.len() ==> #[trigger] shows[i].disk@ == label,
    ensures
        merged_movies(before_movies, label, movies).filter(movie_off_disk(label)) == before_movies.filter(
            movie_off_disk(label),
        ),
        merged_shows(before_shows, label, shows).filter(show_off_disk(label)) == before_shows.filter(
            show_off_disk(label),
        ),
        movies.len() > 0 ==> merged_movies(before_movies, label, movies).filter(movie_on_disk(label))
            == movies,
        shows.len() > 0 ==> merged_shows(before_shows, label, shows).filter(show_on_disk(label))
            == shows,
        movies.len() == 0 ==> merged_movies(before_movies, label, movies) == before_movies,
        shows.len() == 0 ==> merged_shows(before_shows, label, shows) == before_shows,
{
    let off_m = movie_off_disk(label);
    let on_m = movie_on_disk(label);
    let off_s = show_off_disk(label);
    let on_s = show_on_disk(label);
    if movies.len() > 0 {
        let kept = before_movies.filter(off_m);
        Seq::filter_distributes_over_add(kept, movies, off_m);
        Seq::filter_distributes_over_add(kept, movies, on_m);
        lemma_filter_all_movies(movies, label);
        lemma_filter_again_movies(before_movies, label);
    }
    if shows.len() > 0 {
        let kept = before_shows.filter(off_s);
        Seq::filter_distributes_over_add(kept, shows, off_s);
        Seq::filter_distributes_over_add(kept, shows, on_s);
        lemma_filter_all_shows(shows, label);
        lemma_filter_again_shows(before_shows, label);
    }
}

proof fn lemma_filter_all_movies(ms: Seq<MovieEntry>, label: Seq<char>)
    requires
        forall|i: int| 0 <= i < ms.len() ==> #[trigger] ms[i].disk@ == label,
    ensures
        ms.filter(movie_off_disk(label)) == Seq::<MovieEntry>::empty(),
        ms.filter(movie_on_disk(label)) == ms,
    decreases ms.len(),
{
    reveal(Seq::filter);
    if ms.len() > 0 {
        let p = ms.drop_last();
        assert forall|i: int| 0 <= i < p.len() implies #[trigger] p[i].disk@ == label by {
            assert(p[i] == ms[i]);
        }
        lemma_filter_all_movies(p, label);
        assert(ms.filter(movie_on_disk(label)) =~= ms);
    } else {
        assert(ms.filter(movie_on_disk(label)) =~= ms);
    }
}

proof fn lemma_filter_all_shows(ss: Seq<TvShowEntry>, label: Seq<char>)
    requires
        forall|i: int| 0 <= i < ss.len() ==> #[trigger] ss[i].disk@ == label,
    ensures
        ss.filter(show_off_disk(label)) == Seq::<TvShowEntry>::empty(),
        ss.filter(show_on_disk(label)) == ss,
    decreases ss.len(),
{
    reveal(Seq::filter);
    if ss.len() > 0 {
        let p = ss.drop_last();
        assert forall|i: int| 0 <= i < p.len() implies #[trigger] p[i].disk@ == label by {
            assert(p[i] == ss[i]);
        }
        lemma_filter_all_shows(p, label);
        assert(ss.filter(show_on_disk(label)) =~= ss);
    } else {
        assert(ss.filter(show_on_disk(label)) =~= ss);
    }
}

/// Filtering out a disk twice is filtering it out once; what is left holds
/// none of its works.
proof fn lemma_filter_again_movies(ms: Seq<MovieEntry>, label: Seq<char>)
    ensures
        ms.filter(movie_off_disk(label)).filter(movie_off_disk(label)) == ms.filter(movie_off_disk(label)),
        ms.filter(movie_off_disk(label)).filter(movie_on_disk(label)) == Seq::<MovieEntry>::empty(),
    decreases ms.len(),
{
    reveal(Seq::filter);
    if ms.len() > 0 {
        let p = ms.drop_last();
        lemma_filter_again_movies(p, label);
        let f = p.filter(movie_off_disk(label));
        assert(f.push(ms.last()).drop_last() =~= f);
    }
}

proof fn lemma_filter_again_shows(ss: Seq<TvShowEntry>, label: Seq<char>)
    ensures
        ss.filter(show_off_disk(label)).filter(show_off_disk(label)) == ss.filter(show_off_disk(label)),
        ss.filter(show_off_disk(label)).filter(show_on_disk(label)) == Seq::<TvShowEntry>::empty(),
    decreases ss.len(),
{
    reveal(Seq::filter);
    if ss.len() > 0 {
        let p = ss.drop_last();
        lemma_filter_again_shows(p, label);
        let f = p.filter(show_off_disk(label));
        assert(f.push(ss.last()).drop_last() =~= f);
    }
}

proof fn lemma_filter_none<A>(s: Seq<A>, f: spec_fn(A) -> bool)
    requires
        forall|i: int| 0 <= i < s.len() ==> !f(#[trigger] s[i]),
    ensures
        s.filter(f).len() == 0,
    decreases s.len(),
{
    reveal(Seq::filter);
    if s.len() > 0 {
        let p = s.drop_last();
        assert forall|i: int| 0 <= i < p.len() implies !f(#[trigger] p[i]) by {
            assert(p[i] == s[i]);
        }
        lemma_filter_none(p, f);
        assert(!f(s[s.len() - 1]));
    }
}

/// A search finds exactly the movies that meet every criterion given: each
/// movie it returns is a copy of an index movie that meets them, and every
/// index movie that meets them is returned.
pub proof fn law_search_finds_exactly(
    index: CentralIndex,
    f: SearchFilters,
    title: Option<Seq<char>>,
    out: Seq<MovieEntry>,
    order: Seq<usize>,
)
    requires
        movies_found(index, f, title, out, order),
    ensures
        forall|k: int|
            0 <= k < out.len() ==> order[k] < index.movies@.len() && movie_wanted(
                index.indexes,
                f,
                title,
                index.movies@[order[k] as int],
            ) && same_movie(#[trigger] out[k], index.movies@[order[k] as int]),
        forall|i: int|
            0 <= i < index.movies@.len() && movie_wanted(index.indexes, f, title, #[trigger] index.movies@[i])
                ==> exists|k: int| 0 <= k < out.len() && order[k] == i,
{
    let ms = index.movies@;
    let pick = ms.map_values(|m: MovieEntry| movie_wanted(index.indexes, f, title, m));
    assert forall|k: int| 0 <= k < out.len() implies order[k] < index.movies@.len() && movie_wanted(
        index.indexes,
        f,
        title,
        index.movies@[order[k] as int],
    ) && same_movie(#[trigger] out[k], index.movies@[order[k] as int]) by {
        assert(pick[order[k] as int]);
    }
    assert forall|i: int|
        0 <= i < ms.len() && movie_wanted(index.indexes, f, title, #[trigger] ms[i]) implies exists|k: int|
        0 <= k < out.len() && order[k] == i by {
        assert(pick[i]);
    }
}

/// A search by director finds no TV show: directors are searched among
/// movies only.
pub proof fn law_director_search_finds_no_show(
    index: CentralIndex,
    f: SearchFilters,
    title: Option<Seq<char>>,
    out: Seq<TvShowEntry>,
    order: Seq<usize>,
)
    requires
        f.director is Some,
        shows_found(index, f, title, out, order),
    ensures
        out.len() == 0,
{
    let ss = index.tvshows@;
    let pick = ss.map_values(|t: TvShowEntry| show_wanted(index.indexes, f, title, t));
    if out.len() > 0 {
        assert(pick[order[0] as int]);
    }
}

/// `f2` with `t2` asks for at least what `f1` with `t1` asks: each lookup
/// filter and the title query of the first are given the same in the
/// second, and a year range of the first (given without a year, so that
/// it applies) stays without a year in the second.
pub open spec fn narrower(f2: SearchFilters, t2: Option<Seq<char>>, f1: SearchFilters, t1: Option<Seq<char>>) -> bool {
    &&& (f1.actor is Some ==> f2.actor == f1.actor)
    &&& (f1.director is Some ==> f2.director == f1.director)
    &&& (f1.genre is Some ==> f2.genre == f1.genre)
    &&& (f1.country is Some ==> f2.country == f1.country)
    &&& (f1.year is Some ==> f2.year == f1.year)
    &&& (f1.year is None && f1.year_range is Some ==> f2.year is None && f2.year_range == f1.year_range)
    &&& (t1 is Some ==> t2 == t1)
}

/// No filter at all: no lookup filter and no title query.
pub open spec fn no_filter(f: SearchFilters, t: Option<Seq<char>>) -> bool {
    &&& f.actor is None
    &&& f.director is None
    &&& f.genre is None
    &&& f.country is None
    &&& f.year is None
    &&& f.year_range is None
    &&& t is None
}

proof fn lemma_desc_order_distinct(ranks: Seq<int>, pick: Seq<bool>, order: Seq<usize>)
    requires
        desc_order(ranks, pick, order),
    ensures
        order.no_duplicates(),
{
    assert forall|a: int, b: int| 0 <= a < order.len() && 0 <= b < order.len() && a != b implies order[a]
        != order[b] by {
        if a < b {
            assert(ranks[order[a] as int] > ranks[order[b] as int] || order[a] < order[b]);
        } else {
            assert(ranks[order[b] as int] > ranks[order[a] as int] || order[b] < order[a]);
        }
    }
}

proof fn lemma_included_len(o1: Seq<usize>, o2: Seq<usize>)
    requires
        o1.no_duplicates(),
        o2.no_duplicates(),
        forall|k: int| 0 <= k < o2.len() ==> #[trigger] o1.contains(o2[k]),
    ensures
        o2.len() <= o1.len(),
{
    o1.unique_seq_to_set();
    o2.unique_seq_to_set();
    assert(o2.to_set().subset_of(o1.to_set())) by {
        assert forall|x: usize| o2.to_set().contains(x) implies o1.to_set().contains(x) by {
            let k = choose|k: int| 0 <= k < o2.len() && o2[k] == x;
            assert(o1.contains(o2[k]));
        }
    }
    vstd::set_lib::lemma_len_subset(o2.to_set(), o1.to_set());
}

/// A narrower search lets fewer movies through: each movie that the
/// narrower criteria want is wanted by the wider ones.
pub proof fn law_narrower_movie_wanted(
    ix: Indexes,
    f2: SearchFilters,
    t2: Option<Seq<char>>,
    f1: SearchFilters,
    t1: Option<Seq<char>>,
    m: MovieEntry,
)
    requires
        narrower(f2, t2, f1, t1),
        movie_wanted(ix, f2, t2, m),
    ensures
        movie_wanted(ix, f1, t1, m),
{
}

/// A narrower search lets fewer TV shows through.
pub proof fn law_narrower_show_wanted(
    ix: Indexes,
    f2: SearchFilters,
    t2: Option<Seq<char>>,
    f1: SearchFilters,
    t1: Option<Seq<char>>,
    t: TvShowEntry,
)
    requires
        narrower(f2, t2, f1, t1),
        show_wanted(ix, f2, t2, t),
    ensures
        show_wanted(ix, f1, t1, t),
{
}

/// Filters combine by AND: a search with more criteria returns no movie
/// that the search with fewer criteria leaves out, each index movie at
/// most once, and so no more movies.
pub proof fn law_more_filters_fewer_movies(
    index: CentralIndex,
    f1: SearchFilters,
    t1: Option<Seq<char>>,
    out1: Seq<MovieEntry>,
    o1: Seq<usize>,
    f2: SearchFilters,
    t2: Option<Seq<char>>,
    out2: Seq<MovieEntry>,
    o2: Seq<usize>,
)
    requires
        narrower(f2, t2, f1, t1),
        movies_found(index, f1, t1, out1, o1),
        movies_found(index, f2, t2, out2, o2),
    ensures
        forall|k: int| 0 <= k < o2.len() ==> #[trigger] o1.contains(o2[k]),
        o1.no_duplicates(),
        o2.no_duplicates(),
        out2.len() <= out1.len(),
{
    let ms = index.movies@;
    let p1 = ms.map_values(|m: MovieEntry| movie_wanted(index.indexes, f1, t1, m));
    let p2 = ms.map_values(|m: MovieEntry| movie_wanted(index.indexes, f2, t2, m));
    let rk = ms.map_values(|m: MovieEntry| year_rank(m.year));
    lemma_desc_order_distinct(rk, p1, o1);
    lemma_desc_order_distinct(rk, p2, o2);
    assert forall|k: int| 0 <= k < o2.len() implies #[trigger] o1.contains(o2[k]) by {
        let i = o2[k] as int;
        assert(p2[i]);
        law_narrower_movie_wanted(index.indexes, f2, t2, f1, t1, ms[i]);
        assert(p1[i]);
        let j = choose|j: int| 0 <= j < o1.len() && o1[j] == i;
        assert(o1[j] == o2[k]);
    }
    lemma_included_len(o1, o2);
}

/// Filters combine by AND for TV shows too.
pub proof fn law_more_filters_fewer_shows(
    index: CentralIndex,
    f1: SearchFilters,
    t1: Option<Seq<char>>,
    out1: Seq<TvShowEntry>,
    o1: Seq<usize>,
    f2: SearchFilters,
    t2: Option<Seq<char>>,
    out2: Seq<TvShowEntry>,
    o2: Seq<usize>,
)
    requires
        narrower(f2, t2, f1, t1),
        shows_found(index, f1, t1, out1, o1),
        shows_found(index, f2, t2, out2, o2),
    ensures
        forall|k: int| 0 <= k < o2.len() ==> #[trigger] o1.contains(o2[k]),
        o1.no_duplicates(),
        o2.no_duplicates(),
        out2.len() <= out1.len(),
{
    let ss = index.tvshows@;
    let p1 = ss.map_values(|t: TvShowEntry| show_wanted(index.indexes, f1, t1, t));
    let p2 = ss.map_values(|t: TvShowEntry| show_wanted(index.indexes, f2, t2, t));
    let rk = ss.map_values(|t: TvShowEntry| year_rank(t.year));
    lemma_desc_order_distinct(rk, p1, o1);
    lemma_desc_order_distinct(rk, p2, o2);
    assert forall|k: int| 0 <= k < o2.len() implies #[trigger] o1.contains(o2[k]) by {
        let i = o2[k] as int;
        assert(p2[i]);
        law_narrower_show_wanted(index.indexes, f2, t2, f1, t1, ss[i]);
        assert(p1[i]);
        let j = choose|j: int| 0 <= j < o1.len() && o1[j] == i;
        assert(o1[j] == o2[k]);
    }
    lemma_included_len(o1, o2);
}

proof fn lemma_all_indices(order: Seq<usize>, n: nat)
    requires
        order.no_duplicates(),
        forall|k: int| 0 <= k < order.len() ==> #[trigger] order[k] < n,
        forall|x: usize| x < n ==> #[trigger] order.contains(x),
        n <= usize::MAX,
    ensures
        order.len() == n,
{
    let ints = order.map_values(|x: usize| x as int);
    assert(ints.no_duplicates()) by {
        assert forall|a: int, b: int| 0 <= a < ints.len() && 0 <= b < ints.len() && a != b implies ints[a]
            != ints[b] by {
            assert(order[a] != order[b]);
        }
    }
    assert(ints.to_set() =~= vstd::set_lib::set_int_range(0, n as int)) by {
        assert forall|x: int| ints.to_set().contains(x) implies vstd::set_lib::set_int_range(0, n as int).contains(x) by {
            let k = choose|k: int| 0 <= k < ints.len() && ints[k] == x;
            assert(order[k] < n);
        }
        assert forall|x: int| vstd::set_lib::set_int_range(0, n as int).contains(x) implies ints.to_set().contains(x) by {
            assert(x as usize == x);
            assert(order.contains(x as usize));
            let k = choose|k: int| 0 <= k < order.len() && order[k] == x as usize;
            assert(ints[k] == x);
        }
    }
    ints.unique_seq_to_set();
    vstd::set_lib::lemma_int_range(0, n as int);
}

/// Without any filter a search returns every movie of the index, each
/// once (in year order): the order is a permutation of the index.
pub proof fn law_no_filter_lists_all_movies(
    index: CentralIndex,
    f: SearchFilters,
    t: Option<Seq<char>>,
    out: Seq<MovieEntry>,
    order: Seq<usize>,
)
    requires
        no_filter(f, t),
        movies_found(index, f, t, out, order),
    ensures
        forall|i: usize| i < index.movies@.len() ==> #[trigger] order.contains(i),
        order.no_duplicates(),
        out.len() == index.movies@.len(),
{
    let ms = index.movies@;
    let p = ms.map_values(|m: MovieEntry| movie_wanted(index.indexes, f, t, m));
    let rk = ms.map_values(|m: MovieEntry| year_rank(m.year));
    assert forall|i: usize| i < ms.len() implies #[trigger] order.contains(i) by {
        assert(p[i as int]);
        let k = choose|k: int| 0 <= k < order.len() && order[k] == i;
        assert(order[k] == i);
    }
    lemma_desc_order_distinct(rk, p, order);
    assert(index.movies.len() == ms.len());
    lemma_all_indices(order, ms.len());
}

/// Without any filter a search returns every TV show of the index, each
/// once.
pub proof fn law_no_filter_lists_all_shows(
    index: CentralIndex,
    f: SearchFilters,
    t: Option<Seq<char>>,
    out: Seq<TvShowEntry>,
    order: Seq<usize>,
)
    requires
        no_filter(f, t),
        shows_found(index, f, t, out, order),
    ensures
        forall|i: usize| i < index.tvshows@.len() ==> #[trigger] order.contains(i),
        order.no_duplicates(),
        out.len() == index.tvshows@.len(),
{
    let ss = index.tvshows@;
    let p = ss.map_values(|s: TvShowEntry| show_wanted(index.indexes, f, t, s));
    let rk = ss.map_values(|s: TvShowEntry| year_rank(s.year));
    assert forall|i: usize| i < ss.len() implies #[trigger] order.contains(i) by {
        assert(p[i as int]);
        let k = choose|k: int| 0 <= k < order.len() && order[k] == i;
        assert(order[k] == i);
    }
    lemma_desc_order_distinct(rk, p, order);
    assert(index.tvshows.len() == ss.len());
    lemma_all_indices(order, ss.len());
}

/// A country is looked up by its upper-case code: when the country table
/// has no such key, a search by that country finds no movie and no TV show.
pub proof fn law_unknown_country_finds_nothing(
    index: CentralIndex,
    f: SearchFilters,
    t: Option<Seq<char>>,
    movies: Seq<MovieEntry>,
    mo: Seq<usize>,
    shows: Seq<TvShowEntry>,
    so: Seq<usize>,
)
    requires
        f.country matches Some(c) && !index.indexes.by_country.view().contains_key(str_uppercase(c)),
        movies_found(index, f, t, movies, mo),
        shows_found(index, f, t, shows, so),
    ensures
        movies.len() == 0,
        shows.len() == 0,
{
    let ms = index.movies@;
    let ss = index.tvshows@;
    if mo.len() > 0 {
        let pm = ms.map_values(|m: MovieEntry| movie_wanted(index.indexes, f, t, m));
        assert(pm[mo[0] as int]);
    }
    if so.len() > 0 {
        let ps = ss.map_values(|x: TvShowEntry| show_wanted(index.indexes, f, t, x));
        assert(ps[so[0] as int]);
    }
}

} // verus!
