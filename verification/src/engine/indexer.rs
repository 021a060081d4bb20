//! Central index management: merging disk scans, searching, disk labels.

use vstd::prelude::*;
use crate::engine::clock::{now_rfc3339, rfc3339_text, utc_time_valid, UtcTime};
use crate::error::Error;
use crate::models::index::{CentralIndex, DiskIndex, DiskInfo, MovieEntry, TvShowEntry};
use crate::models::index_ops::{
    collections_match, collections_of, complete_count, counts_match, decade_pairs, movies_pairs,
    movies_size, postings, shows_size, table_matches, table_pairs, tally, year_pairs, Lookup,
};
use crate::models::index::{copy_strings, same_collection, same_movie, same_tvshow, CollectionInfo, Indexes};
use crate::models::index_ops::ids_view;
use crate::models::keymap::{map_of, KeyMap, MapKey};
use crate::engine::nfo::{movie_read, parse_movie_nfo, parse_tvshow_nfo, nfo_title, show_read, show_year_readable};
use crate::utils::fs::{extension, file_name, file_name_of, get_extension};
use crate::utils::text::{
    chars_of, contains, contains_seq, seq_eq, starts_with, starts_with_seq, str_lowercase, str_uppercase,
    push_str, string_of, to_lower, to_upper,
};

verus! {

/// Movies that are not on the disk `label`.
pub open spec fn movie_off_disk(label: Seq<char>) -> spec_fn(MovieEntry) -> bool {
    |m: MovieEntry| m.disk@ != label
}

/// Movies on the disk `label`.
pub open spec fn movie_on_disk(label: Seq<char>) -> spec_fn(MovieEntry) -> bool {
    |m: MovieEntry| m.disk@ == label
}

pub open spec fn show_off_disk(label: Seq<char>) -> spec_fn(TvShowEntry) -> bool {
    |t: TvShowEntry| t.disk@ != label
}

pub open spec fn show_on_disk(label: Seq<char>) -> spec_fn(TvShowEntry) -> bool {
    |t: TvShowEntry| t.disk@ == label
}

pub proof fn lemma_filter_step<A>(s: Seq<A>, p: spec_fn(A) -> bool, j: int)
    requires
        0 <= j < s.len(),
    ensures
        s.take(j + 1).filter(p) == (if p(s[j]) {
            s.take(j).filter(p).push(s[j])
        } else {
            s.take(j).filter(p)
        }),
{
    reveal(Seq::filter);
    assert(s.take(j + 1).drop_last() =~= s.take(j));
}

/// Drop the movies of disk `label`, keeping the others in order.
fn retain_movies_off(v: &mut Vec<MovieEntry>, label: &String)
    ensures
        final(v)@ == old(v)@.filter(movie_off_disk(label@)),
{
    let ghost s = v@;
    let ghost p = movie_off_disk(label@);
    let total: usize = v.len();
    let mut i: usize = 0;
    let mut j: usize = 0;
    proof {
        reveal(Seq::filter);
        assert(s.take(0) =~= Seq::<MovieEntry>::empty());
        assert(s.skip(0) =~= s);
        assert(v@ =~= s.take(0).filter(p) + s.skip(0));
    }
    while i < v.len()
        invariant
            j <= s.len(),
            s.len() == total,
            i == s.take(j as int).filter(p).len(),
            v@ == s.take(j as int).filter(p) + s.skip(j as int),
            p == movie_off_disk(label@),
        decreases s.len() - j,
    {
        proof {
            assert(j < s.len());
            lemma_filter_step(s, p, j as int);
            assert(v@[i as int] == s[j as int]);
        }
        if v[i].disk != *label {
            proof {
                assert(s.take(j + 1).filter(p) + s.skip(j + 1) =~= v@);
            }
            i = i + 1;
        } else {
            v.remove(i);
            proof {
                assert(s.take(j + 1).filter(p) + s.skip(j + 1) =~= v@);
            }
        }
        j = j + 1;
    }
    proof {
        assert(s.take(j as int) =~= s);
        assert(v@ =~= s.filter(p));
    }
}

/// Drop the TV shows of disk `label`, keeping the others in order.
fn retain_shows_off(v: &mut Vec<TvShowEntry>, label: &String)
    ensures
        final(v)@ == old(v)@.filter(show_off_disk(label@)),
{
    let ghost s = v@;
    let ghost p = show_off_disk(label@);
    let total: usize = v.len();
    let mut i: usize = 0;
    let mut j: usize = 0;
    proof {
        reveal(Seq::filter);
        assert(s.take(0) =~= Seq::<TvShowEntry>::empty());
        assert(s.skip(0) =~= s);
        assert(v@ =~= s.take(0).filter(p) + s.skip(0));
    }
    while i < v.len()
        invariant
            j <= s.len(),
            s.len() == total,
            i == s.take(j as int).filter(p).len(),
            v@ == s.take(j as int).filter(p) + s.skip(j as int),
            p == show_off_disk(label@),
        decreases s.len() - j,
    {
        proof {
            assert(j < s.len());
            lemma_filter_step(s, p, j as int);
            assert(v@[i as int] == s[j as int]);
        }
        if v[i].disk != *label {
            proof {
                assert(s.take(j + 1).filter(p) + s.skip(j + 1) =~= v@);
            }
            i = i + 1;
        } else {
            v.remove(i);
            proof {
                assert(s.take(j + 1).filter(p) + s.skip(j + 1) =~= v@);
            }
        }
        j = j + 1;
    }
    proof {
        assert(s.take(j as int) =~= s);
        assert(v@ =~= s.filter(p));
    }
}

/// Number of movies and TV shows on disk `label`, and their size added up
/// with wrap-around (movies first).
fn disk_totals(ms: &Vec<MovieEntry>, ss: &Vec<TvShowEntry>, label: &String) -> (r: (
    usize,
    usize,
    u64,
))
    ensures
        r.0 == ms@.filter(movie_on_disk(label@)).len(),
        r.1 == ss@.filter(show_on_disk(label@)).len(),
        r.2 == shows_size(
            ss@.filter(show_on_disk(label@)),
            movies_size(ms@.filter(movie_on_disk(label@)), 0),
        ),
{
    let ghost pm = movie_on_disk(label@);
    let ghost ps = show_on_disk(label@);
    let mut n_movies: usize = 0;
    let mut size: u64 = 0;
    let mut i: usize = 0;
    proof {
        reveal(Seq::filter);
        assert(ms@.take(0) =~= Seq::<MovieEntry>::empty());
        assert(ss@.take(0) =~= Seq::<TvShowEntry>::empty());
        ms@.filter_lemma(pm);
        ss@.filter_lemma(ps);
    }
    while i < ms.len()
        invariant
            i <= ms@.len(),
            pm == movie_on_disk(label@),
            n_movies == ms@.take(i as int).filter(pm).len(),
            size == movies_size(ms@.take(i as int).filter(pm), 0),
            ms@.take(i as int).filter(pm).len() <= i,
        decreases ms@.len() - i,
    {
        proof {
            lemma_filter_step(ms@, pm, i as int);
        }
        if ms[i].disk == *label {
            proof {
                let f = ms@.take(i as int).filter(pm);
                assert(f.push(ms@[i as int]).drop_last() =~= f);
            }
            n_movies = n_movies + 1;
            size = size.wrapping_add(ms[i].size_bytes);
        }
        i = i + 1;
    }
    let mut n_shows: usize = 0;
    let mut j: usize = 0;
    let ghost base = movies_size(ms@.filter(pm), 0);
    proof {
        assert(ms@.take(ms@.len() as int) =~= ms@);
    }
    while j < ss.len()
        invariant
            j <= ss@.len(),
            ps == show_on_disk(label@),
            n_shows == ss@.take(j as int).filter(ps).len(),
            size == shows_size(ss@.take(j as int).filter(ps), base),
            ss@.take(j as int).filter(ps).len() <= j,
        decreases ss@.len() - j,
    {
        proof {
            lemma_filter_step(ss@, ps, j as int);
        }
        if ss[j].disk == *label {
            proof {
                let f = ss@.take(j as int).filter(ps);
                assert(f.push(ss@[j as int]).drop_last() =~= f);
            }
            n_shows = n_shows + 1;
            size = size.wrapping_add(ss[j].size_bytes);
        }
        j = j + 1;
    }
    proof {
        assert(ss@.take(ss@.len() as int) =~= ss@);
    }
    (n_movies, n_shows, size)
}

/// The record of a disk after a scan `info` of it: a new label is taken as
/// scanned; a known one keeps its label, base path and counts, gains the
/// scanned paths (a path of the same media type is replaced), takes the
/// scan time, and takes the UUID when the scan found one.
pub open spec fn disk_merged(before: Map<Seq<char>, DiskInfo>, info: DiskInfo, d: DiskInfo) -> bool {
    if before.contains_key(info.label@) {
        let o = before[info.label@];
        &&& d.label == o.label
        &&& d.base_path == o.base_path
        &&& d.movie_count == o.movie_count
        &&& d.tvshow_count == o.tvshow_count
        &&& d.total_size_bytes == o.total_size_bytes
        &&& d.paths.view() == o.paths.view().union_prefer_right(info.paths.view())
        &&& d.last_indexed == info.last_indexed
        &&& d.uuid == (if info.uuid is Some {
            info.uuid
        } else {
            o.uuid
        })
    } else {
        d == info
    }
}

/// Record the scan `info` in the disk table.
fn merge_disk_info(disks: &mut KeyMap<String, DiskInfo>, info: DiskInfo)
    ensures
        final(disks).view().contains_key(info.label@),
        final(disks).view().remove(info.label@) == old(disks).view().remove(info.label@),
        disk_merged(old(disks).view(), info, final(disks).view()[info.label@]),
{
    let label = info.label.clone();
    if disks.has_key(&label) {
        let mut existing = disks.replace(&label, DiskInfo::new(String::new()));
        let ghost o = existing;
        let entries = info.paths.entries();
        info.paths.view_facts();
        let ghost es = entries@;
        let mut k: usize = 0;
        proof {
            assert(es.take(0) =~= Seq::<(String, String)>::empty());
            assert(o.paths.view().union_prefer_right(map_of(es.take(0))) =~= o.paths.view());
        }
        while k < entries.len()
            invariant
                es == entries@,
                es == info.paths.entry_seq(),
                k <= es.len(),
                existing.label == o.label,
                existing.base_path == o.base_path,
                existing.movie_count == o.movie_count,
                existing.tvshow_count == o.tvshow_count,
                existing.total_size_bytes == o.total_size_bytes,
                existing.last_indexed == o.last_indexed,
                existing.uuid == o.uuid,
                existing.paths.view() == o.paths.view().union_prefer_right(map_of(es.take(k as int))),
            decreases es.len() - k,
        {
            proof {
                assert(es.take(k + 1).drop_last() =~= es.take(k as int));
            }
            let ghost before = existing.paths.view();
            existing.paths.insert(entries[k].0.clone(), entries[k].1.clone());
            proof {
                assert(existing.paths.view() =~= o.paths.view().union_prefer_right(
                    map_of(es.take(k + 1)),
                ));
            }
            k = k + 1;
        }
        proof {
            assert(es.take(es.len() as int) =~= es);
        }
        existing.last_indexed = info.last_indexed.clone();
        if info.uuid.is_some() {
            existing.uuid = info.uuid.clone();
        }
        let ghost before = disks.view();
        disks.replace(&label, existing);
        proof {
            assert(disks.view().remove(info.label@) =~= old(disks).view().remove(info.label@));
        }
    } else {
        disks.insert(label, info);
        proof {
            assert(disks.view().remove(info.label@) =~= old(disks).view().remove(info.label@));
        }
    }
}

/// The central index after a merge holds exactly these tables and counts
/// for its movies and TV shows.
pub open spec fn index_consistent(c: CentralIndex) -> bool {
    let ms = c.movies@;
    let ss = c.tvshows@;
    &&& table_matches(c.indexes.by_actor.view(), postings(table_pairs(ms, ss, Lookup::Actor)))
    &&& table_matches(c.indexes.by_director.view(), postings(movies_pairs(ms, Lookup::Director)))
    &&& table_matches(c.indexes.by_genre.view(), postings(table_pairs(ms, ss, Lookup::Genre)))
    &&& table_matches(c.indexes.by_country.view(), postings(table_pairs(ms, ss, Lookup::Country)))
    &&& table_matches(c.indexes.by_year.view(), postings(year_pairs(ms, ss)))
    &&& collections_match(c.collections.view(), collections_of(ms))
    &&& c.statistics.total_movies == ms.len()
    &&& c.statistics.total_tvshows == ss.len()
    &&& c.statistics.total_disks == c.disks.view().dom().len()
    &&& c.statistics.total_size_bytes == shows_size(ss, movies_size(ms, 0))
    &&& counts_match(c.statistics.by_country.view(), tally(table_pairs(ms, ss, Lookup::Country)))
    &&& counts_match(c.statistics.by_decade.view(), tally(decade_pairs(ms, ss)))
    &&& c.statistics.complete_collections == complete_count(c.collections.entry_seq())
    &&& c.statistics.complete_collections + c.statistics.incomplete_collections
        == c.collections.entry_seq().len()
}

/// The movies after merging a scan of disk `label`: a scan that found
/// movies replaces that disk's movies; one that found none keeps them.
pub open spec fn merged_movies(before: Seq<MovieEntry>, label: Seq<char>, scanned: Seq<MovieEntry>) -> Seq<
    MovieEntry,
> {
    if scanned.len() > 0 {
        before.filter(movie_off_disk(label)) + scanned
    } else {
        before
    }
}

pub open spec fn merged_shows(before: Seq<TvShowEntry>, label: Seq<char>, scanned: Seq<TvShowEntry>) -> Seq<
    TvShowEntry,
> {
    if scanned.len() > 0 {
        before.filter(show_off_disk(label)) + scanned
    } else {
        before
    }
}

/// Merge a disk scan into the central index, stamped `now`.
///
/// The disk record is merged (see `disk_merged`) and its counts and size
/// are recomputed; only the media types that the scan found are replaced,
/// so one label can hold movies and TV shows from different paths; the
/// tables, collections and statistics are rebuilt.
pub fn merge_disk_at(central: &mut CentralIndex, disk: DiskIndex, now: String)
    requires
        old(central).movies@.len() + disk.movies@.len() + old(central).tvshows@.len()
            + disk.tvshows@.len() < usize::MAX,
    ensures
        final(central).movies@ == merged_movies(
            old(central).movies@,
            disk.disk.label@,
            disk.movies@,
        ),
        final(central).tvshows@ == merged_shows(
            old(central).tvshows@,
            disk.disk.label@,
            disk.tvshows@,
        ),
        final(central).disks.view().contains_key(disk.disk.label@),
        final(central).disks.view().remove(disk.disk.label@) == old(central).disks.view().remove(
            disk.disk.label@,
        ),
        ({
            let d = final(central).disks.view()[disk.disk.label@];
            let label = disk.disk.label@;
            &&& disk_merged(
                old(central).disks.view(),
                disk.disk,
                DiskInfo {
                    movie_count: if old(central).disks.view().contains_key(label) {
                        old(central).disks.view()[label].movie_count
                    } else {
                        disk.disk.movie_count
                    },
                    tvshow_count: if old(central).disks.view().contains_key(label) {
                        old(central).disks.view()[label].tvshow_count
                    } else {
                        disk.disk.tvshow_count
                    },
                    total_size_bytes: if old(central).disks.view().contains_key(label) {
                        old(central).disks.view()[label].total_size_bytes
                    } else {
                        disk.disk.total_size_bytes
                    },
                    ..d
                },
            )
            &&& d.movie_count == final(central).movies@.filter(movie_on_disk(label)).len()
            &&& d.tvshow_count == final(central).tvshows@.filter(show_on_disk(label)).len()
            &&& d.total_size_bytes == shows_size(
                final(central).tvshows@.filter(show_on_disk(label)),
                movies_size(final(central).movies@.filter(movie_on_disk(label)), 0),
            )
        }),
        index_consistent(*final(central)),
        final(central).updated_at == now,
        final(central).version == old(central).version,
        final(central).created_at == old(central).created_at,
{
    let DiskIndex { version: _, disk: info, movies, tvshows } = disk;
    let label = info.label.clone();
    let has_movies = movies.len() > 0;
    let has_tvshows = tvshows.len() > 0;
    let ghost info0 = info;
    merge_disk_info(&mut central.disks, info);
    if has_movies {
        retain_movies_off(&mut central.movies, &label);
        let mut scanned = movies;
        central.movies.append(&mut scanned);
    }
    if has_tvshows {
        retain_shows_off(&mut central.tvshows, &label);
        let mut scanned = tvshows;
        central.tvshows.append(&mut scanned);
    }
    proof {
        central.movies@.filter_lemma(movie_off_disk(label@));
    }
    let (n_movies, n_shows, size) = disk_totals(&central.movies, &central.tvshows, &label);
    let ghost merged = central.disks.view()[label@];
    let mut d = central.disks.replace(&label, DiskInfo::new(String::new()));
    d.movie_count = n_movies;
    d.tvshow_count = n_shows;
    d.total_size_bytes = size;
    central.disks.replace(&label, d);
    proof {
        assert(central.disks.view().remove(label@) =~= old(central).disks.view().remove(label@));
    }
    central.rebuild_indexes();
    central.update_statistics();
    central.updated_at = now;
}

/// Merge a disk scan into the central index, stamped with the current time.
/// When the clock cannot be read, the index is left as it was and the
/// error says so.
pub fn merge_disk_into_central(central: &mut CentralIndex, disk: DiskIndex) -> (r: Result<(), Error>)
    requires
        old(central).movies@.len() + disk.movies@.len() + old(central).tvshows@.len()
            + disk.tvshows@.len() < usize::MAX,
    ensures
        r is Err ==> *final(central) == *old(central),
        r matches Err(e) ==> e matches Error::Other(m) && m@ == "system time before Unix epoch"@,
        r is Ok ==> (
            final(central).movies@ == merged_movies(
                old(central).movies@,
                disk.disk.label@,
                disk.movies@,
            )
        ),
        r is Ok ==> (
            final(central).tvshows@ == merged_shows(
                old(central).tvshows@,
                disk.disk.label@,
                disk.tvshows@,
            )
        ),
        r is Ok ==> (
            final(central).disks.view().contains_key(disk.disk.label@)
        ),
        r is Ok ==> (
            final(central).disks.view().remove(disk.disk.label@) == old(central).disks.view().remove(
                disk.disk.label@,
            )
        ),
        r is Ok ==> (
            ({
                let d = final(central).disks.view()[disk.disk.label@];
                let label = disk.disk.label@;
                &&& disk_merged(
                    old(central).disks.view(),
                    disk.disk,
                    DiskInfo {
                        movie_count: if old(central).disks.view().contains_key(label) {
                            old(central).disks.view()[label].movie_count
                        } else {
                            disk.disk.movie_count
                        },
                        tvshow_count: if old(central).disks.view().contains_key(label) {
                            old(central).disks.view()[label].tvshow_count
                        } else {
                            disk.disk.tvshow_count
                        },
                        total_size_bytes: if old(central).disks.view().contains_key(label) {
                            old(central).disks.view()[label].total_size_bytes
                        } else {
                            disk.disk.total_size_bytes
                        },
                        ..d
                    },
                )
                &&& d.movie_count == final(central).movies@.filter(movie_on_disk(label)).len()
                &&& d.tvshow_count == final(central).tvshows@.filter(show_on_disk(label)).len()
                &&& d.total_size_bytes == shows_size(
                    final(central).tvshows@.filter(show_on_disk(label)),
                    movies_size(final(central).movies@.filter(movie_on_disk(label)), 0),
                )
            })
        ),
        r is Ok ==> (
            index_consistent(*final(central))
        ),
        r is Ok ==> (
            final(central).version == old(central).version
        ),
        r is Ok ==> (
            final(central).created_at == old(central).created_at
        ),
        r is Ok ==> exists|t: UtcTime| #[trigger] utc_time_valid(t) && final(central).updated_at@ == rfc3339_text(t),
{
    let now = match now_rfc3339() {
        Some(now) => now,
        None => return Err(Error::Other("system time before Unix epoch".to_string())),
    };
    merge_disk_at(central, disk, now);
    Ok(())
}

/// Remove a disk from the central index: its movies and TV shows leave (the
/// others keep their order), its record goes, and the tables, collections
/// and statistics are rebuilt. Returns how many movies and TV shows left.
pub fn remove_disk(central: &mut CentralIndex, label: &str) -> (r: (usize, usize))
    requires
        old(central).movies@.len() + old(central).tvshows@.len() < usize::MAX,
    ensures
        final(central).movies@ == old(central).movies@.filter(movie_off_disk(label@)),
        final(central).tvshows@ == old(central).tvshows@.filter(show_off_disk(label@)),
        final(central).disks.view() == old(central).disks.view().remove(label@),
        r.0 == old(central).movies@.len() - final(central).movies@.len(),
        r.1 == old(central).tvshows@.len() - final(central).tvshows@.len(),
        index_consistent(*final(central)),
        final(central).version == old(central).version,
        final(central).created_at == old(central).created_at,
        final(central).updated_at == old(central).updated_at,
{
    let key = label.to_string();
    let movies_before = central.movies.len();
    let shows_before = central.tvshows.len();
    retain_movies_off(&mut central.movies, &key);
    retain_shows_off(&mut central.tvshows, &key);
    central.disks.remove(&key);
    proof {
        old(central).movies@.filter_lemma(movie_off_disk(label@));
        old(central).tvshows@.filter_lemma(show_off_disk(label@));
    }
    let removed_movies = movies_before - central.movies.len();
    let removed_shows = shows_before - central.tvshows.len();
    central.rebuild_indexes();
    central.update_statistics();
    (removed_movies, removed_shows)
}

/// `order` lists, once each, the indices `i` with `pick[i]`, by rank from
/// high to low and, among equal ranks, by index: a stable sort, from high
/// to low, of the picked items.
pub open spec fn desc_order(ranks: Seq<int>, pick: Seq<bool>, order: Seq<usize>) -> bool {
    &&& forall|k: int| 0 <= k < order.len() ==> #[trigger] order[k] < ranks.len() && order[k] < pick.len() && pick[order[k] as int]
    &&& forall|i: int| 0 <= i < ranks.len() && 0 <= i < pick.len() && #[trigger] pick[i] ==> exists|k: int| 0 <= k < order.len() && order[k] == i
    &&& forall|a: int, b: int|
        #![trigger order[a], order[b]]
        0 <= a < b < order.len() ==> ranks[order[a] as int] > ranks[order[b] as int] || (ranks[order[a] as int]
            == ranks[order[b] as int] && order[a] < order[b])
}

/// `order` is the stable high-to-low order of the picked indices below `i`.
pub open spec fn sorted_below(rk: Seq<int>, pick: Seq<bool>, order: Seq<usize>, i: int) -> bool {
    &&& forall|k: int| 0 <= k < order.len() ==> #[trigger] order[k] < i && pick[order[k] as int]
    &&& forall|j: int| 0 <= j < i && #[trigger] pick[j] ==> exists|k: int| 0 <= k < order.len() && order[k] == j
    &&& forall|a: int, b: int|
        #![trigger order[a], order[b]]
        0 <= a < b < order.len() ==> rk[order[a] as int] > rk[order[b] as int] || (rk[order[a] as int]
            == rk[order[b] as int] && order[a] < order[b])
}

proof fn lemma_insert_sorted(rk: Seq<int>, pick: Seq<bool>, old_order: Seq<usize>, i: usize, pos: int)
    requires
        sorted_below(rk, pick, old_order, i as int),
        i < pick.len(),
        pick[i as int],
        0 <= pos <= old_order.len(),
        forall|q: int| 0 <= q < pos ==> rk[#[trigger] old_order[q] as int] >= rk[i as int],
        forall|q: int| pos <= q < old_order.len() ==> rk[#[trigger] old_order[q] as int] < rk[i as int],
    ensures
        sorted_below(rk, pick, old_order.insert(pos, i), i + 1),
{
    let n = old_order.insert(pos, i);
    assert forall|k: int| 0 <= k < n.len() implies #[trigger] n[k] < i + 1 && pick[n[k] as int] by {
        if k < pos {
            assert(n[k] == old_order[k]);
        } else if k > pos {
            assert(n[k] == old_order[k - 1]);
        }
    }
    assert forall|j: int| 0 <= j < i + 1 && #[trigger] pick[j] implies exists|k: int|
        0 <= k < n.len() && n[k] == j by {
        if j == i {
            assert(n[pos] == j);
        } else {
            let k = choose|k: int| 0 <= k < old_order.len() && old_order[k] == j;
            if k < pos {
                assert(n[k] == j);
            } else {
                assert(n[k + 1] == j);
            }
        }
    }
    assert forall|a: int, b: int|
        #![trigger n[a], n[b]]
        0 <= a < b < n.len() implies rk[n[a] as int] > rk[n[b] as int] || (rk[n[a] as int]
            == rk[n[b] as int] && n[a] < n[b]) by {
        if a < pos && b < pos {
            assert(n[a] == old_order[a] && n[b] == old_order[b]);
        } else if a < pos && b == pos {
            assert(n[a] == old_order[a]);
        } else if a < pos {
            assert(n[a] == old_order[a] && n[b] == old_order[b - 1]);
        } else if a == pos {
            assert(n[b] == old_order[b - 1]);
        } else {
            assert(n[a] == old_order[a - 1] && n[b] == old_order[b - 1]);
        }
    }
}

/// Put the picked index `i` in its place.
fn insert_sorted(order: &mut Vec<usize>, ranks: &Vec<i32>, Ghost(pick): Ghost<Seq<bool>>, i: usize)
    requires
        ranks@.len() == pick.len(),
        i < ranks@.len(),
        pick[i as int],
        sorted_below(ranks@.map_values(|r: i32| r as int), pick, old(order)@, i as int),
    ensures
        sorted_below(ranks@.map_values(|r: i32| r as int), pick, final(order)@, i + 1),
{
    let ghost rk = ranks@.map_values(|r: i32| r as int);
    let r = ranks[i];
    let mut pos: usize = 0;
    while pos < order.len() && ranks[order[pos]] >= r
        invariant
            rk == ranks@.map_values(|r: i32| r as int),
            ranks@.len() == pick.len(),
            i < ranks@.len(),
            r == ranks@[i as int],
            pos <= order@.len(),
            sorted_below(rk, pick, order@, i as int),
            forall|q: int| 0 <= q < pos ==> rk[#[trigger] order@[q] as int] >= r,
        decreases order@.len() - pos,
    {
        pos = pos + 1;
    }
    let ghost old_order = order@;
    proof {
        assert forall|q: int| pos <= q < old_order.len() implies rk[#[trigger] old_order[q] as int]
            < rk[i as int] by {
            assert(rk[old_order[pos as int] as int] < r);
            if q > pos {
                assert(rk[old_order[pos as int] as int] >= rk[old_order[q] as int]);
            }
        }
        lemma_insert_sorted(rk, pick, old_order, i, pos as int);
    }
    order.insert(pos, i);
}

/// The picked indices in a stable order from the highest rank down.
fn sort_desc(ranks: &Vec<i32>, pick: &Vec<bool>) -> (order: Vec<usize>)
    requires
        ranks@.len() == pick@.len(),
    ensures
        desc_order(ranks@.map_values(|r: i32| r as int), pick@, order@),
{
    let ghost rk = ranks@.map_values(|r: i32| r as int);
    let mut order: Vec<usize> = Vec::new();
    let mut i: usize = 0;
    while i < ranks.len()
        invariant
            rk == ranks@.map_values(|r: i32| r as int),
            ranks@.len() == pick@.len(),
            i <= ranks@.len(),
            sorted_below(rk, pick@, order@, i as int),
        decreases ranks@.len() - i,
    {
        if pick[i] {
            insert_sorted(&mut order, ranks, Ghost(pick@), i);
        } else {
            proof {
                assert forall|j: int| 0 <= j < i + 1 && #[trigger] pick@[j] implies exists|k: int|
                    0 <= k < order@.len() && order@[k] == j by {
                    assert(j != i);
                }
            }
        }
        i = i + 1;
    }
    order
}

/// A key of `table` that holds `q`, ignoring case, lists `id`.
#[verifier::opaque]
pub open spec fn name_hit(table: Map<Seq<char>, Vec<String>>, q: Seq<char>, id: Seq<char>) -> bool {
    exists|k: Seq<char>|
        #[trigger] table.contains_key(k) && contains_seq(str_lowercase(k), str_lowercase(q))
            && ids_view(table[k]).contains(id)
}

/// The key `k` of `table` lists `id`.
pub open spec fn key_hit<K>(table: Map<K, Vec<String>>, k: K, id: Seq<char>) -> bool {
    table.contains_key(k) && ids_view(table[k]).contains(id)
}

/// A year from `start` to `end` lists `id`.
#[verifier::opaque]
pub open spec fn range_hit(table: Map<u64, Vec<String>>, start: u16, end: u16, id: Seq<char>) -> bool {
    exists|y: u64| start <= y <= end && #[trigger] key_hit(table, y, id)
}

/// The lookup filters of a search, as plain values.
pub struct SearchFilters {
    pub actor: Option<Seq<char>>,
    pub director: Option<Seq<char>>,
    pub genre: Option<Seq<char>>,
    pub country: Option<Seq<char>>,
    pub year: Option<u16>,
    pub year_range: Option<(u16, u16)>,
}

/// Every filter given lets `id` through; the director filter applies when
/// `with_director` holds (movies), a year overrides a year range, and a
/// country is looked up in upper case.
pub open spec fn id_wanted(ix: Indexes, f: SearchFilters, with_director: bool, id: Seq<char>) -> bool {
    &&& (f.actor matches Some(a) ==> name_hit(ix.by_actor.view(), a, id))
    &&& (with_director && f.director is Some ==> name_hit(
        ix.by_director.view(),
        f.director->0,
        id,
    ))
    &&& (f.genre matches Some(g) ==> name_hit(ix.by_genre.view(), g, id))
    &&& (f.country matches Some(c) ==> key_hit(ix.by_country.view(), str_uppercase(c), id))
    &&& (f.year matches Some(y) ==> key_hit(ix.by_year.view(), y as u64, id))
    &&& (f.year is None ==> match f.year_range {
        Some((start, end)) => range_hit(ix.by_year.view(), start, end, id),
        None => true,
    })
}

/// The title, or the original title, holds `q`, ignoring case.
pub open spec fn title_hit(q: Option<Seq<char>>, title: Seq<char>, original: Option<String>) -> bool {
    match q {
        None => true,
        Some(t) => contains_seq(str_lowercase(title), str_lowercase(t)) || (original matches Some(o)
            && contains_seq(str_lowercase(o@), str_lowercase(t))),
    }
}

/// A year as a rank for sorting: no year comes after every year.
pub open spec fn year_rank(y: Option<u16>) -> int {
    match y {
        Some(v) => v as int,
        None => -1,
    }
}

pub open spec fn str_opt(o: Option<&str>) -> Option<Seq<char>> {
    match o {
        Some(s) => Some(s@),
        None => None,
    }
}

pub open spec fn filters_of(
    actor: Option<&str>,
    director: Option<&str>,
    year: Option<u16>,
    year_range: Option<(u16, u16)>,
    genre: Option<&str>,
    country: Option<&str>,
) -> SearchFilters {
    SearchFilters {
        actor: str_opt(actor),
        director: str_opt(director),
        genre: str_opt(genre),
        country: str_opt(country),
        year,
        year_range,
    }
}

pub open spec fn movie_wanted(ix: Indexes, f: SearchFilters, title: Option<Seq<char>>, m: MovieEntry) -> bool {
    id_wanted(ix, f, true, m.id@) && title_hit(title, m.title@, m.original_title)
}

/// TV shows are never found by director: a director query lists movies only.
pub open spec fn show_wanted(ix: Indexes, f: SearchFilters, title: Option<Seq<char>>, t: TvShowEntry) -> bool {
    f.director is None && id_wanted(ix, f, false, t.id@) && title_hit(title, t.title@, t.original_title)
}

/// Collections whose name holds `q`, ignoring case.
pub open spec fn collection_wanted(q: Seq<char>) -> spec_fn(CollectionInfo) -> bool {
    |c: CollectionInfo| contains_seq(str_lowercase(c.name@), str_lowercase(q))
}

/// `id` is in the list.
fn list_has(ids: &Vec<String>, id: &String) -> (r: bool)
    ensures
        r == ids_view(*ids).contains(id@),
{
    let mut i: usize = 0;
    while i < ids.len()
        invariant
            i <= ids@.len(),
            forall|j: int| 0 <= j < i ==> ids@[j]@ != id@,
        decreases ids@.len() - i,
    {
        if ids[i] == *id {
            assert(ids_view(*ids)[i as int] == id@);
            return true;
        }
        i = i + 1;
    }
    assert forall|j: int| 0 <= j < ids_view(*ids).len() implies ids_view(*ids)[j] != id@ by {
        assert(ids_view(*ids)[j] == ids@[j]@);
    }
    false
}

/// Append copies of `more` to `acc`.
fn append_ids(acc: &mut Vec<String>, more: &Vec<String>)
    ensures
        ids_view(*final(acc)) == ids_view(*old(acc)) + ids_view(*more),
{
    let mut i: usize = 0;
    while i < more.len()
        invariant
            i <= more@.len(),
            ids_view(*acc) == ids_view(*old(acc)) + ids_view(*more).take(i as int),
        decreases more@.len() - i,
    {
        let ghost prev = acc@;
        acc.push(more[i].clone());
        assert(ids_view(*acc) =~= prev.map_values(|s: String| s@).push(more@[i as int]@));
        assert(ids_view(*acc) =~= ids_view(*old(acc)) + ids_view(*more).take(i + 1));
        i = i + 1;
    }
    assert(ids_view(*more).take(more@.len() as int) =~= ids_view(*more));
}

/// The ids under every key that holds the query `q`, ignoring case.
fn hits_by_name(table: &KeyMap<String, Vec<String>>, q: &str) -> (r: Vec<String>)
    ensures
        forall|id: Seq<char>| #[trigger] ids_view(r).contains(id) == name_hit(table.view(), q@, id),
{
    table.view_facts();
    reveal(name_hit);
    let qv = chars_of(q);
    let ql = to_lower(&qv);
    let es = table.entries();
    let mut acc: Vec<String> = Vec::new();
    let mut i: usize = 0;
    while i < es.len()
        invariant
            es@ == table.entry_seq(),
            ql@ == str_lowercase(q@),
            i <= es@.len(),
            forall|id: Seq<char>| #[trigger] ids_view(acc).contains(id) == exists|j: int|
                0 <= j < i && contains_seq(str_lowercase(es@[j].0@), ql@) && ids_view(
                    es@[j].1,
                ).contains(id),
        decreases es@.len() - i,
    {
        let kv = chars_of(es[i].0.as_str());
        let kl = to_lower(&kv);
        let ghost before = ids_view(acc);
        if contains(&kl, &ql) {
            append_ids(&mut acc, &es[i].1);
        }
        proof {
            assert forall|id: Seq<char>| #[trigger] ids_view(acc).contains(id) == exists|j: int|
                0 <= j < i + 1 && contains_seq(str_lowercase(es@[j].0@), ql@) && ids_view(
                    es@[j].1,
                ).contains(id) by {
                if ids_view(acc).contains(id) && !before.contains(id) {
                    let n = choose|n: int| 0 <= n < ids_view(acc).len() && ids_view(acc)[n] == id;
                    assert(ids_view(es@[i as int].1)[n - before.len()] == id);
                }
                if before.contains(id) {
                    let n = choose|n: int| 0 <= n < before.len() && before[n] == id;
                    assert(ids_view(acc)[n] == id);
                }
                if exists|j: int|
                    0 <= j < i + 1 && contains_seq(str_lowercase(es@[j].0@), ql@) && ids_view(
                        es@[j].1,
                    ).contains(id) {
                    let j = choose|j: int|
                        0 <= j < i + 1 && contains_seq(str_lowercase(es@[j].0@), ql@) && ids_view(
                            es@[j].1,
                        ).contains(id);
                    if j == i && !before.contains(id) {
                        let n = choose|n: int| 0 <= n < ids_view(es@[j].1).len() && ids_view(es@[j].1)[n] == id;
                        assert(ids_view(acc)[before.len() + n] == id);
                    }
                }
            }
        }
        i = i + 1;
    }
    proof {
        assert forall|id: Seq<char>| #[trigger] ids_view(acc).contains(id) == name_hit(table.view(), q@, id) by {
            if ids_view(acc).contains(id) {
                let j = choose|j: int|
                    0 <= j < es@.len() && contains_seq(str_lowercase(es@[j].0@), ql@) && ids_view(
                        es@[j].1,
                    ).contains(id);
                assert(table.view().contains_key(es@[j].0@));
                assert(table.view()[es@[j].0@] == es@[j].1);
            }
            if name_hit(table.view(), q@, id) {
                let k = choose|k: Seq<char>|
                    #[trigger] table.view().contains_key(k) && contains_seq(str_lowercase(k), str_lowercase(q@))
                        && ids_view(table.view()[k]).contains(id);
                let j = choose|j: int| 0 <= j < es@.len() && es@[j].0@ == k;
                assert(table.view()[es@[j].0@] == es@[j].1);
            }
        }
    }
    acc
}

/// The ids under the key `k`; none when the key is absent.
fn key_list<K: MapKey>(table: &KeyMap<K, Vec<String>>, k: &K) -> (r: Vec<String>)
    ensures
        forall|id: Seq<char>| #[trigger] ids_view(r).contains(id) == key_hit(table.view(), k.key(), id),
{
    match table.lookup(k) {
        Some(ids) => copy_strings(ids),
        None => {
            let r: Vec<String> = Vec::new();
            assert forall|id: Seq<char>| #[trigger] ids_view(r).contains(id) == key_hit(
                table.view(),
                k.key(),
                id,
            ) by {
                assert(ids_view(r).len() == 0);
            }
            r
        },
    }
}

/// The ids under every year from `start` to `end`.
fn range_list(table: &KeyMap<u64, Vec<String>>, start: u16, end: u16) -> (r: Vec<String>)
    ensures
        forall|id: Seq<char>| #[trigger] ids_view(r).contains(id) == range_hit(table.view(), start, end, id),
{
    reveal(range_hit);
    let mut acc: Vec<String> = Vec::new();
    let mut y: u32 = start as u32;
    while y <= end as u32
        invariant
            start <= y,
            y <= end as u32 + 1 || y == start as u32,
            forall|id: Seq<char>| #[trigger] ids_view(acc).contains(id) == exists|x: u64|
                start <= x < y && #[trigger] key_hit(table.view(), x, id),
        decreases end as u32 + 1 - y,
    {
        let key: u64 = y as u64;
        let ghost before = ids_view(acc);
        match table.lookup(&key) {
            Some(ids) => append_ids(&mut acc, ids),
            None => {},
        }
        proof {
            assert forall|id: Seq<char>| #[trigger] ids_view(acc).contains(id) == exists|x: u64|
                start <= x < y + 1 && #[trigger] key_hit(table.view(), x, id) by {
                if ids_view(acc).contains(id) && !before.contains(id) {
                    let n = choose|n: int| 0 <= n < ids_view(acc).len() && ids_view(acc)[n] == id;
                    assert(ids_view(table.view()[key])[n - before.len()] == id);
                    assert(key_hit(table.view(), key, id));
                }
                if before.contains(id) {
                    let n = choose|n: int| 0 <= n < before.len() && before[n] == id;
                    assert(ids_view(acc)[n] == id);
                }
                if exists|x: u64| start <= x < y + 1 && #[trigger] key_hit(table.view(), x, id) {
                    let x = choose|x: u64| start <= x < y + 1 && #[trigger] key_hit(table.view(), x, id);
                    if x == y && !before.contains(id) {
                        let n = choose|n: int|
                            0 <= n < ids_view(table.view()[key]).len() && ids_view(table.view()[key])[n] == id;
                        assert(ids_view(acc)[before.len() + n] == id);
                    }
                }
            }
        }
        y = y + 1;
    }
    proof {
        assert forall|id: Seq<char>| #[trigger] ids_view(acc).contains(id) == range_hit(
            table.view(),
            start,
            end,
            id,
        ) by {
            if range_hit(table.view(), start, end, id) {
                let x = choose|x: u64| start <= x <= end && #[trigger] key_hit(table.view(), x, id);
                assert(start <= x < y);
            }
        }
    }
    acc
}

/// `id` passes a filter list (no list: no filter).
fn passes(h: &Option<Vec<String>>, id: &String) -> (r: bool)
    ensures
        r == match h {
            None => true,
            Some(l) => ids_view(*l).contains(id@),
        },
{
    match h {
        None => true,
        Some(l) => list_has(l, id),
    }
}

/// Given the lower-case query and the lower-case title and original title:
/// whether either title holds the query.
pub fn lowered_title_hit(q: &Vec<char>, title_lower: &Vec<char>, original_lower: &Option<Vec<char>>) -> (r: bool)
    ensures
        r == (contains_seq(title_lower@, q@) || (*original_lower matches Some(o) && contains_seq(o@, q@))),
{
    if contains(title_lower, q) {
        true
    } else {
        match original_lower {
            Some(o) => contains(o, q),
            None => false,
        }
    }
}

/// The title or the original title holds the lowercase query `ql`.
fn title_ok(ql: &Option<Vec<char>>, title: &String, original: &Option<String>) -> (r: bool)
    ensures
        r == match ql {
            None => true,
            Some(q) => contains_seq(str_lowercase(title@), q@) || (*original matches Some(o)
                && contains_seq(str_lowercase(o@), q@)),
        },
{
    match ql {
        None => true,
        Some(q) => {
            let tl = to_lower(&chars_of(title.as_str()));
            let ol: Option<Vec<char>> = match original {
                Some(o) => Some(to_lower(&chars_of(o.as_str()))),
                None => None,
            };
            lowered_title_hit(q, &tl, &ol)
        },
    }
}

/// Search results.
#[derive(Debug)]
pub struct SearchResults {
    pub movies: Vec<MovieEntry>,
    pub tvshows: Vec<TvShowEntry>,
    pub collections: Vec<CollectionInfo>,
}

/// The hit list of a name filter.
fn name_filter(table: &KeyMap<String, Vec<String>>, q: Option<&str>) -> (r: Option<Vec<String>>)
    ensures
        match q {
            None => r is None,
            Some(qs) => r is Some && forall|id: Seq<char>| #[trigger] ids_view(r->0).contains(id)
                == name_hit(table.view(), qs@, id),
        },
{
    match q {
        None => None,
        Some(qs) => Some(hits_by_name(table, qs)),
    }
}

/// The movies `order` picks out, copied.
fn copy_movies(ms: &Vec<MovieEntry>, order: &Vec<usize>) -> (r: Vec<MovieEntry>)
    requires
        forall|k: int| 0 <= k < order@.len() ==> #[trigger] order@[k] < ms@.len(),
    ensures
        r@.len() == order@.len(),
        forall|k: int| 0 <= k < order@.len() ==> same_movie(#[trigger] r@[k], ms@[order@[k] as int]),
{
    let mut r: Vec<MovieEntry> = Vec::new();
    let mut k: usize = 0;
    while k < order.len()
        invariant
            k <= order@.len(),
            forall|j: int| 0 <= j < order@.len() ==> #[trigger] order@[j] < ms@.len(),
            r@.len() == k,
            forall|j: int| 0 <= j < k ==> same_movie(#[trigger] r@[j], ms@[order@[j] as int]),
        decreases order@.len() - k,
    {
        let idx = order[k];
        r.push(ms[idx].copy());
        k = k + 1;
    }
    r
}

/// The TV shows `order` picks out, copied.
fn copy_shows(ss: &Vec<TvShowEntry>, order: &Vec<usize>) -> (r: Vec<TvShowEntry>)
    requires
        forall|k: int| 0 <= k < order@.len() ==> #[trigger] order@[k] < ss@.len(),
    ensures
        r@.len() == order@.len(),
        forall|k: int| 0 <= k < order@.len() ==> same_tvshow(#[trigger] r@[k], ss@[order@[k] as int]),
{
    let mut r: Vec<TvShowEntry> = Vec::new();
    let mut k: usize = 0;
    while k < order.len()
        invariant
            k <= order@.len(),
            forall|j: int| 0 <= j < order@.len() ==> #[trigger] order@[j] < ss@.len(),
            r@.len() == k,
            forall|j: int| 0 <= j < k ==> same_tvshow(#[trigger] r@[j], ss@[order@[j] as int]),
        decreases order@.len() - k,
    {
        let idx = order[k];
        r.push(ss[idx].copy());
        k = k + 1;
    }
    r
}

/// The collections of the index, in their order, whose name holds `q`.
pub open spec fn collections_found(ix: CentralIndex, q: Seq<char>) -> Seq<CollectionInfo> {
    ix.collections.entry_seq().map_values(|e: (u64, CollectionInfo)| e.1).filter(collection_wanted(q))
}

/// Copies of the collections whose name holds `q`, ignoring case.
fn find_collections(index: &CentralIndex, q: &str) -> (r: Vec<CollectionInfo>)
    ensures
        r@.len() == collections_found(*index, q@).len(),
        forall|k: int| 0 <= k < r@.len() ==> same_collection(#[trigger] r@[k], collections_found(*index, q@)[k]),
{
    let es = index.collections.entries();
    let ghost vals = es@.map_values(|e: (u64, CollectionInfo)| e.1);
    let ghost p = collection_wanted(q@);
    let qv = chars_of(q);
    let ql = to_lower(&qv);
    let mut r: Vec<CollectionInfo> = Vec::new();
    let mut i: usize = 0;
    proof {
        reveal(Seq::filter);
        assert(vals.take(0) =~= Seq::<CollectionInfo>::empty());
    }
    while i < es.len()
        invariant
            vals == es@.map_values(|e: (u64, CollectionInfo)| e.1),
            es@ == index.collections.entry_seq(),
            p == collection_wanted(q@),
            ql@ == str_lowercase(q@),
            i <= es@.len(),
            r@.len() == vals.take(i as int).filter(p).len(),
            forall|k: int| 0 <= k < r@.len() ==> same_collection(#[trigger] r@[k], vals.take(i as int).filter(p)[k]),
        decreases es@.len() - i,
    {
        proof {
            lemma_filter_step(vals, p, i as int);
        }
        let c = &es[i].1;
        let nv = chars_of(c.name.as_str());
        let nl = to_lower(&nv);
        if contains(&nl, &ql) {
            r.push(c.copy());
        }
        i = i + 1;
    }
    proof {
        assert(vals.take(es@.len() as int) =~= vals);
    }
    r
}

/// `out` copies, in the order `order`, the movies that the search wants,
/// latest year first, keeping the index order among equal years.
pub open spec fn movies_found(
    index: CentralIndex,
    f: SearchFilters,
    title: Option<Seq<char>>,
    out: Seq<MovieEntry>,
    order: Seq<usize>,
) -> bool {
    let ms = index.movies@;
    &&& desc_order(
        ms.map_values(|m: MovieEntry| year_rank(m.year)),
        ms.map_values(|m: MovieEntry| movie_wanted(index.indexes, f, title, m)),
        order,
    )
    &&& out.len() == order.len()
    &&& forall|k: int| 0 <= k < order.len() ==> same_movie(#[trigger] out[k], ms[order[k] as int])
}

/// `out` copies, in the order `order`, the TV shows that the search wants.
pub open spec fn shows_found(
    index: CentralIndex,
    f: SearchFilters,
    title: Option<Seq<char>>,
    out: Seq<TvShowEntry>,
    order: Seq<usize>,
) -> bool {
    let ss = index.tvshows@;
    &&& desc_order(
        ss.map_values(|t: TvShowEntry| year_rank(t.year)),
        ss.map_values(|t: TvShowEntry| show_wanted(index.indexes, f, title, t)),
        order,
    )
    &&& out.len() == order.len()
    &&& forall|k: int| 0 <= k < order.len() ==> same_tvshow(#[trigger] out[k], ss[order[k] as int])
}

/// Search the central index.
///
/// The lookup filters (actor, director, genre, country, year or year
/// range) narrow the works together; a name filter matches any key that
/// holds the query, ignoring case; a director query finds movies only (no
/// TV show); the title filter matches the title or the original title,
/// ignoring case. Movies and TV shows come sorted by year, latest first
/// (works without a year last), keeping the index order among equal years.
/// With a collection query, the collections whose name holds it are listed.
#[verifier::rlimit(30)]
pub fn search(
    index: &CentralIndex,
    title: Option<&str>,
    actor: Option<&str>,
    director: Option<&str>,
    collection: Option<&str>,
    year: Option<u16>,
    year_range: Option<(u16, u16)>,
    genre: Option<&str>,
    country: Option<&str>,
) -> (r: SearchResults)
    ensures
        exists|order: Seq<usize>|
            #[trigger] movies_found(
                *index,
                filters_of(actor, director, year, year_range, genre, country),
                str_opt(title),
                r.movies@,
                order,
            ),
        exists|order: Seq<usize>|
            #[trigger] shows_found(
                *index,
                filters_of(actor, director, year, year_range, genre, country),
                str_opt(title),
                r.tvshows@,
                order,
            ),
        match collection {
            None => r.collections@.len() == 0,
            Some(q) => r.collections@.len() == collections_found(*index, q@).len() && forall|k: int|
                0 <= k < r.collections@.len() ==> same_collection(
                    #[trigger] r.collections@[k],
                    collections_found(*index, q@)[k],
                ),
        },
{
    let ghost f = filters_of(actor, director, year, year_range, genre, country);
    let ix = &index.indexes;
    let actor_hits = name_filter(&ix.by_actor, actor);
    let director_hits = name_filter(&ix.by_director, director);
    let genre_hits = name_filter(&ix.by_genre, genre);
    let country_hits: Option<Vec<String>> = match country {
        Some(c) => {
            let cv = chars_of(c);
            let up = crate::utils::text::string_of(&to_upper(&cv));
            Some(key_list(&ix.by_country, &up))
        },
        None => None,
    };
    let year_hits: Option<Vec<String>> = match year {
        Some(y) => {
            let key: u64 = y as u64;
            Some(key_list(&ix.by_year, &key))
        },
        None => match year_range {
            Some((start, end)) => Some(range_list(&ix.by_year, start, end)),
            None => None,
        },
    };
    let title_lower: Option<Vec<char>> = match title {
        Some(t) => {
            let tv = chars_of(t);
            Some(to_lower(&tv))
        },
        None => None,
    };
    let ghost tq = str_opt(title);
    // movies
    let ms = &index.movies;
    let ghost mw = ms@.map_values(|m: MovieEntry| movie_wanted(index.indexes, f, tq, m));
    let ghost mr = ms@.map_values(|m: MovieEntry| year_rank(m.year));
    let mut picks: Vec<bool> = Vec::new();
    let mut ranks: Vec<i32> = Vec::new();
    let mut i: usize = 0;
    while i < ms.len()
        invariant
            i <= ms@.len(),
            picks@.len() == i,
            ranks@.len() == i,
            f == filters_of(actor, director, year, year_range, genre, country),
            tq == str_opt(title),
            *ix == index.indexes,
            mw == ms@.map_values(|m: MovieEntry| movie_wanted(index.indexes, f, tq, m)),
            mr == ms@.map_values(|m: MovieEntry| year_rank(m.year)),
            forall|j: int| 0 <= j < i ==> #[trigger] picks@[j] == mw[j],
            forall|j: int| 0 <= j < i ==> #[trigger] ranks@[j] as int == mr[j],
            match actor {
                None => actor_hits is None,
                Some(qs) => actor_hits is Some && forall|id: Seq<char>| #[trigger] ids_view(actor_hits->0).contains(id)
                    == name_hit(ix.by_actor.view(), qs@, id),
            },
            match director {
                None => director_hits is None,
                Some(qs) => director_hits is Some && forall|id: Seq<char>| #[trigger] ids_view(director_hits->0).contains(id)
                    == name_hit(ix.by_director.view(), qs@, id),
            },
            match genre {
                None => genre_hits is None,
                Some(qs) => genre_hits is Some && forall|id: Seq<char>| #[trigger] ids_view(genre_hits->0).contains(id)
                    == name_hit(ix.by_genre.view(), qs@, id),
            },
            match country {
                None => country_hits is None,
                Some(c) => country_hits is Some && forall|id: Seq<char>| #[trigger] ids_view(country_hits->0).contains(id)
                    == key_hit(ix.by_country.view(), str_uppercase(c@), id),
            },
            match year {
                Some(y) => year_hits is Some && forall|id: Seq<char>| #[trigger] ids_view(year_hits->0).contains(id)
                    == key_hit(ix.by_year.view(), y as u64, id),
                None => match year_range {
                    Some((a, b)) => year_hits is Some && forall|id: Seq<char>| #[trigger] ids_view(year_hits->0).contains(id)
                        == range_hit(ix.by_year.view(), a, b, id),
                    None => year_hits is None,
                },
            },
            match title {
                None => title_lower is None,
                Some(t) => title_lower is Some && title_lower->0@ == str_lowercase(t@),
            },
        decreases ms@.len() - i,
    {
        let m = &ms[i];
        let pa = passes(&actor_hits, &m.id);
        let pd = passes(&director_hits, &m.id);
        let pg = passes(&genre_hits, &m.id);
        let pc = passes(&country_hits, &m.id);
        let py = passes(&year_hits, &m.id);
        let pt = title_ok(&title_lower, &m.title, &m.original_title);
        let pick = pa && pd && pg && pc && py && pt;
        picks.push(pick);
        let rank: i32 = match m.year {
            Some(y) => y as i32,
            None => -1,
        };
        ranks.push(rank);
        i = i + 1;
    }
    proof {
        assert(ranks@.map_values(|r: i32| r as int) =~= mr);
        assert(picks@ =~= mw);
    }
    let morder = sort_desc(&ranks, &picks);
    let movies = copy_movies(ms, &morder);
    // TV shows
    let ss = &index.tvshows;
    let ghost sw = ss@.map_values(|t: TvShowEntry| show_wanted(index.indexes, f, tq, t));
    let ghost sr = ss@.map_values(|t: TvShowEntry| year_rank(t.year));
    let no_director = director.is_none();
    let mut spicks: Vec<bool> = Vec::new();
    let mut sranks: Vec<i32> = Vec::new();
    let mut j: usize = 0;
    while j < ss.len()
        invariant
            no_director == (director is None),
            j <= ss@.len(),
            spicks@.len() == j,
            sranks@.len() == j,
            f == filters_of(actor, director, year, year_range, genre, country),
            tq == str_opt(title),
            *ix == index.indexes,
            sw == ss@.map_values(|t: TvShowEntry| show_wanted(index.indexes, f, tq, t)),
            sr == ss@.map_values(|t: TvShowEntry| year_rank(t.year)),
            forall|k: int| 0 <= k < j ==> #[trigger] spicks@[k] == sw[k],
            forall|k: int| 0 <= k < j ==> #[trigger] sranks@[k] as int == sr[k],
            match actor {
                None => actor_hits is None,
                Some(qs) => actor_hits is Some && forall|id: Seq<char>| #[trigger] ids_view(actor_hits->0).contains(id)
                    == name_hit(ix.by_actor.view(), qs@, id),
            },
            match genre {
                None => genre_hits is None,
                Some(qs) => genre_hits is Some && forall|id: Seq<char>| #[trigger] ids_view(genre_hits->0).contains(id)
                    == name_hit(ix.by_genre.view(), qs@, id),
            },
            match country {
                None => country_hits is None,
                Some(c) => country_hits is Some && forall|id: Seq<char>| #[trigger] ids_view(country_hits->0).contains(id)
                    == key_hit(ix.by_country.view(), str_uppercase(c@), id),
            },
            match year {
                Some(y) => year_hits is Some && forall|id: Seq<char>| #[trigger] ids_view(year_hits->0).contains(id)
                    == key_hit(ix.by_year.view(), y as u64, id),
                None => match year_range {
                    Some((a, b)) => year_hits is Some && forall|id: Seq<char>| #[trigger] ids_view(year_hits->0).contains(id)
                        == range_hit(ix.by_year.view(), a, b, id),
                    None => year_hits is None,
                },
            },
            match title {
                None => title_lower is None,
                Some(t) => title_lower is Some && title_lower->0@ == str_lowercase(t@),
            },
        decreases ss@.len() - j,
    {
        let t = &ss[j];
        let pa = passes(&actor_hits, &t.id);
        let pg = passes(&genre_hits, &t.id);
        let pc = passes(&country_hits, &t.id);
        let py = passes(&year_hits, &t.id);
        let pt = title_ok(&title_lower, &t.title, &t.original_title);
        let pick = no_director && pa && pg && pc && py && pt;
        spicks.push(pick);
        let rank: i32 = match t.year {
            Some(y) => y as i32,
            None => -1,
        };
        sranks.push(rank);
        j = j + 1;
    }
    proof {
        assert(sranks@.map_values(|r: i32| r as int) =~= sr);
        assert(spicks@ =~= sw);
    }
    let sorder = sort_desc(&sranks, &spicks);
    let tvshows = copy_shows(ss, &sorder);
    let collections = match collection {
        Some(q) => find_collections(index, q),
        None => Vec::new(),
    };
    let r = SearchResults { movies, tvshows, collections };
    assert(movies_found(
        *index,
        filters_of(actor, director, year, year_range, genre, country),
        str_opt(title),
        r.movies@,
        morder@,
    ));
    assert(shows_found(
        *index,
        filters_of(actor, director, year, year_range, genre, country),
        str_opt(title),
        r.tvshows@,
        sorder@,
    ));
    r
}

// ------------------------------------------------------------ disk labels

/// Index of the first `/` in `s`, or -1.
pub open spec fn first_slash(s: Seq<char>) -> int
    decreases s.len(),
{
    if s.len() == 0 {
        -1
    } else if s[0] == '/' {
        0
    } else {
        let r = first_slash(s.drop_first());
        if r < 0 {
            -1
        } else {
            r + 1
        }
    }
}

pub proof fn lemma_first_slash(s: Seq<char>)
    ensures
        -1 <= first_slash(s) < s.len(),
        first_slash(s) >= 0 ==> s[first_slash(s)] == '/',
        forall|m: int| 0 <= m < s.len() && (first_slash(s) < 0 || m < first_slash(s)) ==> s[m] != '/',
    decreases s.len(),
{
    if s.len() > 0 && s[0] != '/' {
        lemma_first_slash(s.drop_first());
        assert forall|m: int| 0 <= m < s.len() && (first_slash(s) < 0 || m < first_slash(s)) implies s[m] != '/' by {
            if m > 0 {
                assert(s[m] == s.drop_first()[m - 1]);
            }
        }
    }
}

/// The pieces of `s` between `/` characters, as `str::split('/')` gives them.
pub open spec fn split_slash(s: Seq<char>) -> Seq<Seq<char>>
    decreases s.len(),
{
    let i = first_slash(s);
    if i < 0 {
        seq![s]
    } else {
        proof {
            lemma_first_slash(s);
        }
        seq![s.subrange(0, i)] + split_slash(s.subrange(i + 1, s.len() as int))
    }
}

/// All pieces of `s` between `/` characters.
pub fn split_on_slash(s: &Vec<char>) -> (r: Vec<Vec<char>>)
    ensures
        r@.len() == split_slash(s@).len(),
        forall|k: int| 0 <= k < r@.len() ==> #[trigger] r@[k]@ == split_slash(s@)[k],
{
    let mut out: Vec<Vec<char>> = Vec::new();
    let mut start: usize = 0;
    let mut i: usize = 0;
    let ghost done: Seq<Seq<char>> = Seq::empty();
    assert(s@.subrange(0, s@.len() as int) =~= s@);
    while i < s.len()
        invariant
            start <= i <= s@.len(),
            out@.len() == done.len(),
            forall|k: int| 0 <= k < out@.len() ==> #[trigger] out@[k]@ == done[k],
            done + split_slash(s@.subrange(start as int, s@.len() as int)) == split_slash(s@),
            forall|m: int| start <= m < i ==> s@[m] != '/',
        decreases s@.len() - i,
    {
        if s[i] == '/' {
            let ghost t = s@.subrange(start as int, s@.len() as int);
            proof {
                lemma_first_slash(t);
                assert(t[i - start] == '/');
                assert forall|m: int| 0 <= m < i - start implies t[m] != '/' by {
                    assert(t[m] == s@[start + m]);
                }
                assert(first_slash(t) == i - start);
                assert(t.subrange(0, i - start) =~= s@.subrange(start as int, i as int));
                assert(t.subrange(i - start + 1, t.len() as int) =~= s@.subrange(i + 1, s@.len() as int));
                done = done.push(s@.subrange(start as int, i as int));
                assert(done + split_slash(s@.subrange(i + 1, s@.len() as int)) =~= split_slash(s@));
            }
            out.push(crate::utils::text::slice(s, start, i));
            start = i + 1;
        }
        i = i + 1;
    }
    let ghost t = s@.subrange(start as int, s@.len() as int);
    proof {
        lemma_first_slash(t);
        assert forall|m: int| 0 <= m < t.len() implies t[m] != '/' by {
            assert(t[m] == s@[start + m]);
        }
        assert(first_slash(t) < 0);
        done = done.push(t);
    }
    out.push(crate::utils::text::slice(s, start, s.len()));
    proof {
        assert(done =~= split_slash(s@));
    }
    out
}

/// The disk label of a mount path: the piece after the user under
/// `/run/media/<user>/` or `/media/<user>/`, the piece under `/mnt/`, or
/// else the last path component.
pub open spec fn disk_label_of(p: Seq<char>) -> Option<Seq<char>> {
    let parts = split_slash(p);
    if starts_with_seq(p, "/run/media/"@) && parts.len() >= 5 {
        Some(parts[4])
    } else if starts_with_seq(p, "/media/"@) && parts.len() >= 4 {
        Some(parts[3])
    } else if starts_with_seq(p, "/mnt/"@) && parts.len() >= 3 {
        Some(parts[2])
    } else {
        file_name(p)
    }
}

/// Detect the disk label from a mount path.
///
/// For paths like `/run/media/johnny/JMedia_M05/Movies`, returns `JMedia_M05`.
pub fn detect_disk_label(path: &str) -> (r: Option<String>)
    ensures
        match r {
            Some(l) => disk_label_of(path@) == Some(l@),
            None => disk_label_of(path@) is None,
        },
{
    let p = chars_of(path);
    let parts = split_on_slash(&p);
    let run_media = chars_of("/run/media/");
    let media = chars_of("/media/");
    let mnt = chars_of("/mnt/");
    if starts_with(&p, &run_media) && parts.len() >= 5 {
        return Some(string_of(&parts[4]));
    }
    if starts_with(&p, &media) && parts.len() >= 4 {
        return Some(string_of(&parts[3]));
    }
    if starts_with(&p, &mnt) && parts.len() >= 3 {
        return Some(string_of(&parts[2]));
    }
    match file_name_of(&p) {
        Some(n) => Some(string_of(&n)),
        None => None,
    }
}

/// The ISO 3166-1 code of a lowercase country name that the index knows.
pub open spec fn country_alias(lower: Seq<char>) -> Option<Seq<char>> {
    if lower == "united states"@ || lower == "usa"@ || lower == "united states of america"@ {
        Some("US"@)
    } else if lower == "china"@ || lower == "中国"@ {
        Some("CN"@)
    } else if lower == "united kingdom"@ || lower == "uk"@ || lower == "great britain"@ {
        Some("GB"@)
    } else if lower == "japan"@ || lower == "日本"@ {
        Some("JP"@)
    } else if lower == "korea"@ || lower == "south korea"@ || lower == "韩国"@ {
        Some("KR"@)
    } else if lower == "france"@ || lower == "法国"@ {
        Some("FR"@)
    } else if lower == "germany"@ || lower == "德国"@ {
        Some("DE"@)
    } else if lower == "india"@ || lower == "印度"@ {
        Some("IN"@)
    } else if lower == "italy"@ || lower == "意大利"@ {
        Some("IT"@)
    } else if lower == "spain"@ || lower == "西班牙"@ {
        Some("ES"@)
    } else if lower == "canada"@ || lower == "加拿大"@ {
        Some("CA"@)
    } else if lower == "australia"@ || lower == "澳大利亚"@ {
        Some("AU"@)
    } else if lower == "russia"@ || lower == "俄罗斯"@ {
        Some("RU"@)
    } else if lower == "hong kong"@ || lower == "香港"@ {
        Some("HK"@)
    } else if lower == "taiwan"@ || lower == "台湾"@ {
        Some("TW"@)
    } else {
        None
    }
}

/// The code a country name is stored under: its ISO code when the name is
/// known (ignoring case), else the name as given.
pub open spec fn country_code(name: Seq<char>) -> Seq<char> {
    match country_alias(str_lowercase(name)) {
        Some(c) => c,
        None => name,
    }
}

/// `v` holds exactly the text `lit`.
fn is_text(v: &Vec<char>, lit: &str) -> (r: bool)
    ensures
        r == (v@ == lit@),
{
    let l = chars_of(lit);
    seq_eq(v, &l)
}

/// Convert a country name to its ISO 3166-1 alpha-2 code; an unknown name
/// (or one that is already a code) is returned as it is.
pub fn country_name_to_code(name: &str) -> (r: String)
    ensures
        r@ == country_code(name@),
{
    let nv = chars_of(name);
    let l = to_lower(&nv);
    let code: &str = if is_text(&l, "united states") || is_text(&l, "usa") || is_text(
        &l,
        "united states of america",
    ) {
        "US"
    } else if is_text(&l, "china") || is_text(&l, "中国") {
        "CN"
    } else if is_text(&l, "united kingdom") || is_text(&l, "uk") || is_text(&l, "great britain") {
        "GB"
    } else if is_text(&l, "japan") || is_text(&l, "日本") {
        "JP"
    } else if is_text(&l, "korea") || is_text(&l, "south korea") || is_text(&l, "韩国") {
        "KR"
    } else if is_text(&l, "france") || is_text(&l, "法国") {
        "FR"
    } else if is_text(&l, "germany") || is_text(&l, "德国") {
        "DE"
    } else if is_text(&l, "india") || is_text(&l, "印度") {
        "IN"
    } else if is_text(&l, "italy") || is_text(&l, "意大利") {
        "IT"
    } else if is_text(&l, "spain") || is_text(&l, "西班牙") {
        "ES"
    } else if is_text(&l, "canada") || is_text(&l, "加拿大") {
        "CA"
    } else if is_text(&l, "australia") || is_text(&l, "澳大利亚") {
        "AU"
    } else if is_text(&l, "russia") || is_text(&l, "俄罗斯") {
        "RU"
    } else if is_text(&l, "hong kong") || is_text(&l, "香港") {
        "HK"
    } else if is_text(&l, "taiwan") || is_text(&l, "台湾") {
        "TW"
    } else {
        return name.to_string();
    };
    code.to_string()
}

// ------------------------------------------------------------ locations

/// `PathBuf::join`: an absolute name replaces the path; a relative one is
/// appended after a `/`, which is not doubled and not put after an empty
/// path.
pub open spec fn path_join(base: Seq<char>, name: Seq<char>) -> Seq<char> {
    if name.len() > 0 && name[0] == '/' {
        name
    } else if base.len() == 0 || base.last() == '/' {
        base + name
    } else {
        base + seq!['/'] + name
    }
}

/// Join a relative name to a path.
pub fn join_path(base: &str, name: &str) -> (r: String)
    ensures
        r@ == path_join(base@, name@),
{
    let nv = chars_of(name);
    if nv.len() > 0 && nv[0] == '/' {
        return name.to_string();
    }
    let mut v = chars_of(base);
    if v.len() > 0 && v[v.len() - 1] != '/' {
        v.push('/');
    }
    push_str(&mut v, name);
    string_of(&v)
}

/// The directory of the organizer's files under a configuration directory.
pub open spec fn app_dir(config: Seq<char>) -> Seq<char> {
    path_join(config, "media_organizer"@)
}

/// The user's configuration directory: calls `dirs::config_dir`. It
/// depends on the environment; nothing is claimed of the answer.
#[verifier::external_body]
fn user_config_dir() -> Option<String> {
    match dirs::config_dir() {
        Some(p) => Some(p.to_string_lossy().to_string()),
        None => None,
    }
}

/// The organizer's directory under a configuration directory, if there is one.
pub fn config_dir_in(config: Option<String>) -> (r: Result<String, Error>)
    ensures
        match config {
            Some(c) => r matches Ok(d) && d@ == app_dir(c@),
            None => r matches Err(Error::Other(m)) && m@ == "Failed to get config directory"@,
        },
{
    match config {
        Some(c) => Ok(join_path(c.as_str(), "media_organizer")),
        None => Err(Error::Other("Failed to get config directory".to_string())),
    }
}

/// Path of the central index file under a configuration directory.
pub fn central_index_path_in(config: Option<String>) -> (r: Result<String, Error>)
    ensures
        match config {
            Some(c) => r matches Ok(p) && p@ == path_join(app_dir(c@), "central_index.json"@),
            None => r matches Err(Error::Other(m)) && m@ == "Failed to get config directory"@,
        },
{
    let dir = config_dir_in(config)?;
    Ok(join_path(dir.as_str(), "central_index.json"))
}

/// Path of the disk index directory under a configuration directory.
pub fn disk_indexes_dir_in(config: Option<String>) -> (r: Result<String, Error>)
    ensures
        match config {
            Some(c) => r matches Ok(p) && p@ == path_join(app_dir(c@), "disk_indexes"@),
            None => r matches Err(Error::Other(m)) && m@ == "Failed to get config directory"@,
        },
{
    let dir = config_dir_in(config)?;
    Ok(join_path(dir.as_str(), "disk_indexes"))
}

/// Path to the central index file.
pub fn central_index_path() -> (r: Result<String, Error>)
    ensures
        r matches Ok(p) ==> exists|c: Seq<char>| p@ == path_join(app_dir(c), "central_index.json"@),
        r matches Err(e) ==> e matches Error::Other(m) && m@ == "Failed to get config directory"@,
{
    let config = user_config_dir();
    let ghost cfg = config;
    let r = central_index_path_in(config);
    proof {
        if let Some(c) = cfg {
            assert(r->Ok_0@ == path_join(app_dir(c@), "central_index.json"@));
        }
    }
    r
}

/// Path to the disk indexes directory.
pub fn disk_indexes_dir() -> (r: Result<String, Error>)
    ensures
        r matches Ok(p) ==> exists|c: Seq<char>| p@ == path_join(app_dir(c), "disk_indexes"@),
        r matches Err(e) ==> e matches Error::Other(m) && m@ == "Failed to get config directory"@,
{
    let config = user_config_dir();
    let ghost cfg = config;
    let r = disk_indexes_dir_in(config);
    proof {
        if let Some(c) = cfg {
            assert(r->Ok_0@ == path_join(app_dir(c@), "disk_indexes"@));
        }
    }
    r
}

/// The mount points where a disk with this label may be found for `user`.
pub open spec fn mount_points(user: Seq<char>, label: Seq<char>) -> Seq<Seq<char>> {
    seq![
        "/run/media/"@ + user + seq!['/'] + label,
        "/media/"@ + user + seq!['/'] + label,
        "/mnt/"@ + label,
    ]
}

/// The name of the current user: calls `whoami::username`. It depends on
/// the environment; nothing is claimed of the answer.
#[verifier::external_body]
fn current_user() -> String {
    whoami::username()
}

/// The mount points of a disk for a given user.
pub fn mount_points_for(user: &str, label: &str) -> (r: Vec<String>)
    ensures
        r@.map_values(|s: String| s@) == mount_points(user@, label@),
{
    let mut a = chars_of("/run/media/");
    push_str(&mut a, user);
    let ghost a1 = a@;
    a.push('/');
    assert(a@ =~= a1 + seq!['/']);
    push_str(&mut a, label);
    let mut b = chars_of("/media/");
    push_str(&mut b, user);
    let ghost b1 = b@;
    b.push('/');
    assert(b@ =~= b1 + seq!['/']);
    push_str(&mut b, label);
    let mut c = chars_of("/mnt/");
    push_str(&mut c, label);
    let mut r: Vec<String> = Vec::new();
    r.push(string_of(&a));
    r.push(string_of(&b));
    r.push(string_of(&c));
    assert(r@.map_values(|s: String| s@) =~= mount_points(user@, label@));
    r
}

/// The mount points where a disk with this label may be found for the
/// current user; the caller checks which exist.
pub fn disk_mount_points(label: &str) -> (r: Vec<String>)
    ensures
        exists|user: Seq<char>| #[trigger] mount_points(user, label@) == r@.map_values(|s: String| s@),
{
    let user = current_user();
    mount_points_for(user.as_str(), label)
}

// ------------------------------------------------------------ scanning

/// What an NFO file turned out to describe.
#[derive(Debug)]
pub enum ParsedNfo {
    Movie(MovieEntry),
    TvShow(TvShowEntry),
}

/// The NFO file that marks a work of a media type.
pub open spec fn nfo_file_name(media_type: Seq<char>) -> Seq<char> {
    if media_type == "movies"@ {
        "movie.nfo"@
    } else {
        "tvshow.nfo"@
    }
}

/// The NFO file that marks a work of a media type.
pub fn nfo_file_for(media_type: &str) -> (r: &'static str)
    ensures
        r@ == nfo_file_name(media_type@),
{
    let mv = chars_of(media_type);
    if is_text(&mv, "movies") {
        "movie.nfo"
    } else {
        "tvshow.nfo"
    }
}

/// Parse the text of an NFO file: a `<movie>` file gives a movie, else a
/// `<tvshow>` file gives a TV show, else the format is unknown. A known
/// format fails only when no id or time can be had (see `parse_movie_nfo`).
pub fn parse_nfo_content(
    content: &str,
    disk_label: &str,
    disk_uuid: &Option<String>,
    relative_path: &str,
    size_bytes: u64,
    rating: Option<u32>,
) -> (r: Result<ParsedNfo, Error>)
    requires
        !contains_seq(content@, "<movie>"@) && contains_seq(content@, "<tvshow>"@)
            ==> show_year_readable(content@),
    ensures
        contains_seq(content@, "<movie>"@) ==> (r is Err || (r matches Ok(ParsedNfo::Movie(m)) && movie_read(
            m,
            content@,
            disk_label@,
            *disk_uuid,
            relative_path@,
            size_bytes,
            rating,
        ))),
        !contains_seq(content@, "<movie>"@) && contains_seq(content@, "<tvshow>"@) ==> (r is Err || (r matches Ok(
            ParsedNfo::TvShow(t),
        ) && show_read(t, content@, disk_label@, *disk_uuid, relative_path@, size_bytes))),
        contains_seq(content@, "<movie>"@) || contains_seq(content@, "<tvshow>"@) ==> (r matches Err(e) ==> e
            matches Error::Other(m) && (m@ == "no random bytes for an id"@ || m@ == "system time before Unix epoch"@)),
        !contains_seq(content@, "<movie>"@) && !contains_seq(content@, "<tvshow>"@) ==> (r matches Err(
            Error::Other(m),
        ) && m@ == "Unknown NFO format"@),
{
    let s = chars_of(content);
    let movie = chars_of("<movie>");
    let tvshow = chars_of("<tvshow>");
    if contains(&s, &movie) {
        match parse_movie_nfo(content, disk_label, disk_uuid, relative_path, size_bytes, rating) {
            Ok(m) => Ok(ParsedNfo::Movie(m)),
            Err(e) => Err(e),
        }
    } else if contains(&s, &tvshow) {
        match parse_tvshow_nfo(content, disk_label, disk_uuid, relative_path, size_bytes) {
            Ok(t) => Ok(ParsedNfo::TvShow(t)),
            Err(e) => Err(e),
        }
    } else {
        Err(Error::Other("Unknown NFO format".to_string()))
    }
}

/// The extensions whose files count toward a work's size.
pub open spec fn sized_extensions() -> Seq<Seq<char>> {
    seq!["mp4"@, "mkv"@, "avi"@, "mov"@, "wmv"@, "flv"@, "webm"@, "m4v"@, "ts"@]
}

/// A file whose size counts toward its work: a video extension, in any case.
pub open spec fn counts_toward_size(path: Seq<char>) -> bool {
    extension(path) is Some && sized_extensions().contains(str_lowercase(extension(path)->0))
}

/// Whether a file's size counts toward its work.
pub fn is_sized_video(path: &str) -> (r: bool)
    ensures
        r == counts_toward_size(path@),
{
    match get_extension(path) {
        Some(e) => {
            let ev = chars_of(e.as_str());
            let exts: [&str; 9] = ["mp4", "mkv", "avi", "mov", "wmv", "flv", "webm", "m4v", "ts"];
            let ghost list = sized_extensions();
            assert(exts@.map_values(|s: &str| s@) =~= list);
            let mut i: usize = 0;
            while i < 9
                invariant
                    i <= 9,
                    ev@ == e@,
                    extension(path@) is Some,
                    e@ == str_lowercase(extension(path@)->0),
                    list == sized_extensions(),
                    exts@.map_values(|s: &str| s@) == list,
                    forall|k: int| 0 <= k < i ==> list[k] != ev@,
                decreases 9 - i,
            {
                let cand = chars_of(exts[i]);
                assert(list[i as int] == exts@[i as int]@);
                if seq_eq(&cand, &ev) {
                    assert(list.contains(ev@));
                    return true;
                }
                i = i + 1;
            }
            false
        },
        None => false,
    }
}

/// Sizes of the files that count, added up with wrap-around.
pub open spec fn video_size(files: Seq<(String, u64)>) -> u64
    decreases files.len(),
{
    if files.len() == 0 {
        0
    } else {
        let rest = video_size(files.drop_last());
        if counts_toward_size(files.last().0@) {
            vstd::wrapping::u64_specs::wrapping_add(rest, files.last().1)
        } else {
            rest
        }
    }
}

/// Total size of the video files among the files of a work's directory
/// (each given with its size in bytes).
pub fn directory_video_size(files: &Vec<(String, u64)>) -> (r: u64)
    ensures
        r == video_size(files@),
{
    let mut total: u64 = 0;
    let mut i: usize = 0;
    while i < files.len()
        invariant
            i <= files@.len(),
            total == video_size(files@.take(i as int)),
        decreases files@.len() - i,
    {
        assert(files@.take(i + 1).drop_last() =~= files@.take(i as int));
        if is_sized_video(files[i].0.as_str()) {
            total = total.wrapping_add(files[i].1);
        }
        i = i + 1;
    }
    assert(files@.take(files@.len() as int) =~= files@);
    total
}

pub open spec fn parsed_movies(ps: Seq<ParsedNfo>) -> Seq<MovieEntry>
    decreases ps.len(),
{
    if ps.len() == 0 {
        seq![]
    } else {
        parsed_movies(ps.drop_last()) + match ps.last() {
            ParsedNfo::Movie(m) => seq![m],
            ParsedNfo::TvShow(_) => seq![],
        }
    }
}

pub open spec fn parsed_shows(ps: Seq<ParsedNfo>) -> Seq<TvShowEntry>
    decreases ps.len(),
{
    if ps.len() == 0 {
        seq![]
    } else {
        parsed_shows(ps.drop_last()) + match ps.last() {
            ParsedNfo::Movie(_) => seq![],
            ParsedNfo::TvShow(t) => seq![t],
        }
    }
}

proof fn lemma_parsed_front(s: Seq<ParsedNfo>)
    requires
        s.len() > 0,
    ensures
        parsed_movies(s) == (match s[0] {
            ParsedNfo::Movie(m) => seq![m],
            ParsedNfo::TvShow(_) => Seq::<MovieEntry>::empty(),
        }) + parsed_movies(s.drop_first()),
        parsed_shows(s) == (match s[0] {
            ParsedNfo::Movie(_) => Seq::<TvShowEntry>::empty(),
            ParsedNfo::TvShow(t) => seq![t],
        }) + parsed_shows(s.drop_first()),
    decreases s.len(),
{
    if s.len() == 1 {
        assert(s.drop_last() =~= Seq::<ParsedNfo>::empty());
        assert(s.drop_first() =~= Seq::<ParsedNfo>::empty());
        assert(parsed_movies(s) =~= (match s[0] {
            ParsedNfo::Movie(m) => seq![m],
            ParsedNfo::TvShow(_) => Seq::<MovieEntry>::empty(),
        }) + parsed_movies(s.drop_first()));
        assert(parsed_shows(s) =~= (match s[0] {
            ParsedNfo::Movie(_) => Seq::<TvShowEntry>::empty(),
            ParsedNfo::TvShow(t) => seq![t],
        }) + parsed_shows(s.drop_first()));
    } else {
        lemma_parsed_front(s.drop_last());
        assert(s.drop_last().drop_first() =~= s.drop_first().drop_last());
        assert(s.drop_first().last() == s.last());
        assert(s.drop_last()[0] == s[0]);
        assert(parsed_movies(s) =~= (match s[0] {
            ParsedNfo::Movie(m) => seq![m],
            ParsedNfo::TvShow(_) => Seq::<MovieEntry>::empty(),
        }) + parsed_movies(s.drop_first()));
        assert(parsed_shows(s) =~= (match s[0] {
            ParsedNfo::Movie(_) => Seq::<TvShowEntry>::empty(),
            ParsedNfo::TvShow(t) => seq![t],
        }) + parsed_shows(s.drop_first()));
    }
}

/// Sizes of the parsed works in scan order, added up with wrap-around.
pub open spec fn parsed_size(ps: Seq<ParsedNfo>) -> u64
    decreases ps.len(),
{
    if ps.len() == 0 {
        0
    } else {
        vstd::wrapping::u64_specs::wrapping_add(
            parsed_size(ps.drop_last()),
            match ps.last() {
                ParsedNfo::Movie(m) => m.size_bytes,
                ParsedNfo::TvShow(t) => t.size_bytes,
            },
        )
    }
}

/// The index of a disk scan: the works parsed from its NFO files in scan
/// order, the scanned path recorded under the media type, counts and size.
pub fn build_disk_index(
    label: &str,
    uuid: Option<String>,
    base_path: &str,
    media_type: &str,
    scanned_at: String,
    parsed: Vec<ParsedNfo>,
) -> (r: DiskIndex)
    ensures
        r.disk.label@ == label@,
        r.disk.uuid == uuid,
        r.disk.base_path@ == base_path@,
        r.disk.last_indexed == scanned_at,
        r.disk.paths.view().dom() == set![media_type@],
        r.disk.paths.view()[media_type@]@ == base_path@,
        r.movies@ == parsed_movies(parsed@),
        r.tvshows@ == parsed_shows(parsed@),
        r.disk.movie_count == r.movies@.len(),
        r.disk.tvshow_count == r.tvshows@.len(),
        r.disk.total_size_bytes == parsed_size(parsed@),
{
    let ghost ps = parsed@;
    let mut total: u64 = 0;
    let mut i: usize = 0;
    while i < parsed.len()
        invariant
            ps == parsed@,
            i <= ps.len(),
            total == parsed_size(ps.take(i as int)),
        decreases ps.len() - i,
    {
        assert(ps.take(i + 1).drop_last() =~= ps.take(i as int));
        let sz = match &parsed[i] {
            ParsedNfo::Movie(m) => m.size_bytes,
            ParsedNfo::TvShow(t) => t.size_bytes,
        };
        total = total.wrapping_add(sz);
        i = i + 1;
    }
    assert(ps.take(ps.len() as int) =~= ps);
    let mut movies: Vec<MovieEntry> = Vec::new();
    let mut tvshows: Vec<TvShowEntry> = Vec::new();
    let mut rest = parsed;
    // take the works from the back, then put them back in order
    let mut rev_movies: Vec<MovieEntry> = Vec::new();
    let mut rev_shows: Vec<TvShowEntry> = Vec::new();
    let ghost mut k: int = ps.len() as int;
    assert(ps.subrange(k, ps.len() as int) =~= Seq::<ParsedNfo>::empty());
    while rest.len() > 0
        invariant
            0 <= k <= ps.len(),
            rest@ == ps.subrange(0, k),
            rev_movies@.reverse() == parsed_movies(ps.subrange(k, ps.len() as int)),
            rev_shows@.reverse() == parsed_shows(ps.subrange(k, ps.len() as int)),
        decreases rest@.len(),
    {
        let ghost before_rest = rest@;
        let item = rest.pop().unwrap();
        proof {
            assert(item == ps[k - 1]);
            k = k - 1;
            lemma_parsed_front(ps.subrange(k, ps.len() as int));
            assert(ps.subrange(k, ps.len() as int).drop_first() =~= ps.subrange(k + 1, ps.len() as int));
            assert(rest@ =~= ps.subrange(0, k));
        }
        match item {
            ParsedNfo::Movie(m) => {
                let ghost before = rev_movies@;
                rev_movies.push(m);
                assert(rev_movies@.reverse() =~= seq![m] + before.reverse());
                assert(rev_shows@.reverse() =~= Seq::<TvShowEntry>::empty() + rev_shows@.reverse());
            },
            ParsedNfo::TvShow(t) => {
                let ghost before = rev_shows@;
                rev_shows.push(t);
                assert(rev_shows@.reverse() =~= seq![t] + before.reverse());
                assert(rev_movies@.reverse() =~= Seq::<MovieEntry>::empty() + rev_movies@.reverse());
            },
        }
    }
    assert(ps.subrange(0, ps.len() as int) =~= ps);
    assert(movies@ + rev_movies@.reverse() =~= parsed_movies(ps));
    while rev_movies.len() > 0
        invariant
            movies@ + rev_movies@.reverse() == parsed_movies(ps),
        decreases rev_movies@.len(),
    {
        let ghost before = rev_movies@;
        let m = rev_movies.pop().unwrap();
        assert(before.reverse() =~= seq![m] + rev_movies@.reverse());
        movies.push(m);
        assert(movies@ + rev_movies@.reverse() =~= parsed_movies(ps));
    }
    assert(movies@ =~= parsed_movies(ps));
    assert(tvshows@ + rev_shows@.reverse() =~= parsed_shows(ps));
    while rev_shows.len() > 0
        invariant
            tvshows@ + rev_shows@.reverse() == parsed_shows(ps),
        decreases rev_shows@.len(),
    {
        let ghost before = rev_shows@;
        let t = rev_shows.pop().unwrap();
        assert(before.reverse() =~= seq![t] + rev_shows@.reverse());
        tvshows.push(t);
        assert(tvshows@ + rev_shows@.reverse() =~= parsed_shows(ps));
    }
    assert(tvshows@ =~= parsed_shows(ps));
    let mut paths: KeyMap<String, String> = KeyMap::new();
    paths.insert(media_type.to_string(), base_path.to_string());
    proof {
        assert(paths.view().dom() =~= set![media_type@]);
    }
    let n_movies = movies.len();
    let n_shows = tvshows.len();
    DiskIndex {
        version: "1.0".to_string(),
        disk: DiskInfo {
            label: label.to_string(),
            uuid,
            last_indexed: scanned_at,
            movie_count: n_movies,
            tvshow_count: n_shows,
            total_size_bytes: total,
            base_path: base_path.to_string(),
            paths,
        },
        movies,
        tvshows,
    }
}

} // verus!
