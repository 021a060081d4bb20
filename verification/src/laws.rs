//! Properties that relate several parts of the library.

use vstd::prelude::*;
use crate::engine::parser::{episode_from_filename, episode_from_stem, filename_stem, numbers_of, number_of, organized_tv_fields};
use crate::engine::pattern::{
    bounded_digits, chinese_episode_at, chinese_episode_first, digit_run, episode_word_at, episode_word_first,
    exx_at, exx_first, exx_tail, first_from, first_index_from, is_udigit, last_from, season_episode_at,
    season_episode_first, span_u16, sxe_at, sxe_first, tv_middle_at,
};
use crate::generators::filename::{
    bracketed, episode_filename, episode_original_part, is_reserved, sanitized, show_title, video_suffix,
};
use crate::engine::executor::{after_run, validation_messages, ItemFacts, LogState};
use crate::error::Error;
use crate::models::media::{EpisodeMetadata, TvShowMetadata, VideoMetadata};
use crate::models::plan::{PlanItem, PlanItemStatus, VideoFile};
use crate::engine::planner::{path_starts_with, sample_home, sample_moves, sample_owner};
use crate::engine::indexer::path_join;
use crate::utils::chinese::normalized;
use crate::models::rollback::{
    undoes, RollbackAction, RollbackActionType, RollbackOpType, RollbackOperation,
};
use crate::utils::text::{
    all_digits, decimal, decimal2, digit_char, digit_value, digits_value, is_digit, occurs_at,
    is_ws, parse_unsigned, str_lowercase, trim, unsigned_value,
};

verus! {

/// The first bracketed part after the episode number of an episode filename:
/// the original episode name when it differs, otherwise the episode name.
pub open spec fn episode_label(episode: EpisodeMetadata) -> Seq<char> {
    match episode.original_name {
        Some(o) => if o@ != episode.name@ {
            sanitized(o@)
        } else {
            sanitized(episode.name@)
        },
        None => sanitized(episode.name@),
    }
}

pub proof fn lemma_first_index_at(s: Seq<char>, c: char, from: int, k: int)
    requires
        0 <= from <= k < s.len(),
        s[k] == c,
        forall|i: int| from <= i < k ==> s[i] != c,
    ensures
        first_index_from(s, c, from) == k,
    decreases k - from,
{
    if from < k {
        lemma_first_index_at(s, c, from + 1, k);
    }
}

pub proof fn lemma_digit_char(d: nat)
    requires
        d < 10,
    ensures
        digit_value(digit_char(d)) == d,
        is_digit(digit_char(d)),
{
    assert('0' as u32 == 48);
    assert('9' as u32 == 57);
}

pub proof fn lemma_decimal(n: nat)
    ensures
        all_digits(decimal(n)),
        digits_value(decimal(n)) == n,
        n < 10 ==> decimal(n).len() == 1,
        10 <= n < 100 ==> decimal(n).len() == 2,
        100 <= n < 1000 ==> decimal(n).len() == 3,
        decimal(n).len() >= 1,
    decreases n,
{
    lemma_digit_char(n % 10);
    if n < 10 {
        assert(seq![digit_char(n)].drop_last() =~= Seq::<char>::empty());
        assert(digits_value(decimal(n)) == digits_value(Seq::<char>::empty()) * 10 + digit_value(digit_char(n)));
    }
    if n >= 10 {
        lemma_decimal(n / 10);
        let d = decimal(n / 10);
        let e = d.push(digit_char(n % 10));
        assert(e.drop_last() =~= d);
        assert(e.last() == digit_char(n % 10));
        assert(digits_value(e) == digits_value(d) * 10 + digit_value(digit_char(n % 10)));
        assert(n == (n / 10) * 10 + n % 10);
        assert forall|i: int| 0 <= i < e.len() implies is_digit(#[trigger] e[i]) by {
            if i < d.len() {
                assert(e[i] == d[i]);
            }
        }
    }
}

pub proof fn lemma_decimal2(n: nat)
    requires
        n < 1000,
    ensures
        all_digits(decimal2(n)),
        digits_value(decimal2(n)) == n,
        n < 100 ==> decimal2(n).len() == 2,
        100 <= n ==> decimal2(n).len() == 3,
{
    lemma_decimal(n);
    lemma_digit_char(0);
    if n < 10 {
        lemma_digit_char(n);
        let s = decimal2(n);
        assert(s.drop_last() =~= seq!['0']);
        assert(seq!['0'].drop_last() =~= Seq::<char>::empty());
        assert(digits_value(Seq::<char>::empty()) == 0);
        assert(seq!['0'].last() == '0');
        assert(digit_value('0') == 0);
        assert(digits_value(seq!['0']) == 0);
        assert(s.last() == digit_char(n));
    }
}

/// A run of ASCII digits of length `k` at `i`, ended by the cap, the end of text
/// or a non-digit, is what `digit_run` counts.
pub proof fn lemma_digit_run_exact(s: Seq<char>, i: int, k: nat, cap: nat)
    requires
        0 <= i,
        i + k <= s.len(),
        k <= cap,
        forall|j: int| i <= j < i + k ==> is_digit(#[trigger] s[j]),
        k == cap || i + k == s.len() || !is_udigit(s[i + k]),
    ensures
        digit_run(s, i, cap) == k,
    decreases k,
{
    if k > 0 {
        lemma_digit_run_exact(s, i + 1, (k - 1) as nat, (cap - 1) as nat);
    }
}

pub proof fn lemma_span_u16_digits(s: Seq<char>, a: int, b: int, d: Seq<char>, n: nat)
    requires
        0 <= a <= b <= s.len(),
        s.subrange(a, b) == d,
        d.len() > 0,
        all_digits(d),
        digits_value(d) == n,
        n <= 65535,
    ensures
        span_u16(s, a, b) == Some(n),
{
    assert(d[0] != '+');
}

/// An episode filename produced by the generator is read back by the organized
/// episode parser: the show title, season, episode and episode label come back,
/// provided the two bracketed names are non-empty without `]`, the season is
/// below 100 and the episode below 1000.
#[verifier::rlimit(80)]
pub proof fn law_episode_filename_roundtrip(
    show: TvShowMetadata,
    episode: EpisodeMetadata,
    video: VideoMetadata,
    extension: Seq<char>,
)
    requires
        show_title(show).len() > 0,
        !show_title(show).contains(']'),
        episode_label(episode).len() > 0,
        !episode_label(episode).contains(']'),
        episode.season_number < 100,
        episode.episode_number < 1000,
    ensures
        organized_tv_fields(episode_filename(show, episode, video, extension)) == Some(
            (
                show_title(show),
                episode.season_number as nat,
                episode.episode_number as nat,
                episode_label(episode),
            ),
        ),
{
    reveal_strlit("-S");
    reveal_strlit("E");
    reveal_strlit("-[");
    reveal_strlit("]");
    reveal_strlit("]-S");
    reveal_strlit("]-");
    reveal_strlit("-");
    let t = show_title(show);
    let sn = episode.season_number as nat;
    let en = episode.episode_number as nat;
    let ds = decimal2(sn);
    let de = decimal2(en);
    lemma_decimal2(sn);
    lemma_decimal2(en);
    let x = episode_original_part(episode);
    let nm = sanitized(episode.name@);
    let vs = video_suffix(video);
    let tail = vs + "."@ + extension;
    let f = episode_filename(show, episode, video, extension);
    let head = bracketed(t) + "-S"@ + ds + "E"@ + de;
    let rest = x + "-["@ + nm + "]"@ + tail;
    assert(f =~= head + rest);
    let j1: int = 1 + t.len() as int;
    let lt = t.len() as int;
    // the title ends at the first `]`
    assert(f[0] == '[');
    assert forall|i: int| 1 <= i < j1 implies f[i] != ']' by {
        assert(f[i] == t[i - 1]);
        if f[i] == ']' {
            assert(t.contains(']'));
        }
    }
    assert(f[j1] == ']');
    lemma_first_index_at(f, ']', 1, j1);
    assert(f.subrange(1, j1) =~= t);
    // `]-S`, season digits, `E`, episode digits
    assert(f.subrange(j1, j1 + 3) =~= "]-S"@);
    assert(occurs_at(f, "]-S"@, j1));
    assert(f.subrange(j1 + 3, j1 + 5) =~= ds);
    lemma_digit_run_exact(f, j1 + 3, 2, 2);
    assert(f[j1 + 5] == 'E');
    let r = de.len() as int;
    assert(f.subrange(j1 + 6, j1 + 6 + r) =~= de);
    let after = j1 + 6 + r;
    assert(f.subrange(after, f.len() as int) =~= rest);
    // what follows the episode digits starts with `-`
    assert(rest[0] == '-') by {
        match episode.original_name {
            Some(o) => {
                if o@ != episode.name@ {
                    assert(x[0] == '-');
                } else {
                    assert(x.len() == 0);
                }
            },
            None => {
                assert(x.len() == 0);
            },
        }
    }
    assert(f[after] == '-');
    assert forall|j: int| j1 + 6 <= j < after implies is_digit(#[trigger] f[j]) by {
        assert(f[j] == de[j - (j1 + 6)]);
    }
    lemma_digit_run_exact(f, j1 + 6, r as nat, 3);
    assert(digit_run(f, j1 + 6, 3) == r);
    let label = episode_label(episode);
    let ll = label.len() as int;
    // the second bracket holds the label and is followed by `]-`
    let second = "-["@ + label + "]"@ + (if x.len() == 0 {
        tail
    } else {
        "-["@ + nm + "]"@ + tail
    });
    assert(rest =~= second) by {
        match episode.original_name {
            Some(o) => {
                if o@ != episode.name@ {
                    assert(x =~= "-["@ + sanitized(o@) + "]"@);
                } else {
                    assert(x =~= Seq::<char>::empty());
                }
            },
            None => {
                assert(x =~= Seq::<char>::empty());
            },
        }
    }
    assert(f.subrange(after, after + 2) =~= "-["@);
    assert(occurs_at(f, "-["@, after));
    let m = after + 2;
    assert(tv_middle_at(f, j1) == Some(m));
    assert(f.subrange(m, m + ll) =~= label);
    assert forall|i: int| m <= i < m + ll implies f[i] != ']' by {
        assert(f[i] == label[i - m]);
        if f[i] == ']' {
            assert(label.contains(']'));
        }
    }
    assert(f[m + ll] == ']');
    assert(f[m + ll + 1] == '-') by {
        if x.len() == 0 {
            assert(vs[0] == '-');
            assert(tail[0] == '-');
        }
    }
    lemma_first_index_at(f, ']', m, m + ll);
    assert(f.subrange(m + ll, m + ll + 2) =~= "]-"@);
    lemma_span_u16_digits(f, j1 + 3, j1 + 5, ds, sn);
    lemma_span_u16_digits(f, j1 + 6, m - 2, de, en);
}

/// How many pending items have no source file, and how many have a target
/// that already exists.
pub open spec fn blocked_counts(items: Seq<PlanItem>, facts: Seq<ItemFacts>) -> (nat, nat)
    decreases items.len(),
{
    if items.len() == 0 || facts.len() == 0 {
        (0, 0)
    } else {
        let (m, t) = blocked_counts(items.drop_last(), facts.drop_last());
        let pending = items.last().status == PlanItemStatus::Pending;
        (
            m + if pending && !facts.last().source_exists {
                1nat
            } else {
                0nat
            },
            t + if pending && facts.last().target_exists {
                1nat
            } else {
                0nat
            },
        )
    }
}

/// Validation reports one problem per pending item whose source file is
/// missing and, unless existing targets are accepted, one per pending item
/// whose target already exists; items of any other status are not checked.
pub proof fn law_validation_counts(items: Seq<PlanItem>, facts: Seq<ItemFacts>, backup_on_overwrite: bool)
    ensures
        validation_messages(items, facts, backup_on_overwrite).len() == blocked_counts(items, facts).0
            + if backup_on_overwrite {
            0nat
        } else {
            blocked_counts(items, facts).1
        },
    decreases items.len(),
{
    if items.len() > 0 && facts.len() > 0 {
        law_validation_counts(items.drop_last(), facts.drop_last(), backup_on_overwrite);
    }
}

proof fn lemma_no_missing_source(items: Seq<PlanItem>, facts: Seq<ItemFacts>)
    requires
        facts.len() == items.len(),
    ensures
        (blocked_counts(items, facts).0 == 0) == (forall|i: int|
            0 <= i < items.len() && #[trigger] items[i].status == PlanItemStatus::Pending ==> facts[i].source_exists),
    decreases items.len(),
{
    if items.len() > 0 {
        let (p, q) = (items.drop_last(), facts.drop_last());
        lemma_no_missing_source(p, q);
        if blocked_counts(items, facts).0 == 0 {
            assert forall|i: int|
                0 <= i < items.len() && #[trigger] items[i].status == PlanItemStatus::Pending implies facts[i].source_exists by {
                if i < items.len() - 1 {
                    assert(p[i] == items[i]);
                    assert(q[i] == facts[i]);
                }
            }
        } else if blocked_counts(p, q).0 > 0 {
            let i = choose|i: int| 0 <= i < p.len() && #[trigger] p[i].status == PlanItemStatus::Pending && !q[i].source_exists;
            assert(items[i] == p[i]);
            assert(facts[i] == q[i]);
        } else {
            let i = items.len() - 1;
            assert(items[i].status == PlanItemStatus::Pending && !facts[i].source_exists);
        }
    }
}

/// With existing targets accepted (the default), a plan passes validation
/// exactly when every pending item's source file exists; items of other
/// statuses are not checked, and the error counts the pending items whose
/// source is missing.
pub proof fn law_validation_passes(items: Seq<PlanItem>, facts: Seq<ItemFacts>)
    requires
        facts.len() == items.len(),
    ensures
        (validation_messages(items, facts, true).len() == 0) == (forall|i: int|
            0 <= i < items.len() && #[trigger] items[i].status == PlanItemStatus::Pending ==> facts[i].source_exists),
        validation_messages(items, facts, true).len() == blocked_counts(items, facts).0,
{
    law_validation_counts(items, facts, true);
    lemma_no_missing_source(items, facts);
}

proof fn lemma_digit_run_cap(s: Seq<char>, i: int, cap: nat)
    ensures
        digit_run(s, i, cap) <= cap,
    decreases cap,
{
    if cap > 0 && 0 <= i < s.len() && is_udigit(s[i]) {
        lemma_digit_run_cap(s, i + 1, (cap - 1) as nat);
    }
}

proof fn lemma_bounded_digits_cap(s: Seq<char>, d: int, k: nat)
    ensures
        bounded_digits(s, d, k) <= k,
    decreases k,
{
    if k > 0 && !(d + k == s.len() || !is_digit(s[d + k])) {
        lemma_bounded_digits_cap(s, d, (k - 1) as nat);
    }
}

proof fn lemma_digits_value_below(d: Seq<char>)
    requires
        all_digits(d),
    ensures
        d.len() <= 1 ==> digits_value(d) <= 9,
        d.len() <= 2 ==> digits_value(d) <= 99,
        d.len() <= 3 ==> digits_value(d) <= 999,
    decreases d.len(),
{
    if d.len() > 0 {
        let p = d.drop_last();
        assert(all_digits(p)) by {
            assert forall|i: int| 0 <= i < p.len() implies is_digit(#[trigger] p[i]) by {
                assert(p[i] == d[i]);
            }
        }
        lemma_digits_value_below(p);
        assert(is_digit(d[d.len() - 1]));
        assert(digit_value(d.last()) <= 9);
    }
}

/// A number of at most `k` characters (k ≤ 3) reads as at most `10^k - 1`.
proof fn lemma_span_small(s: Seq<char>, a: int, b: int)
    requires
        0 <= a <= b <= s.len(),
        span_u16(s, a, b) is Some,
    ensures
        b - a <= 2 ==> span_u16(s, a, b)->0 <= 99,
        b - a <= 3 ==> span_u16(s, a, b)->0 <= 999,
{
    let t = s.subrange(a, b);
    let d = if t.len() > 0 && t[0] == '+' {
        t.drop_first()
    } else {
        t
    };
    assert(unsigned_value(t) == Some(digits_value(d)));
    lemma_digits_value_below(d);
}

proof fn lemma_first_from_some<T>(f: spec_fn(int) -> Option<T>, i: int, end: int)
    ensures
        first_from(f, i, end) is Some ==> exists|j: int| i <= j <= end && #[trigger] f(j) == first_from(f, i, end),
    decreases end + 1 - i,
{
    if i <= end && f(i) is None {
        lemma_first_from_some(f, i + 1, end);
    }
}

proof fn lemma_last_from_some<T>(f: spec_fn(int) -> Option<T>, lo: int, q: int)
    ensures
        last_from(f, lo, q) is Some ==> exists|j: int| lo <= j <= q && #[trigger] f(j) == last_from(f, lo, q),
    decreases q + 1 - lo,
{
    if lo <= q && f(q) is None {
        lemma_last_from_some(f, lo, q - 1);
    }
}

proof fn lemma_numbers_small(s: Seq<char>, m: Option<(int, int, int, int)>)
    requires
        m matches Some((a, b, c, d)) ==> 0 <= a <= b <= s.len() && 0 <= c <= d <= s.len() && b - a <= 2 && d
            - c <= 3,
    ensures
        numbers_of(s, m) matches Some((x, y)) ==> x <= 99 && y <= 999,
{
    if let Some((a, b, c, d)) = m {
        if numbers_of(s, m) is Some {
            lemma_span_small(s, a, b);
            lemma_span_small(s, c, d);
        }
    }
}

proof fn lemma_number_small(s: Seq<char>, m: Option<(int, int)>)
    requires
        m matches Some((a, b)) ==> 0 <= a <= b <= s.len() && b - a <= 3,
    ensures
        number_of(s, m) matches Some(x) ==> x <= 999,
{
    if let Some((a, b)) = m {
        if number_of(s, m) is Some {
            lemma_span_small(s, a, b);
        }
    }
}

proof fn lemma_word_span(s: Seq<char>, q: int)
    ensures
        episode_word_at(s, q) matches Some((a, b)) ==> 0 <= a <= b <= s.len() && b - a <= 3,
{
    if occurs_at(s, "episode"@, q) {
        assert("episode"@.len() == 7) by {
            reveal_strlit("episode");
        }
        let d = q + 7 + crate::engine::pattern::ws_run(s, q + 7);
        lemma_digit_run_cap(s, d, 3);
        lemma_digit_run_len(s, d, 3);
        lemma_ws_run_len(s, q + 7);
    }
}

proof fn lemma_digit_run_len(s: Seq<char>, i: int, cap: nat)
    ensures
        digit_run(s, i, cap) > 0 ==> 0 <= i && i + digit_run(s, i, cap) <= s.len(),
    decreases cap,
{
    if cap > 0 && 0 <= i < s.len() && is_udigit(s[i]) {
        lemma_digit_run_len(s, i + 1, (cap - 1) as nat);
    }
}

proof fn lemma_ws_run_len(s: Seq<char>, i: int)
    ensures
        i >= 0 ==> i + crate::engine::pattern::ws_run(s, i) <= s.len() || crate::engine::pattern::ws_run(s, i) == 0,
    decreases s.len() - i,
{
    if 0 <= i < s.len() && crate::utils::text::is_ws(s[i]) {
        lemma_ws_run_len(s, i + 1);
    }
}

/// Episode numbers read from a filename have at most three digits and
/// season numbers at most two: an episode is at most 999 and a season at
/// most 99.
pub proof fn law_episode_numbers_in_range(f: Seq<char>)
    ensures
        episode_from_filename(f).0 matches Some(n) ==> n <= 99,
        episode_from_filename(f).1 matches Some(n) ==> n <= 999,
{
    let name = filename_stem(f);
    let lower = str_lowercase(name);
    // S01E02
    let f1 = |i: int| sxe_at(lower, i);
    lemma_first_from_some(f1, 0, lower.len() as int);
    if let Some((a, b, c, d)) = sxe_first(lower) {
        let j = choose|j: int| 0 <= j <= lower.len() && #[trigger] f1(j) == sxe_first(lower);
        lemma_digit_run_cap(lower, j + 1, 2);
        lemma_digit_run_len(lower, j + 1, 2);
        let n = digit_run(lower, j + 1, 2);
        lemma_digit_run_cap(lower, j + 2 + n, 3);
        lemma_digit_run_len(lower, j + 2 + n, 3);
    }
    lemma_numbers_small(lower, sxe_first(lower));
    // Season 1 ... Episode 2
    let f2 = |i: int| season_episode_at(lower, i);
    lemma_first_from_some(f2, 0, lower.len() as int);
    if let Some((a, b, c, d)) = season_episode_first(lower) {
        let j = choose|j: int| 0 <= j <= lower.len() && #[trigger] f2(j) == season_episode_first(lower);
        assert("season"@.len() == 6) by {
            reveal_strlit("season");
        }
        let dd = j + 6 + crate::engine::pattern::ws_run(lower, j + 6);
        lemma_ws_run_len(lower, j + 6);
        lemma_digit_run_cap(lower, dd, 2);
        lemma_digit_run_len(lower, dd, 2);
        let n = digit_run(lower, dd, 2);
        let g = |q: int| episode_word_at(lower, q);
        let hi = crate::engine::pattern::first_newline(lower, dd + n);
        lemma_last_from_some(g, dd + n, hi);
        let q = choose|q: int| dd + n <= q <= hi && #[trigger] g(q) == last_from(g, dd + n, hi);
        lemma_word_span(lower, q);
    }
    lemma_numbers_small(lower, season_episode_first(lower));
    // E02
    let f3 = |i: int| exx_at(lower, i);
    lemma_first_from_some(f3, 0, lower.len() as int);
    if let Some((a, b)) = exx_first(lower) {
        let j = choose|j: int| 0 <= j <= lower.len() && #[trigger] f3(j) == exx_first(lower);
        let e = if j == 0 && exx_tail(lower, 0) is Some {
            0
        } else {
            j + 1
        };
        let dd = if e + 1 < lower.len() && lower[e + 1] == 'p' {
            e + 2
        } else {
            e + 1
        };
        let k0 = digit_run(lower, dd, 3);
        lemma_digit_run_cap(lower, dd, 3);
        lemma_digit_run_len(lower, dd, 3);
        lemma_bounded_digits_cap(lower, dd, k0);
    }
    lemma_number_small(lower, exx_first(lower));
    // Episode 2
    let fw = |q: int| episode_word_at(lower, q);
    lemma_first_from_some(fw, 0, lower.len() as int);
    if let Some((a, b)) = episode_word_first(lower) {
        let j = choose|j: int| 0 <= j <= lower.len() && #[trigger] fw(j) == episode_word_first(lower);
        lemma_word_span(lower, j);
    }
    lemma_number_small(lower, episode_word_first(lower));
    // 第02集
    let f4 = |i: int| chinese_episode_at(name, i);
    lemma_first_from_some(f4, 0, name.len() as int);
    if let Some((a, b)) = chinese_episode_first(name) {
        let j = choose|j: int| 0 <= j <= name.len() && #[trigger] f4(j) == chinese_episode_first(name);
        lemma_digit_run_cap(name, j + 1, 3);
        lemma_digit_run_len(name, j + 1, 3);
    }
    lemma_number_small(name, chinese_episode_first(name));
}

/// A filename gives a season exactly when it gives an episode; when no
/// `S01E02` or `Season 1 ... Episode 2` marker is read, the season found
/// is 1.
pub proof fn law_season_comes_with_episode(f: Seq<char>)
    ensures
        (episode_from_filename(f).0 is Some) == (episode_from_filename(f).1 is Some),
        ({
            let lower = str_lowercase(filename_stem(f));
            numbers_of(lower, sxe_first(lower)) is None && numbers_of(lower, season_episode_first(lower)) is None
                && episode_from_filename(f).0 is Some ==> episode_from_filename(f).0 == Some(1nat)
        }),
{
}

/// No character of `s` is one that file names cannot hold.
pub open spec fn no_reserved(s: Seq<char>) -> bool {
    forall|i: int| 0 <= i < s.len() ==> !is_reserved(#[trigger] s[i])
}

proof fn lemma_join_clean(a: Seq<char>, b: Seq<char>)
    requires
        no_reserved(a),
        no_reserved(b),
    ensures
        no_reserved(a + b),
{
    assert forall|i: int| 0 <= i < (a + b).len() implies !is_reserved(#[trigger] (a + b)[i]) by {
        if i < a.len() {
            assert((a + b)[i] == a[i]);
        } else {
            assert((a + b)[i] == b[i - a.len()]);
        }
    }
}

proof fn lemma_sanitized_clean(s: Seq<char>)
    ensures
        no_reserved(sanitized(s)),
{
}

proof fn lemma_digits_clean(s: Seq<char>)
    requires
        all_digits(s),
    ensures
        no_reserved(s),
{
    assert forall|i: int| 0 <= i < s.len() implies !is_reserved(#[trigger] s[i]) by {
        assert(is_digit(s[i]));
    }
}

proof fn lemma_decimal2_clean(n: nat)
    ensures
        no_reserved(decimal2(n)),
{
    lemma_decimal(n);
    if n < 10 {
        lemma_digit_char(n);
        assert(all_digits(decimal2(n)));
    }
    lemma_digits_clean(decimal2(n));
}

/// An episode file name holds none of the characters that file names
/// cannot hold (`/ \ : * ? " < > |`) when the video's description and the
/// extension hold none: the titles are sanitized. It opens with `[` and
/// ends with `.` and the extension.
pub proof fn law_episode_filename_clean(
    show: TvShowMetadata,
    episode: EpisodeMetadata,
    video: VideoMetadata,
    extension: Seq<char>,
)
    requires
        no_reserved(video.resolution@),
        no_reserved(video.format@),
        no_reserved(video.video_codec@),
        no_reserved(video.audio_codec@),
        no_reserved(video.audio_channels@),
        no_reserved(extension),
    ensures
        no_reserved(episode_filename(show, episode, video, extension)),
        episode_filename(show, episode, video, extension)[0] == '[',
        episode_filename(show, episode, video, extension).len() > extension.len(),
        episode_filename(show, episode, video, extension).subrange(
            episode_filename(show, episode, video, extension).len() - extension.len() - 1,
            episode_filename(show, episode, video, extension).len() as int,
        ) == "."@ + extension,
{
    reveal_strlit("-S");
    reveal_strlit("E");
    reveal_strlit("-[");
    reveal_strlit("]");
    reveal_strlit("-");
    reveal_strlit("bit");
    reveal_strlit(".");
    assert(no_reserved("-S"@));
    assert(no_reserved("E"@));
    assert(no_reserved("-["@));
    assert(no_reserved("]"@));
    assert(no_reserved("-"@));
    assert(no_reserved("bit"@));
    assert(no_reserved("."@));
    assert(no_reserved(seq!['[']));
    assert(no_reserved(seq![']']));
    let b = bracketed(show_title(show));
    lemma_sanitized_clean(show.name@);
    lemma_sanitized_clean(show.original_name@);
    lemma_join_clean(seq!['['], show_title(show));
    lemma_join_clean(seq!['['] + show_title(show), seq![']']);
    let s = decimal2(episode.season_number as nat);
    let e = decimal2(episode.episode_number as nat);
    lemma_decimal2_clean(episode.season_number as nat);
    lemma_decimal2_clean(episode.episode_number as nat);
    let o = episode_original_part(episode);
    if let Some(on) = episode.original_name {
        lemma_sanitized_clean(on@);
        lemma_join_clean("-["@, sanitized(on@));
        lemma_join_clean("-["@ + sanitized(on@), "]"@);
    }
    assert(no_reserved(o));
    lemma_sanitized_clean(episode.name@);
    let d = decimal(video.bit_depth as nat);
    lemma_decimal(video.bit_depth as nat);
    lemma_digits_clean(d);
    let v = video;
    let mut acc = "-"@;
    lemma_join_clean(acc, v.resolution@); acc = acc + v.resolution@;
    lemma_join_clean(acc, "-"@); acc = acc + "-"@;
    lemma_join_clean(acc, v.format@); acc = acc + v.format@;
    lemma_join_clean(acc, "-"@); acc = acc + "-"@;
    lemma_join_clean(acc, v.video_codec@); acc = acc + v.video_codec@;
    lemma_join_clean(acc, "-"@); acc = acc + "-"@;
    lemma_join_clean(acc, d); acc = acc + d;
    lemma_join_clean(acc, "bit"@); acc = acc + "bit"@;
    lemma_join_clean(acc, "-"@); acc = acc + "-"@;
    lemma_join_clean(acc, v.audio_codec@); acc = acc + v.audio_codec@;
    lemma_join_clean(acc, "-"@); acc = acc + "-"@;
    lemma_join_clean(acc, v.audio_channels@); acc = acc + v.audio_channels@;
    assert(acc =~= video_suffix(video));
    let mut n = b;
    lemma_join_clean(n, "-S"@); n = n + "-S"@;
    lemma_join_clean(n, s); n = n + s;
    lemma_join_clean(n, "E"@); n = n + "E"@;
    lemma_join_clean(n, e); n = n + e;
    lemma_join_clean(n, o); n = n + o;
    lemma_join_clean(n, "-["@); n = n + "-["@;
    lemma_join_clean(n, sanitized(episode.name@)); n = n + sanitized(episode.name@);
    lemma_join_clean(n, "]"@); n = n + "]"@;
    lemma_join_clean(n, acc); n = n + acc;
    let front = n;
    lemma_join_clean(n, "."@); n = n + "."@;
    lemma_join_clean(n, extension); n = n + extension;
    assert(n =~= episode_filename(show, episode, video, extension));
    assert(n[0] == '[');
    assert(n.subrange(n.len() - extension.len() - 1, n.len() as int) =~= "."@ + extension);
}

/// An episode filename opens with the bracketed show title, then `-S`, the
/// season in two digits, `E` and the episode in two digits (three from
/// 100): each reads back as its number.
pub proof fn law_episode_filename_numbers(
    show: TvShowMetadata,
    episode: EpisodeMetadata,
    video: VideoMetadata,
    extension: Seq<char>,
)
    requires
        episode.season_number < 100,
        episode.episode_number < 1000,
    ensures
        ({
            let name = episode_filename(show, episode, video, extension);
            let p = bracketed(show_title(show)).len() as int;
            let s = decimal2(episode.season_number as nat);
            let e = decimal2(episode.episode_number as nat);
            &&& s.len() == 2 && all_digits(s) && digits_value(s) == episode.season_number
            &&& (e.len() == 2 || e.len() == 3) && all_digits(e) && digits_value(e) == episode.episode_number
            &&& name.subrange(0, p) == bracketed(show_title(show))
            &&& name.subrange(p, p + 2) == "-S"@
            &&& name.subrange(p + 2, p + 4) == s
            &&& name.subrange(p + 4, p + 5) == "E"@
            &&& name.subrange(p + 5, p + 5 + e.len()) == e
        }),
{
    lemma_decimal2(episode.season_number as nat);
    lemma_decimal2(episode.episode_number as nat);
    let name = episode_filename(show, episode, video, extension);
    let b = bracketed(show_title(show));
    let s = decimal2(episode.season_number as nat);
    let e = decimal2(episode.episode_number as nat);
    let rest = episode_original_part(episode) + "-["@ + sanitized(episode.name@) + "]"@ + video_suffix(video)
        + "."@ + extension;
    assert("-S"@.len() == 2) by {
        reveal_strlit("-S");
    }
    assert("E"@.len() == 1) by {
        reveal_strlit("E");
    }
    assert(name =~= b + "-S"@ + s + "E"@ + e + rest);
    let p = b.len() as int;
    assert(name.subrange(0, p) =~= b);
    assert(name.subrange(p, p + 2) =~= "-S"@);
    assert(name.subrange(p + 2, p + 4) =~= s);
    assert(name.subrange(p + 4, p + 5) =~= "E"@);
    assert(name.subrange(p + 5, p + 5 + e.len()) =~= e);
}

} // verus!

verus! {

/// What a path names in the file system model.
#[derive(Debug, Clone, Copy, PartialEq, Eq, Structural)]
pub enum FsNode {
    Dir,
    File,
}

/// The file system after performing a recorded operation.
pub open spec fn performed(fs: Map<Seq<char>, FsNode>, op: RollbackOperation) -> Map<Seq<char>, FsNode> {
    match op.op_type {
        RollbackOpType::Mkdir => fs.insert(op.to@, FsNode::Dir),
        RollbackOpType::Move => fs.remove(op.from@).insert(op.to@, fs[op.from@]),
        _ => fs.insert(op.to@, FsNode::File),
    }
}

/// The executor performs an operation only onto a free target, and moves only existing files.
pub open spec fn performable(fs: Map<Seq<char>, FsNode>, op: RollbackOperation) -> bool {
    match op.op_type {
        RollbackOpType::Move => fs.contains_key(op.from@) && !fs.contains_key(op.to@),
        _ => !fs.contains_key(op.to@),
    }
}

/// The file system after a rollback action.
pub open spec fn undone(fs: Map<Seq<char>, FsNode>, a: RollbackAction) -> Map<Seq<char>, FsNode> {
    match a.op {
        RollbackActionType::Move => match a.to {
            Some(t) => fs.remove(a.path@).insert(t@, fs[a.path@]),
            None => fs,
        },
        _ => fs.remove(a.path@),
    }
}

/// Performing operations in order.
pub open spec fn replay(fs: Map<Seq<char>, FsNode>, ops: Seq<RollbackOperation>) -> Map<
    Seq<char>,
    FsNode,
>
    decreases ops.len(),
{
    if ops.len() == 0 {
        fs
    } else {
        performed(replay(fs, ops.drop_last()), ops.last())
    }
}

/// Each operation of the sequence is performable when its turn comes.
pub open spec fn replayable(fs: Map<Seq<char>, FsNode>, ops: Seq<RollbackOperation>) -> bool
    decreases ops.len(),
{
    ops.len() == 0 || (replayable(fs, ops.drop_last()) && performable(
        replay(fs, ops.drop_last()),
        ops.last(),
    ))
}

/// Applying the rollback actions of `ops`, first to last.
pub open spec fn undo_all(fs: Map<Seq<char>, FsNode>, ops: Seq<RollbackOperation>) -> Map<
    Seq<char>,
    FsNode,
>
    decreases ops.len(),
{
    if ops.len() == 0 {
        fs
    } else {
        undo_all(undone(fs, ops[0].rollback), ops.drop_first())
    }
}

/// Undoing a performed operation by its recorded action restores the file system.
pub proof fn law_undo_restores(fs: Map<Seq<char>, FsNode>, op: RollbackOperation)
    requires
        undoes(op),
        performable(fs, op),
    ensures
        undone(performed(fs, op), op.rollback) == fs,
{
    match op.op_type {
        RollbackOpType::Move => {
            let moved = fs.remove(op.from@).insert(op.to@, fs[op.from@]);
            assert(moved[op.to@] == fs[op.from@]);
            assert(moved.remove(op.to@).insert(op.from@, moved[op.to@]) =~= fs);
        },
        _ => {
            assert(performed(fs, op).remove(op.to@) =~= fs);
        },
    }
}

/// A rollback restores the file system: performing recorded operations in
/// order, then applying their actions last to first, gives back the state the
/// execution started from.
pub proof fn law_rollback_restores(fs: Map<Seq<char>, FsNode>, ops: Seq<RollbackOperation>)
    requires
        replayable(fs, ops),
        forall|i: int| 0 <= i < ops.len() ==> undoes(#[trigger] ops[i]),
    ensures
        undo_all(replay(fs, ops), ops.reverse()) == fs,
    decreases ops.len(),
{
    if ops.len() > 0 {
        let pre = ops.drop_last();
        let last = ops.last();
        assert forall|i: int| 0 <= i < pre.len() implies undoes(#[trigger] pre[i]) by {
            assert(pre[i] == ops[i]);
        }
        assert(undoes(ops[ops.len() - 1]));
        law_rollback_restores(fs, pre);
        law_undo_restores(replay(fs, pre), last);
        let rev = ops.reverse();
        assert(rev[0] == last);
        assert(rev.drop_first() =~= pre.reverse());
    }
}

/// A sample belongs to an item when it sits in the item's source folder or
/// below it.
pub open spec fn sample_in(sample: VideoFile, item: PlanItem) -> bool {
    sample.parent_dir@ == item.source.parent_dir@ || path_starts_with(sample.parent_dir@, item.source.parent_dir@)
}

/// The item a sample goes with is the first item that it belongs to; a
/// sample belongs to no item exactly when no owner is found.
pub proof fn law_sample_owner_first(sample: VideoFile, items: Seq<PlanItem>, i: int)
    ensures
        (sample_owner(sample, items, 0) == Some(i)) == (0 <= i < items.len() && sample_in(sample, items[i])
            && forall|j: int| 0 <= j < i ==> !sample_in(sample, #[trigger] items[j])),
        (sample_owner(sample, items, 0) is None) == (forall|j: int|
            0 <= j < items.len() ==> !sample_in(sample, #[trigger] items[j])),
{
    lemma_owner_from(sample, items, 0, i);
}

proof fn lemma_owner_from(sample: VideoFile, items: Seq<PlanItem>, from: int, i: int)
    requires
        0 <= from,
    ensures
        (sample_owner(sample, items, from) == Some(i)) == (from <= i < items.len() && sample_in(sample, items[i])
            && forall|j: int| from <= j < i ==> !sample_in(sample, #[trigger] items[j])),
        (sample_owner(sample, items, from) is None) == (forall|j: int|
            from <= j < items.len() ==> !sample_in(sample, #[trigger] items[j])),
    decreases items.len() - from,
{
    if from < items.len() {
        lemma_owner_from(sample, items, from + 1, i);
        if !sample_in(sample, items[from]) {
            assert forall|j: int| from <= j < i && (forall|j2: int| from + 1 <= j2 < i ==> !sample_in(sample, #[trigger] items[j2]))
                implies !sample_in(sample, #[trigger] items[j]) by {
                if j > from {
                    assert(!sample_in(sample, items[j]));
                }
            }
        }
    }
}

/// When every sample belongs to some item, each sample moves, in order, to
/// the `Sample` folder inside the folder of the first item it belongs to
/// (the parent of that item's target file).
pub proof fn law_samples_go_to_owner(samples: Seq<VideoFile>, items: Seq<PlanItem>, target: Seq<char>)
    requires
        forall|k: int| 0 <= k < samples.len() ==> #[trigger] sample_owner(samples[k], items, 0) is Some,
    ensures
        sample_moves(samples, items, target).len() == samples.len(),
        forall|k: int| 0 <= k < samples.len() ==> {
            let i = sample_owner(samples[k], items, 0)->0;
            #[trigger] sample_moves(samples, items, target)[k] == (
                samples[k].path@,
                path_join(path_join(sample_home(items[i].target.full_path@, target), "Sample"@), samples[k].filename@),
            )
        },
    decreases samples.len(),
{
    if samples.len() > 0 {
        let p = samples.drop_last();
        assert forall|k: int| 0 <= k < p.len() implies #[trigger] sample_owner(p[k], items, 0) is Some by {
            assert(p[k] == samples[k]);
            assert(sample_owner(samples[k], items, 0) is Some);
        }
        law_samples_go_to_owner(p, items, target);
        let n = samples.len() - 1;
        assert(sample_owner(samples[n], items, 0) is Some);
        assert forall|k: int| 0 <= k < samples.len() implies {
            let i = sample_owner(samples[k], items, 0)->0;
            #[trigger] sample_moves(samples, items, target)[k] == (
                samples[k].path@,
                path_join(path_join(sample_home(items[i].target.full_path@, target), "Sample"@), samples[k].filename@),
            )
        } by {
            if k < n {
                assert(p[k] == samples[k]);
                assert(sample_moves(p, items, target)[k] == sample_moves(samples, items, target)[k]);
            }
        }
    }
}

/// A normalized title holds no whitespace (it is compared without any).
pub proof fn law_normalized_has_no_space(s: Seq<char>)
    ensures
        forall|i: int| 0 <= i < normalized(s).len() ==> !is_ws(#[trigger] normalized(s)[i]),
{
    broadcast use vstd::seq_lib::group_filter_ensures;
}

/// The empty log a run starts from.
pub open spec fn fresh_log() -> LogState {
    LogState { seq: 0, successes: 0, failures: 0, operations: Seq::empty() }
}

/// The outcome is a success that left a rollback record.
pub open spec fn left_record(o: Result<Option<RollbackOperation>, Error>) -> bool {
    o matches Ok(Some(_))
}

/// The rollback record a success left.
pub open spec fn record_left(o: Result<Option<RollbackOperation>, Error>) -> RollbackOperation {
    o->Ok_0->Some_0
}

/// Two records describe the same operation and its undoing, whatever their
/// numbers and marks.
pub open spec fn same_record(a: RollbackOperation, b: RollbackOperation) -> bool {
    &&& a.op_type == b.op_type
    &&& a.from == b.from
    &&& a.to == b.to
    &&& a.checksum == b.checksum
    &&& a.rollback == b.rollback
}

/// After a run, the log counts every outcome once, as a success or a
/// failure; its rollback lists the records of the successes that left one,
/// in the order they came, each marked executed and numbered by its place
/// among the successes (so the numbers rise), and undoing it, last first,
/// meets the numbers falling.
pub proof fn law_run_log(os: Seq<Result<Option<RollbackOperation>, Error>>)
    requires
        os.len() < u32::MAX,
    ensures
        ({
            let s = after_run(fresh_log(), os);
            &&& s.successes + s.failures == os.len()
            &&& s.successes == os.filter(|o: Result<Option<RollbackOperation>, Error>| o is Ok).len()
            &&& s.seq == s.successes
            &&& s.operations.len() == os.filter(|o: Result<Option<RollbackOperation>, Error>| left_record(o)).len()
            &&& forall|j: int| 0 <= j < s.operations.len() ==> same_record(
                #[trigger] s.operations[j],
                record_left(os.filter(|o: Result<Option<RollbackOperation>, Error>| left_record(o))[j]),
            )
            &&& forall|j: int| 0 <= j < s.operations.len() ==> (#[trigger] s.operations[j]).executed
                && 1 <= s.operations[j].seq <= s.seq
            &&& forall|j: int, k: int| 0 <= j < k < s.operations.len() ==> #[trigger] s.operations[j].seq
                < #[trigger] s.operations[k].seq
            &&& forall|j: int, k: int| 0 <= j < k < s.operations.len() ==> #[trigger] s.operations.reverse()[j].seq
                > #[trigger] s.operations.reverse()[k].seq
        }),
    decreases os.len(),
{
    reveal(Seq::filter);
    let s = after_run(fresh_log(), os);
    if os.len() > 0 {
        let p = os.drop_last();
        law_run_log(p);
        let s0 = after_run(fresh_log(), p);
        let o = os.last();
        let fr = |x: Result<Option<RollbackOperation>, Error>| left_record(x);
        let fo = |x: Result<Option<RollbackOperation>, Error>| x is Ok;
        assert(os.filter(fr) == p.filter(fr) + if fr(o) { seq![o] } else { Seq::empty() });
        assert(os.filter(fo) == p.filter(fo) + if fo(o) { seq![o] } else { Seq::empty() });
        if let Ok(Some(op)) = o {
            assert(s.operations == s0.operations.push(RollbackOperation { seq: (s0.seq + 1) as u32, executed: true, ..op }));
            assert forall|j: int| 0 <= j < s.operations.len() implies same_record(
                #[trigger] s.operations[j],
                record_left(os.filter(fr)[j]),
            ) by {
                if j < s0.operations.len() {
                    assert(os.filter(fr)[j] == p.filter(fr)[j]);
                }
            }
        } else {
            assert forall|j: int| 0 <= j < s.operations.len() implies same_record(
                #[trigger] s.operations[j],
                record_left(os.filter(fr)[j]),
            ) by {
                assert(os.filter(fr)[j] == p.filter(fr)[j]);
            }
        }
    }
    assert forall|j: int, k: int| 0 <= j < k < s.operations.len() implies #[trigger] s.operations.reverse()[j].seq
        > #[trigger] s.operations.reverse()[k].seq by {
        let n = s.operations.len() as int;
        assert(s.operations.reverse()[j] == s.operations[n - 1 - j]);
        assert(s.operations.reverse()[k] == s.operations[n - 1 - k]);
        assert(s.operations[n - 1 - k].seq < s.operations[n - 1 - j].seq);
    }
}

} // verus!
