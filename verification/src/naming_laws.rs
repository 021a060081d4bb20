//! Properties of the names the organizer writes and reads back: movie
//! filenames, organized movie filenames, season folders and country
//! folders, and how collections are counted complete.

use vstd::prelude::*;
use crate::engine::parser::{chinese_numerals, movie_tail_fields, numeral_season_from, organized_movie_fields, season_from_dirname};
use crate::generators::filename::{movie_filename, sanitized, title_key, video_suffix};
use crate::models::index::CollectionInfo;
use crate::models::index_ops::complete_count;
use crate::models::media::{MovieMetadata, VideoMetadata};
use crate::utils::text::{contains_seq, decimal, is_ws, occurs_at, str_uppercase, trim, trim_end, trim_start};
use crate::engine::planner::{camel, code_index, country_folder, eq_ascii_ci, language_country};
use crate::laws::lemma_first_index_at;

verus! {

/// A movie filename opens with its title brackets (the original title's,
/// then the localized title's, unless the work is Chinese or the two
/// agree), then the edition in parentheses when there is one, then the
/// release year in parentheses, then the video description and the
/// extension.
pub proof fn law_movie_filename_layout(
    movie: MovieMetadata,
    video: VideoMetadata,
    edition: Option<Seq<char>>,
    extension: Seq<char>,
)
    ensures
        ({
            let name = movie_filename(movie, video, edition, extension);
            let titles = if movie.original_language@ == "zh"@ || title_key(movie.original_title@) == title_key(
                movie.title@,
            ) {
                seq!['['] + sanitized(movie.title@) + seq![']']
            } else {
                seq!['['] + sanitized(movie.original_title@) + seq![']', '['] + sanitized(movie.title@) + seq![']']
            };
            let ed = match edition {
                Some(e) => seq!['('] + e + seq![')'],
                None => Seq::<char>::empty(),
            };
            let year = seq!['('] + decimal(movie.year as nat) + seq![')'];
            let p: int = (titles.len() + ed.len()) as int;
            &&& name.subrange(0, p) == titles + ed
            &&& name.subrange(p, p + year.len()) == year
            &&& name.subrange(p + year.len(), name.len() as int) == video_suffix(video) + seq!['.'] + extension
        }),
{
    reveal_strlit("(");
    reveal_strlit(")");
    reveal_strlit(".");
    let name = movie_filename(movie, video, edition, extension);
    let titles = if movie.original_language@ == "zh"@ || title_key(movie.original_title@) == title_key(
        movie.title@,
    ) {
        seq!['['] + sanitized(movie.title@) + seq![']']
    } else {
        seq!['['] + sanitized(movie.original_title@) + seq![']', '['] + sanitized(movie.title@) + seq![']']
    };
    let ed = match edition {
        Some(e) => seq!['('] + e + seq![')'],
        None => Seq::<char>::empty(),
    };
    let year = seq!['('] + decimal(movie.year as nat) + seq![')'];
    let rest = video_suffix(video) + seq!['.'] + extension;
    assert(name =~= titles + ed + year + rest);
    let p: int = (titles.len() + ed.len()) as int;
    assert(name.subrange(0, p) =~= titles + ed);
    assert(name.subrange(p, p + year.len()) =~= year);
    assert(name.subrange(p + year.len(), name.len() as int) =~= rest);
}

/// An organized movie filename of the two-title form `[A][B]` followed by
/// its tail reads back with `A` as the original title and `B` as the
/// title, and the year and ids of the tail; when the tail does not read,
/// the name does not either.
pub proof fn law_two_title_movie_name(a: Seq<char>, b: Seq<char>, rest: Seq<char>)
    requires
        a.len() > 0,
        b.len() > 0,
        !a.contains(']'),
        !b.contains(']'),
    ensures
        ({
            let s = seq!['['] + a + seq![']', '['] + b + seq![']'] + rest;
            let j: int = (a.len() + b.len() + 3) as int;
            organized_movie_fields(s) == match movie_tail_fields(s, j) {
                Some(Some((year, imdb, tmdb))) => Some((Some(a), Some(b), year, imdb, tmdb)),
                _ => None,
            }
        }),
{
    reveal_strlit("](");
    let s = seq!['['] + a + seq![']', '['] + b + seq![']'] + rest;
    let j1: int = (a.len() + 1) as int;
    let j2: int = (a.len() + b.len() + 3) as int;
    assert forall|i: int| 1 <= i < j1 implies s[i] != ']' by {
        assert(s[i] == a[i - 1]);
    }
    assert(s[j1] == ']');
    lemma_first_index_at(s, ']', 1, j1);
    assert forall|i: int| j1 + 2 <= i < j2 implies s[i] != ']' by {
        assert(s[i] == b[i - j1 - 2]);
    }
    assert(s[j2] == ']');
    lemma_first_index_at(s, ']', j1 + 2, j2);
    assert(s[j1 + 1] == '[');
    assert(s.subrange(1, j1) =~= a);
    assert(s.subrange(j1 + 2, j2) =~= b);
    assert(!crate::utils::text::occurs_at(s, "]("@, j1)) by {
        assert("]("@[1] == '(');
        if crate::utils::text::occurs_at(s, "]("@, j1) {
            assert(s.subrange(j1, j1 + 2)[1] == s[j1 + 1]);
        }
    }
}

/// An organized movie filename of the one-title form `[A]` followed by its
/// tail (not by a second bracket) reads back with `A` as the original
/// title, no localized title, and the year and ids of the tail.
pub proof fn law_one_title_movie_name(a: Seq<char>, rest: Seq<char>)
    requires
        a.len() > 0,
        !a.contains(']'),
        rest.len() == 0 || rest[0] != '[',
    ensures
        ({
            let s = seq!['['] + a + seq![']'] + rest;
            let j: int = (a.len() + 1) as int;
            organized_movie_fields(s) == match movie_tail_fields(s, j) {
                Some(Some((year, imdb, tmdb))) => Some((Some(a), None::<Seq<char>>, year, imdb, tmdb)),
                _ => None,
            }
        }),
{
    let s = seq!['['] + a + seq![']'] + rest;
    let j1: int = (a.len() + 1) as int;
    assert forall|i: int| 1 <= i < j1 implies s[i] != ']' by {
        assert(s[i] == a[i - 1]);
    }
    assert(s[j1] == ']');
    lemma_first_index_at(s, ']', 1, j1);
    if j1 + 1 < s.len() {
        assert(s[j1 + 1] == rest[0]);
    }
    assert(s.subrange(1, j1) =~= a);
}

/// A collection counts as complete exactly when it knows how many movies
/// it has and every one of them is owned; the others count as incomplete.
pub proof fn law_complete_collections(cs: Seq<(u64, CollectionInfo)>)
    ensures
        complete_count(cs) == cs.filter(
            |e: (u64, CollectionInfo)| e.1.total_in_collection > 0 && e.1.owned_count >= e.1.total_in_collection,
        ).len(),
        cs.len() - complete_count(cs) == cs.filter(
            |e: (u64, CollectionInfo)| !(e.1.total_in_collection > 0 && e.1.owned_count >= e.1.total_in_collection),
        ).len(),
    decreases cs.len(),
{
    reveal(Seq::filter);
    if cs.len() > 0 {
        law_complete_collections(cs.drop_last());
    }
}

/// The languages whose country a co-production's folder prefers, each
/// with the ISO code of that country.
pub open spec fn language_countries() -> Seq<(Seq<char>, Seq<char>)> {
    seq![
        ("ko"@, "KR"@),
        ("ja"@, "JP"@),
        ("zh"@, "CN"@),
        ("en"@, "US"@),
        ("fr"@, "FR"@),
        ("de"@, "DE"@),
        ("es"@, "ES"@),
        ("it"@, "IT"@),
        ("ru"@, "RU"@),
        ("pt"@, "BR"@),
        ("hi"@, "IN"@),
        ("th"@, "TH"@),
    ]
}

proof fn lemma_language_table(lang: Seq<char>)
    ensures
        forall|k: int| 0 <= k < 12 && lang == #[trigger] language_countries()[k].0 ==> language_country(lang)
            == Some(language_countries()[k].1),
        (forall|k: int| 0 <= k < 12 ==> lang != #[trigger] language_countries()[k].0) ==> language_country(lang)
            is None,
{
    reveal_strlit("ko");
    reveal_strlit("ja");
    reveal_strlit("zh");
    reveal_strlit("en");
    reveal_strlit("fr");
    reveal_strlit("de");
    reveal_strlit("es");
    reveal_strlit("it");
    reveal_strlit("ru");
    reveal_strlit("pt");
    reveal_strlit("hi");
    reveal_strlit("th");
    let t = language_countries();
    assert(t[0].0 == "ko"@ && t[1].0 == "ja"@ && t[2].0 == "zh"@ && t[3].0 == "en"@);
    assert(t[4].0 == "fr"@ && t[5].0 == "de"@ && t[6].0 == "es"@ && t[7].0 == "it"@);
    assert(t[8].0 == "ru"@ && t[9].0 == "pt"@ && t[10].0 == "hi"@ && t[11].0 == "th"@);
    assert(t[0].1 == "KR"@ && t[1].1 == "JP"@ && t[2].1 == "CN"@ && t[3].1 == "US"@);
    assert(t[4].1 == "FR"@ && t[5].1 == "DE"@ && t[6].1 == "ES"@ && t[7].1 == "IT"@);
    assert(t[8].1 == "RU"@ && t[9].1 == "BR"@ && t[10].1 == "IN"@ && t[11].1 == "TH"@);
    assert forall|k: int| 0 <= k < 12 && lang == #[trigger] language_countries()[k].0 implies language_country(lang)
        == Some(language_countries()[k].1) by {
        assert(lang.len() == 2);
        if k == 0 {
        } else if k == 1 {
            assert(lang[0] != "ko"@[0]);
        } else if k == 2 {
            assert(lang[0] != "ko"@[0] && lang[0] != "ja"@[0]);
        } else if k == 3 {
            assert(lang[0] != "ko"@[0] && lang[0] != "ja"@[0] && lang[0] != "zh"@[0]);
        } else if k == 4 {
            assert(lang[0] != "ko"@[0] && lang[0] != "ja"@[0] && lang[0] != "zh"@[0] && lang[0] != "en"@[0]);
        } else if k == 5 {
            assert(lang[0] != "ko"@[0] && lang[0] != "ja"@[0] && lang[0] != "zh"@[0] && lang[0] != "en"@[0]
                && lang[0] != "fr"@[0]);
        } else if k == 6 {
            assert(lang[0] != "ko"@[0] && lang[0] != "ja"@[0] && lang[0] != "zh"@[0] && lang[1] != "en"@[1]
                && lang[0] != "fr"@[0] && lang[0] != "de"@[0]);
        } else if k == 7 {
            assert(lang[0] != "ko"@[0] && lang[0] != "ja"@[0] && lang[0] != "zh"@[0] && lang[0] != "en"@[0]
                && lang[0] != "fr"@[0] && lang[0] != "de"@[0] && lang[0] != "es"@[0]);
        } else if k == 8 {
            assert(lang[0] != "ko"@[0] && lang[0] != "ja"@[0] && lang[0] != "zh"@[0] && lang[0] != "en"@[0]
                && lang[0] != "fr"@[0] && lang[0] != "de"@[0] && lang[0] != "es"@[0] && lang[0] != "it"@[0]);
        } else if k == 9 {
            assert(lang[0] != "ko"@[0] && lang[0] != "ja"@[0] && lang[0] != "zh"@[0] && lang[0] != "en"@[0]
                && lang[0] != "fr"@[0] && lang[0] != "de"@[0] && lang[0] != "es"@[0] && lang[0] != "it"@[0]
                && lang[0] != "ru"@[0]);
        } else if k == 10 {
            assert(lang[0] != "ko"@[0] && lang[0] != "ja"@[0] && lang[0] != "zh"@[0] && lang[0] != "en"@[0]
                && lang[0] != "fr"@[0] && lang[0] != "de"@[0] && lang[0] != "es"@[0] && lang[0] != "it"@[0]
                && lang[0] != "ru"@[0] && lang[0] != "pt"@[0]);
        } else {
            assert(lang[0] != "ko"@[0] && lang[0] != "ja"@[0] && lang[0] != "zh"@[0] && lang[0] != "en"@[0]
                && lang[0] != "fr"@[0] && lang[0] != "de"@[0] && lang[0] != "es"@[0] && lang[0] != "it"@[0]
                && lang[0] != "ru"@[0] && lang[0] != "pt"@[0] && lang[0] != "hi"@[0]);
        }
    }
    if forall|k: int| 0 <= k < 12 ==> lang != #[trigger] language_countries()[k].0 {
        assert(lang != t[0].0 && lang != t[1].0 && lang != t[2].0 && lang != t[3].0);
        assert(lang != t[4].0 && lang != t[5].0 && lang != t[6].0 && lang != t[7].0);
        assert(lang != t[8].0 && lang != t[9].0 && lang != t[10].0 && lang != t[11].0);
    }
}

proof fn lemma_first_code(codes: Seq<String>, code: Seq<char>, from: int, i: int)
    requires
        0 <= from <= i < codes.len(),
        eq_ascii_ci(codes[i]@, code),
        forall|j: int| from <= j < i ==> !eq_ascii_ci(#[trigger] codes[j]@, code),
    ensures
        code_index(codes, code, from) == Some(i),
    decreases i - from,
{
    if from < i {
        lemma_first_code(codes, code, from + 1, i);
    }
}

proof fn lemma_no_code(codes: Seq<String>, code: Seq<char>, from: int)
    requires
        0 <= from,
        forall|j: int| from <= j < codes.len() ==> !eq_ascii_ci(#[trigger] codes[j]@, code),
    ensures
        code_index(codes, code, from) is None,
    decreases codes.len() - from,
{
    if from < codes.len() {
        lemma_no_code(codes, code, from + 1);
    }
}

/// A co-production's country folder is that of the country of its original
/// language when the work lists that country (the first listing, codes
/// compared ignoring case): a Chinese-language work goes to `CN`, a
/// Korean one to `KR`, and so on for each language of
/// `language_countries`.
pub proof fn law_original_language_country(codes: Seq<String>, names: Seq<String>, k: int, i: int)
    requires
        0 <= k < 12,
        0 <= i < codes.len(),
        i < names.len(),
        eq_ascii_ci(codes[i]@, language_countries()[k].1),
        forall|j: int| 0 <= j < i ==> !eq_ascii_ci(#[trigger] codes[j]@, language_countries()[k].1),
    ensures
        country_folder(codes, names, language_countries()[k].0) == Some(
            str_uppercase(codes[i]@) + seq!['_'] + camel(names[i]@, true),
        ),
{
    lemma_language_table(language_countries()[k].0);
    lemma_first_code(codes, language_countries()[k].1, 0, i);
}

/// Otherwise the folder is that of the first country listed: when the
/// original language has no preferred country, or the work does not list
/// it.
pub proof fn law_first_country_otherwise(codes: Seq<String>, names: Seq<String>, lang: Seq<char>)
    requires
        codes.len() > 0,
        names.len() > 0,
        forall|k: int| 0 <= k < 12 && lang == #[trigger] language_countries()[k].0 ==> forall|j: int|
            0 <= j < codes.len() ==> !eq_ascii_ci(#[trigger] codes[j]@, language_countries()[k].1),
    ensures
        country_folder(codes, names, lang) == Some(str_uppercase(codes[0]@) + seq!['_'] + camel(names[0]@, true)),
{
    lemma_language_table(lang);
    if exists|k: int| 0 <= k < 12 && lang == #[trigger] language_countries()[k].0 {
        let k = choose|k: int| 0 <= k < 12 && lang == #[trigger] language_countries()[k].0;
        lemma_no_code(codes, language_countries()[k].1, 0);
    }
}

/// The Chinese numerals of seasons one to fifteen, as folder names write them.
pub open spec fn season_numeral(n: nat) -> Seq<char> {
    if n == 1 {
        "一"@
    } else if n == 2 {
        "二"@
    } else if n == 3 {
        "三"@
    } else if n == 4 {
        "四"@
    } else if n == 5 {
        "五"@
    } else if n == 6 {
        "六"@
    } else if n == 7 {
        "七"@
    } else if n == 8 {
        "八"@
    } else if n == 9 {
        "九"@
    } else if n == 10 {
        "十"@
    } else if n == 11 {
        "十一"@
    } else if n == 12 {
        "十二"@
    } else if n == 13 {
        "十三"@
    } else if n == 14 {
        "十四"@
    } else {
        "十五"@
    }
}

/// A `第N季` or `第N部` marker with the Chinese numeral of `n`.
pub open spec fn season_marks(name: Seq<char>, n: nat) -> bool {
    contains_seq(name, "第"@ + season_numeral(n) + "季"@) || contains_seq(name, "第"@ + season_numeral(n) + "部"@)
}

proof fn lemma_trim_start_keeps(s: Seq<char>, p: Seq<char>)
    requires
        p.len() > 0,
        !is_ws(p[0]),
    ensures
        contains_seq(trim_start(s), p) == contains_seq(s, p),
    decreases s.len(),
{
    if s.len() > 0 && is_ws(s[0]) {
        let t = s.drop_first();
        lemma_trim_start_keeps(t, p);
        if contains_seq(s, p) {
            let i = choose|i: int| occurs_at(s, p, i);
            assert(s.subrange(i, i + p.len())[0] == s[i]);
            assert(i > 0);
            assert(t.subrange(i - 1, i - 1 + p.len()) =~= s.subrange(i, i + p.len()));
            assert(occurs_at(t, p, i - 1));
        }
        if contains_seq(t, p) {
            let i = choose|i: int| occurs_at(t, p, i);
            assert(t.subrange(i, i + p.len()) =~= s.subrange(i + 1, i + 1 + p.len()));
            assert(occurs_at(s, p, i + 1));
        }
    }
}

proof fn lemma_trim_end_keeps(s: Seq<char>, p: Seq<char>)
    requires
        p.len() > 0,
        !is_ws(p.last()),
    ensures
        contains_seq(trim_end(s), p) == contains_seq(s, p),
    decreases s.len(),
{
    if s.len() > 0 && is_ws(s.last()) {
        let t = s.drop_last();
        lemma_trim_end_keeps(t, p);
        if contains_seq(s, p) {
            let i = choose|i: int| occurs_at(s, p, i);
            assert(s.subrange(i, i + p.len())[p.len() - 1] == s[i + p.len() - 1]);
            assert(i + p.len() < s.len());
            assert(t.subrange(i, i + p.len()) =~= s.subrange(i, i + p.len()));
            assert(occurs_at(t, p, i));
        }
        if contains_seq(t, p) {
            let i = choose|i: int| occurs_at(t, p, i);
            assert(t.subrange(i, i + p.len()) =~= s.subrange(i, i + p.len()));
            assert(occurs_at(s, p, i));
        }
    }
}

proof fn lemma_trim_keeps(s: Seq<char>, p: Seq<char>)
    requires
        p.len() > 0,
        !is_ws(p[0]),
        !is_ws(p.last()),
    ensures
        contains_seq(trim(s), p) == contains_seq(s, p),
{
    lemma_trim_start_keeps(s, p);
    lemma_trim_end_keeps(trim_start(s), p);
}

proof fn lemma_numerals_listed(n: nat)
    requires
        1 <= n <= 15,
    ensures
        chinese_numerals()[n - 1] == season_numeral(n),
        season_numeral(n).len() > 0,
{
    reveal_strlit("一");
    reveal_strlit("二");
    reveal_strlit("三");
    reveal_strlit("四");
    reveal_strlit("五");
    reveal_strlit("六");
    reveal_strlit("七");
    reveal_strlit("八");
    reveal_strlit("九");
    reveal_strlit("十");
    reveal_strlit("十一");
    reveal_strlit("十二");
    reveal_strlit("十三");
    reveal_strlit("十四");
    reveal_strlit("十五");
}

proof fn lemma_marks_kept(name: Seq<char>, n: nat)
    requires
        1 <= n <= 15,
    ensures
        season_marks(trim(name), n) == season_marks(name, n),
{
    reveal_strlit("第");
    reveal_strlit("季");
    reveal_strlit("部");
    lemma_numerals_listed(n);
    let a = "第"@ + season_numeral(n) + "季"@;
    let b = "第"@ + season_numeral(n) + "部"@;
    assert(a[0] == '第' && a.last() == '季');
    assert(b[0] == '第' && b.last() == '部');
    assert(!is_ws('第') && !is_ws('季') && !is_ws('部')) by {
        assert('第' as u32 == 0x7B2C);
        assert('季' as u32 == 0x5B63);
        assert('部' as u32 == 0x90E8);
    }
    lemma_trim_keeps(name, a);
    lemma_trim_keeps(name, b);
}

proof fn lemma_numeral_scan(name: Seq<char>, from: int, n: nat)
    requires
        1 <= n <= 15,
        0 <= from < n,
        season_marks(name, n),
        forall|m: nat| from + 1 <= m < n ==> !#[trigger] season_marks(name, m),
    ensures
        numeral_season_from(name, from) == Some(n),
    decreases n - from,
{
    lemma_numerals_listed((from + 1) as nat);
    if from + 1 < n {
        assert(!season_marks(name, (from + 1) as nat));
        lemma_numeral_scan(name, from + 1, n);
    }
}

/// A season folder named with a Chinese numeral: when the name holds
/// `第N季` or `第N部` with the numeral of `n` (one to fifteen), and no such
/// marker with a smaller numeral, its season is `n`; so `第二季` is season
/// two and `第十五部` season fifteen.
pub proof fn law_numeral_season(dirname: Seq<char>, n: nat)
    requires
        1 <= n <= 15,
        season_marks(dirname, n),
        forall|m: nat| 1 <= m < n ==> !#[trigger] season_marks(dirname, m),
    ensures
        season_from_dirname(dirname) == Some(n),
{
    let name = trim(dirname);
    lemma_marks_kept(dirname, n);
    assert forall|m: nat| 1 <= m < n implies !#[trigger] season_marks(name, m) by {
        lemma_marks_kept(dirname, m);
    }
    lemma_numeral_scan(name, 0, n);
}

} // verus!
