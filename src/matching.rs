use vstd::prelude::*;
use crate::model::{AudioFileInfo, Track, TrackMatch, TaggerConfig};
use crate::text::to_chars;

verus! {

/// A letter, a digit, or any character outside ASCII.
pub open spec fn is_word_char(c: char) -> bool {
    ('a' <= c && c <= 'z') || ('A' <= c && c <= 'Z') || ('0' <= c && c <= '9') || (c as u32) > 127
}

/// ASCII upper case letters become lower case; other characters stay.
pub open spec fn lower(c: char) -> char {
    if 'A' <= c && c <= 'Z' {
        ((c as u32 + 32) as u8) as char
    } else {
        c
    }
}

pub open spec fn is_open_bracket(c: char) -> bool {
    c == '(' || c == '['
}

pub open spec fn is_close_bracket(c: char) -> bool {
    c == ')' || c == ']'
}

/// `acc` with the word `cur` appended, if it is not empty.
pub open spec fn flush(acc: Seq<Seq<char>>, cur: Seq<char>) -> Seq<Seq<char>> {
    if cur.len() > 0 {
        acc.push(cur)
    } else {
        acc
    }
}

/// The words of `s` from position `i` on, given the bracket depth, the word
/// being read and the words read so far. Words are maximal runs of word
/// characters, lower-cased. With `strip`, text in brackets is left out.
pub open spec fn words_from(
    s: Seq<char>,
    i: int,
    strip: bool,
    depth: int,
    cur: Seq<char>,
    acc: Seq<Seq<char>>,
) -> Seq<Seq<char>>
    decreases s.len() - i,
{
    if i >= s.len() || i < 0 {
        flush(acc, cur)
    } else {
        let c = s[i];
        if strip && is_open_bracket(c) {
            words_from(s, i + 1, strip, depth + 1, Seq::empty(), flush(acc, cur))
        } else if strip && is_close_bracket(c) && depth > 0 {
            words_from(s, i + 1, strip, depth - 1, Seq::empty(), flush(acc, cur))
        } else if depth > 0 {
            words_from(s, i + 1, strip, depth, cur, acc)
        } else if is_word_char(c) {
            words_from(s, i + 1, strip, depth, cur.push(lower(c)), acc)
        } else {
            words_from(s, i + 1, strip, depth, Seq::empty(), flush(acc, cur))
        }
    }
}

/// The normalised words of `s`; with `strip`, bracketed qualifiers are dropped.
pub open spec fn words(s: Seq<char>, strip: bool) -> Seq<Seq<char>> {
    words_from(s, 0, strip, 0, Seq::empty(), Seq::empty())
}

pub open spec fn views(v: Seq<Vec<char>>) -> Seq<Seq<char>> {
    v.map_values(|t: Vec<char>| t@)
}

fn lower_char(c: char) -> (r: char)
    ensures
        r == lower(c),
{
    if 'A' <= c && c <= 'Z' {
        ((c as u32 + 32) as u8) as char
    } else {
        c
    }
}

fn is_word_char_exec(c: char) -> (r: bool)
    ensures
        r == is_word_char(c),
{
    ('a' <= c && c <= 'z') || ('A' <= c && c <= 'Z') || ('0' <= c && c <= '9') || (c as u32) > 127
}

fn push_word(acc: &mut Vec<Vec<char>>, cur: Vec<char>)
    ensures
        views(final(acc)@) == flush(views(old(acc)@), cur@),
{
    if cur.len() > 0 {
        let ghost before = views(acc@);
        acc.push(cur);
        assert(views(acc@) =~= before.push(cur@));
    }
}

/// The normalised words of `s` (see `words`).
pub fn words_of(s: &Vec<char>, strip: bool) -> (r: Vec<Vec<char>>)
    ensures
        views(r@) == words(s@, strip),
{
    let mut acc: Vec<Vec<char>> = Vec::new();
    let mut cur: Vec<char> = Vec::new();
    let mut depth: usize = 0;
    let mut i: usize = 0;
    assert(views(acc@) =~= Seq::<Seq<char>>::empty());
    assert(cur@ =~= Seq::<char>::empty());
    while i < s.len()
        invariant
            i <= s@.len(),
            depth <= i,
            words(s@, strip) == words_from(s@, i as int, strip, depth as int, cur@, views(acc@)),
        decreases s.len() - i,
    {
        let c = s[i];
        if strip && (c == '(' || c == '[') {
            push_word(&mut acc, cur);
            cur = Vec::new();
            depth = depth + 1;
        } else if strip && (c == ')' || c == ']') && depth > 0 {
            push_word(&mut acc, cur);
            cur = Vec::new();
            depth = depth - 1;
        } else if depth > 0 {
        } else if is_word_char_exec(c) {
            let l = lower_char(c);
            cur.push(l);
        } else {
            push_word(&mut acc, cur);
            cur = Vec::new();
        }
        i = i + 1;
    }
    push_word(&mut acc, cur);
    acc
}


/// How many words of `a`, counted with repetition, also occur in `b`.
pub open spec fn count_in(a: Seq<Seq<char>>, b: Seq<Seq<char>>) -> nat
    decreases a.len(),
{
    if a.len() == 0 {
        0
    } else {
        count_in(a.drop_last(), b) + if b.contains(a.last()) {
            1nat
        } else {
            0nat
        }
    }
}

/// Word-set similarity of two word lists, in thousandths: the share of words
/// of either list that occur in the other. Two empty lists score 0.
pub open spec fn similarity(a: Seq<Seq<char>>, b: Seq<Seq<char>>) -> nat {
    if a.len() + b.len() == 0 {
        0
    } else {
        ((count_in(a, b) + count_in(b, a)) * 1000 / (a.len() + b.len())) as nat
    }
}

pub proof fn lemma_count_in_bounded(a: Seq<Seq<char>>, b: Seq<Seq<char>>)
    ensures
        count_in(a, b) <= a.len(),
    decreases a.len(),
{
    if a.len() > 0 {
        lemma_count_in_bounded(a.drop_last(), b);
    }
}

pub proof fn lemma_similarity_bounded(a: Seq<Seq<char>>, b: Seq<Seq<char>>)
    ensures
        similarity(a, b) <= 1000,
{
    lemma_count_in_bounded(a, b);
    lemma_count_in_bounded(b, a);
    if a.len() + b.len() > 0 {
        let x = count_in(a, b) + count_in(b, a);
        let y = a.len() + b.len();
        assert(x * 1000 / y <= 1000) by (nonlinear_arith)
            requires
                x <= y,
                y > 0,
        {
            assert(x * 1000 <= y * 1000);
        }
    }
}

/// Whether two character sequences are equal.
pub fn same_chars(a: &Vec<char>, b: &Vec<char>) -> (r: bool)
    ensures
        r == (a@ == b@),
{
    if a.len() != b.len() {
        return false;
    }
    let mut i: usize = 0;
    while i < a.len()
        invariant
            a@.len() == b@.len(),
            i <= a@.len(),
            forall|k: int| 0 <= k < i ==> a@[k] == b@[k],
        decreases a.len() - i,
    {
        if a[i] != b[i] {
            return false;
        }
        i = i + 1;
    }
    assert(a@ =~= b@);
    true
}

/// Whether the word `w` occurs in `list`.
pub fn has_word(list: &Vec<Vec<char>>, w: &Vec<char>) -> (r: bool)
    ensures
        r == views(list@).contains(w@),
{
    let mut i: usize = 0;
    while i < list.len()
        invariant
            i <= list@.len(),
            forall|k: int| 0 <= k < i ==> list@[k]@ != w@,
        decreases list.len() - i,
    {
        if same_chars(&list[i], w) {
            assert(views(list@)[i as int] == w@);
            return true;
        }
        i = i + 1;
    }
    assert forall|k: int| 0 <= k < views(list@).len() implies views(list@)[k] != w@ by {}
    false
}

fn count_words_in(a: &Vec<Vec<char>>, b: &Vec<Vec<char>>) -> (r: u64)
    ensures
        r == count_in(views(a@), views(b@)),
{
    let mut n: u64 = 0;
    let mut i: usize = 0;
    while i < a.len()
        invariant
            i <= a@.len(),
            n == count_in(views(a@).subrange(0, i as int), views(b@)),
            n <= i,
        decreases a.len() - i,
    {
        proof {
            let pre = views(a@).subrange(0, i as int + 1);
            assert(pre.drop_last() =~= views(a@).subrange(0, i as int));
            assert(pre.last() == a@[i as int]@);
        }
        if has_word(b, &a[i]) {
            n = n + 1;
        }
        i = i + 1;
    }
    assert(views(a@).subrange(0, a@.len() as int) =~= views(a@));
    n
}

/// The similarity (see `similarity`) of two word lists.
pub fn similarity_of(a: &Vec<Vec<char>>, b: &Vec<Vec<char>>) -> (r: u64)
    ensures
        r == similarity(views(a@), views(b@)),
        r <= 1000,
{
    proof {
        lemma_similarity_bounded(views(a@), views(b@));
    }
    let total = a.len() as u128 + b.len() as u128;
    if total == 0 {
        return 0;
    }
    let ca = count_words_in(a, b);
    let cb = count_words_in(b, a);
    proof {
        lemma_count_in_bounded(views(a@), views(b@));
        lemma_count_in_bounded(views(b@), views(a@));
    }
    let r = (ca as u128 + cb as u128) * 1000 / total;
    r as u64
}


/// The least artist score a candidate needs where a platform asks for an artist match.
pub const ARTIST_MINIMUM: u64 = 1000;

/// The words of the file's title, bracketed qualifiers left out.
pub open spec fn file_title_words(info: AudioFileInfo) -> Seq<Seq<char>> {
    match info.title {
        Some(t) => words(t@, true),
        None => Seq::empty(),
    }
}

/// 1000 where some artist of the file has the same non-empty words as some
/// artist of the candidate, else 0.
pub open spec fn artist_score(fa: Seq<String>, ta: Seq<String>) -> nat {
    if exists|i: int, j: int|
        0 <= i < fa.len() && 0 <= j < ta.len() && words(fa[i]@, false).len() > 0 && words(
            fa[i]@,
            false,
        ) == words(ta[j]@, false)
    {
        1000
    } else {
        0
    }
}

/// The confidence of a candidate: title similarity weighs nine tenths,
/// the artist score one tenth.
pub open spec fn accuracy(info: AudioFileInfo, t: Track) -> nat {
    (9 * similarity(file_title_words(info), words(t.title@, true)) + artist_score(
        info.artists@,
        t.artists@,
    )) / 10
}

pub open spec fn abs_diff(a: u64, b: u64) -> nat {
    if a >= b {
        (a - b) as nat
    } else {
        (b - a) as nat
    }
}

/// The duration filter lets the candidate through.
pub open spec fn duration_ok(info: AudioFileInfo, t: Track, config: TaggerConfig) -> bool {
    !config.match_duration || info.duration is None || t.duration is None || abs_diff(
        info.duration->0,
        t.duration->0,
    ) <= config.max_duration_difference
}

/// The file holds an id for the candidate's platform equal to the candidate's id.
pub open spec fn same_id(info: AudioFileInfo, t: Track) -> bool {
    t.track_id is Some && exists|k: int|
        0 <= k < info.ids@.len() && info.ids@[k].platform@ == t.platform@ && info.ids@[k].id@
            == t.track_id->0@
}

/// The id fast path applies to the candidate.
pub open spec fn id_match(info: AudioFileInfo, t: Track, config: TaggerConfig) -> bool {
    config.match_by_id && duration_ok(info, t, config) && same_id(info, t)
}

/// The candidate passes the hard filters.
pub open spec fn kept(info: AudioFileInfo, t: Track, config: TaggerConfig, require_artist: bool) -> bool {
    duration_ok(info, t, config) && (!require_artist || artist_score(info.artists@, t.artists@)
        >= ARTIST_MINIMUM)
}

/// The words of each name in `names`.
pub open spec fn names_words_ok(keys: Seq<Vec<Vec<char>>>, names: Seq<String>) -> bool {
    keys.len() == names.len() && forall|i: int|
        0 <= i < names.len() ==> views(#[trigger] keys[i]@) == words(names[i]@, false)
}

/// The normalised words of each name.
pub fn names_words(names: &Vec<String>) -> (r: Vec<Vec<Vec<char>>>)
    ensures
        names_words_ok(r@, names@),
{
    let mut r: Vec<Vec<Vec<char>>> = Vec::new();
    let mut i: usize = 0;
    while i < names.len()
        invariant
            i <= names@.len(),
            names_words_ok(r@, names@.subrange(0, i as int)),
        decreases names.len() - i,
    {
        let cs = to_chars(names[i].as_str());
        let w = words_of(&cs, false);
        r.push(w);
        i = i + 1;
        assert forall|k: int| 0 <= k < i implies views(#[trigger] r@[k]@) == words(
            names@.subrange(0, i as int)[k]@,
            false,
        ) by {
            if k < i - 1 {
                assert(names@.subrange(0, i as int)[k] == names@.subrange(0, i - 1)[k]);
            }
        }
    }
    assert(names@.subrange(0, i as int) =~= names@);
    r
}

/// Whether two word lists are equal.
fn same_words(a: &Vec<Vec<char>>, b: &Vec<Vec<char>>) -> (r: bool)
    ensures
        r == (views(a@) == views(b@)),
{
    if a.len() != b.len() {
        assert(views(a@).len() != views(b@).len());
        return false;
    }
    let mut i: usize = 0;
    while i < a.len()
        invariant
            a@.len() == b@.len(),
            i <= a@.len(),
            forall|k: int| 0 <= k < i ==> a@[k]@ == b@[k]@,
        decreases a.len() - i,
    {
        if !same_chars(&a[i], &b[i]) {
            assert(views(a@)[i as int] != views(b@)[i as int]);
            return false;
        }
        i = i + 1;
    }
    assert(views(a@) =~= views(b@));
    true
}

/// The artist score (see `artist_score`) of a candidate, from the words of
/// the file's artists.
fn artist_score_of(fkeys: &Vec<Vec<Vec<char>>>, Ghost(fa): Ghost<Seq<String>>, ta: &Vec<String>) -> (r: u64)
    requires
        names_words_ok(fkeys@, fa),
    ensures
        r == artist_score(fa, ta@),
{
    let tkeys = names_words(ta);
    let mut i: usize = 0;
    while i < fkeys.len()
        invariant
            names_words_ok(fkeys@, fa),
            names_words_ok(tkeys@, ta@),
            i <= fkeys@.len(),
            forall|a: int, b: int|
                0 <= a < i && 0 <= b < ta@.len() ==> !(words(fa[a]@, false).len() > 0 && words(
                    fa[a]@,
                    false,
                ) == words(ta@[b]@, false)),
        decreases fkeys.len() - i,
    {
        let mut j: usize = 0;
        while j < tkeys.len()
            invariant
                names_words_ok(fkeys@, fa),
                names_words_ok(tkeys@, ta@),
                i < fkeys@.len(),
                j <= tkeys@.len(),
                forall|a: int, b: int|
                    0 <= a < i && 0 <= b < ta@.len() ==> !(words(fa[a]@, false).len() > 0 && words(
                        fa[a]@,
                        false,
                    ) == words(ta@[b]@, false)),
                forall|b: int|
                    0 <= b < j ==> !(words(fa[i as int]@, false).len() > 0 && words(
                        fa[i as int]@,
                        false,
                    ) == words(ta@[b]@, false)),
            decreases tkeys.len() - j,
        {
            assert(views(fkeys@[i as int]@) == words(fa[i as int]@, false));
            assert(views(tkeys@[j as int]@) == words(ta@[j as int]@, false));
            if fkeys[i].len() > 0 && same_words(&fkeys[i], &tkeys[j]) {
                assert(0 <= i < fa.len() && 0 <= j < ta@.len() && words(fa[i as int]@, false).len() > 0 && words(fa[i as int]@, false) == words(ta@[j as int]@, false));
                return 1000;
            }
            j = j + 1;
        }
        i = i + 1;
    }
    0
}


/// The candidates that pass the hard filters, in the order given, each with its confidence.
pub open spec fn scored(
    info: AudioFileInfo,
    cands: Seq<Track>,
    config: TaggerConfig,
    require_artist: bool,
) -> Seq<TrackMatch>
    decreases cands.len(),
{
    if cands.len() == 0 {
        Seq::empty()
    } else {
        let prev = scored(info, cands.drop_last(), config, require_artist);
        let t = cands.last();
        if kept(info, t, config, require_artist) {
            prev.push(TrackMatch { accuracy: accuracy(info, t) as u64, track: t })
        } else {
            prev
        }
    }
}

/// The first position at or after `i` whose confidence is below `a`, else the length.
pub open spec fn first_below(s: Seq<TrackMatch>, a: u64, i: int) -> int
    decreases s.len() - i,
{
    if i < 0 || i >= s.len() {
        s.len() as int
    } else if s[i].accuracy < a {
        i
    } else {
        first_below(s, a, i + 1)
    }
}

/// `m` inserted after every match of at least its confidence.
pub open spec fn insert_sorted(s: Seq<TrackMatch>, m: TrackMatch) -> Seq<TrackMatch> {
    s.insert(first_below(s, m.accuracy, 0), m)
}

/// Stable sort by descending confidence: among equal confidences the earlier stays first.
pub open spec fn sort_desc(s: Seq<TrackMatch>) -> Seq<TrackMatch>
    decreases s.len(),
{
    if s.len() == 0 {
        s
    } else {
        insert_sorted(sort_desc(s.drop_last()), s.last())
    }
}

/// The position of the first candidate at or after `i` that the id fast path takes.
pub open spec fn first_id_from(info: AudioFileInfo, cands: Seq<Track>, config: TaggerConfig, i: int) -> Option<int>
    decreases cands.len() - i,
{
    if i < 0 || i >= cands.len() {
        None
    } else if id_match(info, cands[i], config) {
        Some(i)
    } else {
        first_id_from(info, cands, config, i + 1)
    }
}

/// What the matching engine returns: the first candidate that the id fast
/// path takes, alone and with full confidence; else the filtered candidates
/// sorted by descending confidence, ties in the order given.
pub open spec fn match_result(
    info: AudioFileInfo,
    cands: Seq<Track>,
    config: TaggerConfig,
    require_artist: bool,
) -> Seq<TrackMatch> {
    match first_id_from(info, cands, config, 0) {
        Some(k) => seq![TrackMatch { accuracy: 1000, track: cands[k] }],
        None => sort_desc(scored(info, cands, config, require_artist)),
    }
}

proof fn lemma_first_below_range(s: Seq<TrackMatch>, a: u64, i: int)
    requires
        0 <= i <= s.len(),
    ensures
        i <= first_below(s, a, i) <= s.len(),
    decreases s.len() - i,
{
    if i < s.len() && s[i].accuracy >= a {
        lemma_first_below_range(s, a, i + 1);
    }
}

fn duration_passes(info: &AudioFileInfo, t: &Track, config: &TaggerConfig) -> (r: bool)
    ensures
        r == duration_ok(*info, *t, *config),
{
    if !config.match_duration {
        return true;
    }
    match (info.duration, t.duration) {
        (Some(a), Some(b)) => {
            let d = if a >= b {
                a - b
            } else {
                b - a
            };
            d <= config.max_duration_difference
        },
        _ => true,
    }
}

fn has_same_id(info: &AudioFileInfo, t: &Track) -> (r: bool)
    ensures
        r == same_id(*info, *t),
{
    match &t.track_id {
        None => false,
        Some(id) => {
            let mut k: usize = 0;
            while k < info.ids.len()
                invariant
                    t.track_id == Some(*id),
                    k <= info.ids@.len(),
                    forall|j: int|
                        0 <= j < k ==> !(info.ids@[j].platform@ == t.platform@ && info.ids@[j].id@
                            == id@),
                decreases info.ids.len() - k,
            {
                if info.ids[k].platform == t.platform && info.ids[k].id == *id {
                    return true;
                }
                k = k + 1;
            }
            false
        },
    }
}

fn score_candidate(
    info: &AudioFileInfo,
    title_w: &Vec<Vec<char>>,
    fkeys: &Vec<Vec<Vec<char>>>,
    t: &Track,
    config: &TaggerConfig,
    require_artist: bool,
) -> (r: Option<u64>)
    requires
        views(title_w@) == file_title_words(*info),
        names_words_ok(fkeys@, info.artists@),
    ensures
        r == (if kept(*info, *t, *config, require_artist) {
            Some(accuracy(*info, *t) as u64)
        } else {
            None::<u64>
        }),
{
    if !duration_passes(info, t, config) {
        return None;
    }
    let a = artist_score_of(fkeys, Ghost(info.artists@), &t.artists);
    if require_artist && a < ARTIST_MINIMUM {
        return None;
    }
    let tc = to_chars(t.title.as_str());
    let tw = words_of(&tc, true);
    let sim = similarity_of(title_w, &tw);
    Some((9 * sim + a) / 10)
}

fn file_title_words_of(info: &AudioFileInfo) -> (r: Vec<Vec<char>>)
    ensures
        views(r@) == file_title_words(*info),
{
    match &info.title {
        Some(t) => {
            let cs = to_chars(t.as_str());
            words_of(&cs, true)
        },
        None => {
            let r: Vec<Vec<char>> = Vec::new();
            assert(views(r@) =~= Seq::<Seq<char>>::empty());
            r
        },
    }
}

fn insert_by_accuracy(out: &mut Vec<TrackMatch>, m: TrackMatch)
    ensures
        final(out)@ == insert_sorted(old(out)@, m),
{
    let a = m.accuracy;
    let mut j: usize = 0;
    while j < out.len() && out[j].accuracy >= a
        invariant
            j <= out@.len(),
            first_below(out@, a, 0) == first_below(out@, a, j as int),
        decreases out.len() - j,
    {
        j = j + 1;
    }
    proof {
        lemma_first_below_range(out@, a, 0);
    }
    out.insert(j, m);
}

/// Scores `candidates` against the file and returns them as `match_result` says.
pub fn match_tracks(
    info: &AudioFileInfo,
    candidates: Vec<Track>,
    config: &TaggerConfig,
    require_artist: bool,
) -> (r: Vec<TrackMatch>)
    ensures
        r@ == match_result(*info, candidates@, *config, require_artist),
{
    let ghost cands = candidates@;
    let mut k: usize = 0;
    while k < candidates.len()
        invariant
            candidates@ == cands,
            k <= cands.len(),
            first_id_from(*info, cands, *config, 0) == first_id_from(*info, cands, *config, k as int),
        decreases candidates.len() - k,
    {
        if config.match_by_id && duration_passes(info, &candidates[k], config) && has_same_id(
            info,
            &candidates[k],
        ) {
            let mut rest = candidates;
            let t = rest.remove(k);
            let r = vec![TrackMatch { accuracy: 1000, track: t }];
            assert(r@ =~= seq![TrackMatch { accuracy: 1000, track: cands[k as int] }]);
            return r;
        }
        k = k + 1;
    }
    let title_w = file_title_words_of(info);
    let fkeys = names_words(&info.artists);
    let n = candidates.len();
    let mut rest = candidates;
    let mut out: Vec<TrackMatch> = Vec::new();
    let mut i: usize = 0;
    assert(cands.subrange(0, 0) =~= Seq::<Track>::empty());
    while rest.len() > 0
        invariant
            views(title_w@) == file_title_words(*info),
            names_words_ok(fkeys@, info.artists@),
            i + rest@.len() == cands.len(),
            cands.len() == n,
            rest@ == cands.subrange(i as int, cands.len() as int),
            out@ == sort_desc(scored(*info, cands.subrange(0, i as int), *config, require_artist)),
        decreases rest.len(),
    {
        let t = rest.remove(0);
        proof {
            let pre = cands.subrange(0, i as int + 1);
            assert(pre.drop_last() =~= cands.subrange(0, i as int));
            assert(pre.last() == t);
            assert(rest@ =~= cands.subrange(i as int + 1, cands.len() as int));
        }
        let sc = score_candidate(info, &title_w, &fkeys, &t, config, require_artist);
        match sc {
            Some(a) => {
                let m = TrackMatch { accuracy: a, track: t };
                let ghost before = out@;
                insert_by_accuracy(&mut out, m);
                proof {
                    let pre = cands.subrange(0, i as int + 1);
                    let sp = scored(*info, pre, *config, require_artist);
                    assert(sp.drop_last() =~= scored(*info, cands.subrange(0, i as int), *config, require_artist));
                    assert(sp.last() == m);
                }
            },
            None => {},
        }
        i = i + 1;
    }
    assert(cands.subrange(0, i as int) =~= cands);
    out
}


proof fn lemma_insert_sorted_elems(s: Seq<TrackMatch>, m: TrackMatch)
    ensures
        insert_sorted(s, m).len() == s.len() + 1,
        forall|i: int|
            0 <= i < insert_sorted(s, m).len() ==> #[trigger] insert_sorted(s, m)[i] == m || s.contains(
                insert_sorted(s, m)[i],
            ),
{
    lemma_first_below_range(s, m.accuracy, 0);
    let p = first_below(s, m.accuracy, 0);
    let r = insert_sorted(s, m);
    assert forall|i: int| 0 <= i < r.len() implies #[trigger] r[i] == m || s.contains(r[i]) by {
        if i < p {
            assert(r[i] == s[i]);
        } else if i > p {
            assert(r[i] == s[i - 1]);
        }
    }
}

/// Sorting keeps the length and adds no element.
pub proof fn lemma_sort_desc_elems(s: Seq<TrackMatch>)
    ensures
        sort_desc(s).len() == s.len(),
        forall|i: int| 0 <= i < sort_desc(s).len() ==> s.contains(#[trigger] sort_desc(s)[i]),
    decreases s.len(),
{
    if s.len() > 0 {
        let prev = s.drop_last();
        lemma_sort_desc_elems(prev);
        lemma_insert_sorted_elems(sort_desc(prev), s.last());
        assert forall|i: int| 0 <= i < sort_desc(s).len() implies s.contains(#[trigger] sort_desc(s)[i]) by {
            let x = sort_desc(s)[i];
            if x == s.last() {
                assert(s[s.len() - 1] == x);
            } else {
                let j = choose|j: int| 0 <= j < sort_desc(prev).len() && sort_desc(prev)[j] == x;
                let k = choose|k: int| 0 <= k < prev.len() && prev[k] == sort_desc(prev)[j];
                assert(s[k] == x);
            }
        }
    }
}

/// Every match that `scored` returns passed the hard filters and carries the
/// confidence of its track.
pub proof fn lemma_scored_kept(info: AudioFileInfo, cands: Seq<Track>, config: TaggerConfig, require_artist: bool)
    ensures
        forall|i: int|
            0 <= i < scored(info, cands, config, require_artist).len() ==> {
                let m = #[trigger] scored(info, cands, config, require_artist)[i];
                kept(info, m.track, config, require_artist) && m.accuracy == accuracy(info, m.track)
                    as u64 && cands.contains(m.track)
            },
    decreases cands.len(),
{
    if cands.len() > 0 {
        let prev = cands.drop_last();
        lemma_scored_kept(info, prev, config, require_artist);
        let sp = scored(info, cands, config, require_artist);
        assert forall|i: int| 0 <= i < sp.len() implies {
            let m = #[trigger] sp[i];
            kept(info, m.track, config, require_artist) && m.accuracy == accuracy(info, m.track)
                as u64 && cands.contains(m.track)
        } by {
            let pp = scored(info, prev, config, require_artist);
            if i < pp.len() {
                assert(sp[i] == pp[i]);
                let k = choose|k: int| 0 <= k < prev.len() && prev[k] == pp[i].track;
                assert(cands[k] == pp[i].track);
            } else {
                assert(cands[cands.len() - 1] == cands.last());
            }
        }
    }
}

proof fn lemma_first_id_found(info: AudioFileInfo, cands: Seq<Track>, config: TaggerConfig, i: int, k: int)
    requires
        0 <= i <= k < cands.len(),
        id_match(info, cands[k], config),
    ensures
        first_id_from(info, cands, config, i) is Some,
        i <= first_id_from(info, cands, config, i)->0 <= k,
        id_match(info, cands[first_id_from(info, cands, config, i)->0], config),
    decreases k - i,
{
    if !id_match(info, cands[i], config) {
        lemma_first_id_found(info, cands, config, i + 1, k);
    }
}

proof fn lemma_first_id_is_match(info: AudioFileInfo, cands: Seq<Track>, config: TaggerConfig, i: int)
    requires
        0 <= i,
    ensures
        first_id_from(info, cands, config, i) matches Some(k) ==> 0 <= k < cands.len() && id_match(
            info,
            cands[k],
            config,
        ),
    decreases cands.len() - i,
{
    if 0 <= i < cands.len() && !id_match(info, cands[i], config) {
        lemma_first_id_is_match(info, cands, config, i + 1);
    }
}

/// The engine is a function of its inputs: two runs on the same file,
/// candidates, configuration and artist option give the same ordered list,
/// and so the same top score.
pub proof fn lemma_matching_deterministic(
    info: AudioFileInfo,
    cands: Seq<Track>,
    config: TaggerConfig,
    require_artist: bool,
    first: Seq<TrackMatch>,
    second: Seq<TrackMatch>,
)
    requires
        first == match_result(info, cands, config, require_artist),
        second == match_result(info, cands, config, require_artist),
    ensures
        first == second,
        first.len() > 0 ==> first[0].accuracy == second[0].accuracy,
{
}

/// With the duration filter on, no returned candidate differs from the
/// file's duration by more than the allowed difference.
pub proof fn lemma_duration_filter(
    info: AudioFileInfo,
    cands: Seq<Track>,
    config: TaggerConfig,
    require_artist: bool,
)
    requires
        config.match_duration,
    ensures
        forall|i: int|
            0 <= i < match_result(info, cands, config, require_artist).len() ==> {
                let t = (#[trigger] match_result(info, cands, config, require_artist)[i]).track;
                info.duration is Some && t.duration is Some ==> abs_diff(
                    info.duration->0,
                    t.duration->0,
                ) <= config.max_duration_difference
            },
{
    let r = match_result(info, cands, config, require_artist);
    lemma_first_id_is_match(info, cands, config, 0);
    match first_id_from(info, cands, config, 0) {
        Some(k) => {},
        None => {
            let sc = scored(info, cands, config, require_artist);
            lemma_sort_desc_elems(sc);
            lemma_scored_kept(info, cands, config, require_artist);
            assert forall|i: int| 0 <= i < r.len() implies duration_ok(info, (#[trigger] r[i]).track, config) by {
                let j = choose|j: int| 0 <= j < sc.len() && sc[j] == r[i];
                assert(kept(info, sc[j].track, config, require_artist));
            }
        },
    }
}

/// With matching by id on, a candidate whose id equals the file's stored id
/// for its platform (and that the duration filter lets through) makes the
/// engine return one candidate alone, with full confidence, whose id equals
/// the stored one, whatever the titles and artists say.
pub proof fn lemma_id_fast_path(
    info: AudioFileInfo,
    cands: Seq<Track>,
    config: TaggerConfig,
    require_artist: bool,
    k: int,
)
    requires
        config.match_by_id,
        0 <= k < cands.len(),
        same_id(info, cands[k]),
        duration_ok(info, cands[k], config),
    ensures
        match_result(info, cands, config, require_artist).len() == 1,
        match_result(info, cands, config, require_artist)[0].accuracy == 1000,
        same_id(info, match_result(info, cands, config, require_artist)[0].track),
        cands.contains(match_result(info, cands, config, require_artist)[0].track),
{
    lemma_first_id_found(info, cands, config, 0, k);
    let j = first_id_from(info, cands, config, 0)->0;
    assert(cands[j] == match_result(info, cands, config, require_artist)[0].track);
}


/// Confidences never rise along the list.
pub open spec fn sorted_desc(s: Seq<TrackMatch>) -> bool {
    forall|i: int, j: int| 0 <= i < j < s.len() ==> s[i].accuracy >= s[j].accuracy
}

proof fn lemma_first_below_props(s: Seq<TrackMatch>, a: u64, i: int)
    requires
        0 <= i <= s.len(),
    ensures
        forall|k: int| i <= k < first_below(s, a, i) ==> s[k].accuracy >= a,
        first_below(s, a, i) < s.len() ==> s[first_below(s, a, i)].accuracy < a,
    decreases s.len() - i,
{
    if i < s.len() && s[i].accuracy >= a {
        lemma_first_below_props(s, a, i + 1);
    }
}

/// The sort puts confidences in descending order.
pub proof fn lemma_sort_desc_sorted(s: Seq<TrackMatch>)
    ensures
        sorted_desc(sort_desc(s)),
    decreases s.len(),
{
    if s.len() > 0 {
        let prev = sort_desc(s.drop_last());
        lemma_sort_desc_sorted(s.drop_last());
        let m = s.last();
        let a = m.accuracy;
        lemma_first_below_range(prev, a, 0);
        lemma_first_below_props(prev, a, 0);
        let p = first_below(prev, a, 0);
        let r = prev.insert(p, m);
        assert forall|i: int, j: int| 0 <= i < j < r.len() implies r[i].accuracy >= r[j].accuracy by {
            if j < p {
                assert(r[i] == prev[i] && r[j] == prev[j]);
            } else if j == p {
                assert(r[i] == prev[i]);
            } else if i == p {
                assert(r[j] == prev[j - 1]);
                assert(prev[p].accuracy < a);
                if j - 1 > p {
                    assert(prev[p].accuracy >= prev[j - 1].accuracy);
                }
            } else if i < p {
                assert(r[i] == prev[i] && r[j] == prev[j - 1]);
            } else {
                assert(r[i] == prev[i - 1] && r[j] == prev[j - 1]);
            }
        }
    }
}

/// The engine's list runs from the best confidence down, so its first
/// element holds the best confidence.
pub proof fn lemma_match_result_sorted(
    info: AudioFileInfo,
    cands: Seq<Track>,
    config: TaggerConfig,
    require_artist: bool,
)
    ensures
        sorted_desc(match_result(info, cands, config, require_artist)),
{
    if first_id_from(info, cands, config, 0) is None {
        lemma_sort_desc_sorted(scored(info, cands, config, require_artist));
    }
}

} // verus!
