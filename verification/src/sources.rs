//! The files that make up a source image. Deleting the source of a `.cue`,
//! `.gdi` or `.toc` sheet must also delete its tracks, which the sheet names
//! between quotes (cue) or as bare words (gdi).
use vstd::prelude::*;
use crate::text::{chars_of, ends_with, ends_with_exec, eq_chars, find_char_exec};
use crate::text::{find_char_from, is_ws, is_ws_char, lemma_find_char_from_bounds, lines};
use crate::text::{lines_exec, lower, lower_chars, push_arg, string_of_range, views};

verus! {

/// Whether a file extension (as the path gives it) is that of a sheet that
/// lists track files, in any ASCII case.
pub open spec fn is_sheet_ext_spec(ext: Seq<char>) -> bool {
    let l = lower(ext);
    l == "cue"@ || l == "gdi"@ || l == "toc"@
}

/// Whether deleting a source with this extension must also delete the
/// tracks its sheet lists.
pub fn is_sheet_ext(ext: &str) -> (r: bool)
    ensures
        r == is_sheet_ext_spec(ext@),
{
    let l = lower_chars(&chars_of(ext));
    eq_chars(&l, &chars_of("cue")) || eq_chars(&l, &chars_of("gdi")) || eq_chars(
        &l,
        &chars_of("toc"),
    )
}

/// End of the word of `s` that starts at `i`.
pub open spec fn word_end(s: Seq<char>, i: int) -> int
    decreases s.len() - i,
{
    if i < 0 || i >= s.len() || is_ws(s[i]) {
        i
    } else {
        word_end(s, i + 1)
    }
}

/// The words of `s` from `i` on, as `str::split_whitespace` yields them.
pub open spec fn words_from(s: Seq<char>, i: int) -> Seq<Seq<char>>
    decreases s.len() - i,
{
    if i < 0 || i >= s.len() {
        seq![]
    } else if is_ws(s[i]) {
        words_from(s, i + 1)
    } else {
        let e = word_end(s, i);
        if i < e <= s.len() {
            seq![s.subrange(i, e)] + words_from(s, e)
        } else {
            seq![]
        }
    }
}

/// A bare word of a gdi sheet that names a track file.
pub open spec fn is_track_word(w: Seq<char>) -> bool {
    let l = lower(w);
    ends_with(l, ".bin"@) || ends_with(l, ".raw"@) || ends_with(l, ".iso"@)
}

/// The words of `ws` that name track files.
pub open spec fn track_words(ws: Seq<Seq<char>>) -> Seq<Seq<char>>
    decreases ws.len(),
{
    if ws.len() == 0 {
        seq![]
    } else {
        (if is_track_word(ws[0]) {
            seq![ws[0]]
        } else {
            seq![]
        }) + track_words(ws.drop_first())
    }
}

/// The track files one line of a sheet names: what stands between its first
/// two quotes (nothing when the second is missing), or, on a line without
/// quotes, its words ending in `.bin`, `.raw` or `.iso`.
pub open spec fn line_tracks(l: Seq<char>) -> Seq<Seq<char>> {
    match find_char_from(l, '"', 0) {
        Some(a) => match find_char_from(l, '"', a + 1) {
            Some(b) => if a + 1 <= b <= l.len() {
                seq![l.subrange(a + 1, b)]
            } else {
                seq![]
            },
            None => seq![],
        },
        None => track_words(words_from(l, 0)),
    }
}

/// The track files named by the lines `ls`, in order.
pub open spec fn sheet_tracks(ls: Seq<Seq<char>>) -> Seq<Seq<char>>
    decreases ls.len(),
{
    if ls.len() == 0 {
        seq![]
    } else {
        line_tracks(ls[0]) + sheet_tracks(ls.drop_first())
    }
}

proof fn lemma_word_end(s: Seq<char>, i: int, e: int)
    requires
        0 <= i <= e <= s.len(),
        forall|j: int| i <= j < e ==> !is_ws(s[j]),
        e == s.len() || is_ws(s[e]),
    ensures
        word_end(s, i) == e,
    decreases e - i,
{
    if i < e {
        lemma_word_end(s, i + 1, e);
    }
}

fn is_track_word_exec(w: &Vec<char>) -> (r: bool)
    ensures
        r == is_track_word(w@),
{
    let l = lower_chars(w);
    ends_with_exec(&l, &chars_of(".bin")) || ends_with_exec(&l, &chars_of(".raw"))
        || ends_with_exec(&l, &chars_of(".iso"))
}

proof fn lemma_track_words_concat(a: Seq<Seq<char>>, b: Seq<Seq<char>>)
    ensures
        track_words(a + b) == track_words(a) + track_words(b),
    decreases a.len(),
{
    if a.len() == 0 {
        assert(a + b =~= b);
        assert(track_words(a) + track_words(b) =~= track_words(b));
    } else {
        lemma_track_words_concat(a.drop_first(), b);
        assert((a + b).drop_first() =~= a.drop_first() + b);
        assert(track_words(a + b) =~= track_words(a) + track_words(b));
    }
}

/// The words of a line that name track files.
fn word_tracks(v: &Vec<char>) -> (r: Vec<String>)
    ensures
        views(r@) == track_words(words_from(v@, 0)),
{
    let n = v.len();
    let mut out: Vec<String> = Vec::new();
    let mut i: usize = 0;
    while i < n
        invariant
            n == v.len(),
            i <= n,
            track_words(words_from(v@, 0)) == views(out@) + track_words(words_from(v@, i as int)),
        decreases n - i,
    {
        if is_ws_char(v[i]) {
            i += 1;
        } else {
            let mut e = i;
            while e < n && !is_ws_char(v[e])
                invariant
                    i <= e <= n == v.len(),
                    forall|j: int| i <= j < e ==> !is_ws(v@[j]),
                decreases n - e,
            {
                e += 1;
            }
            proof {
                lemma_word_end(v@, i as int, e as int);
            }
            let wv = chars_of(string_of_range(v, i, e).as_str());
            let ghost w = v@.subrange(i as int, e as int);
            let ghost before = views(out@);
            assert(wv@ == w);
            proof {
                assert(seq![w].drop_first() =~= Seq::<Seq<char>>::empty());
                assert(track_words(Seq::<Seq<char>>::empty()) == Seq::<Seq<char>>::empty());
                assert(words_from(v@, i as int) == seq![w] + words_from(v@, e as int));
                lemma_track_words_concat(seq![w], words_from(v@, e as int));
                assert(seq![w].drop_first() =~= Seq::<Seq<char>>::empty());
            }
            if is_track_word_exec(&wv) {
                push_arg(&mut out, string_of_range(v, i, e));
                assert(track_words(seq![w]) =~= seq![w]);
                assert(before + (seq![w] + track_words(words_from(v@, e as int))) =~= views(out@)
                    + track_words(words_from(v@, e as int)));
            } else {
                assert(track_words(seq![w]) =~= Seq::<Seq<char>>::empty());
                assert(before + (Seq::<Seq<char>>::empty() + track_words(words_from(v@, e as int)))
                    =~= before + track_words(words_from(v@, e as int)));
            }
            i = e;
        }
    }
    assert(views(out@) + Seq::<Seq<char>>::empty() =~= views(out@));
    out
}

/// The track files one line of a sheet names.
fn tracks_of_line(v: &Vec<char>) -> (r: Vec<String>)
    ensures
        views(r@) == line_tracks(v@),
{
    match find_char_exec(v, '"', 0) {
        Some(a) => {
            proof {
                lemma_find_char_from_bounds(v@, '"', 0);
                assert(find_char_from(v@, '"', 0) == Some(a as int));
                assert(a < v@.len());
                lemma_find_char_from_bounds(v@, '"', a + 1);
            }
            assert(a < v.len());
            match find_char_exec(v, '"', a + 1) {
                Some(b) => {
                    let mut out: Vec<String> = Vec::new();
                    push_arg(&mut out, string_of_range(v, a + 1, b));
                    assert(views(out@) =~= seq![v@.subrange(a + 1, b as int)]);
                    out
                },
                None => {
                    let out: Vec<String> = Vec::new();
                    assert(views(out@) =~= Seq::<Seq<char>>::empty());
                    out
                },
            }
        },
        None => word_tracks(v),
    }
}

/// The track files that a cue or gdi sheet names, in order.
pub fn track_names(text: &str) -> (r: Vec<String>)
    ensures
        views(r@) == sheet_tracks(lines(text@)),
{
    let tv = chars_of(text);
    let ls = lines_exec(&tv);
    let ghost lv = views(ls@);
    let mut out: Vec<String> = Vec::new();
    let mut i: usize = 0;
    assert(lv.skip(0) =~= lv);
    while i < ls.len()
        invariant
            i <= ls.len(),
            lv == views(ls@),
            lv == lines(text@),
            sheet_tracks(lv) == views(out@) + sheet_tracks(lv.skip(i as int)),
        decreases ls.len() - i,
    {
        let lc = chars_of(ls[i].as_str());
        let found = tracks_of_line(&lc);
        proof {
            assert(lv.skip(i as int).drop_first() =~= lv.skip(i + 1));
            assert(lv.skip(i as int)[0] == lc@);
        }
        let ghost before = views(out@);
        let mut k: usize = 0;
        while k < found.len()
            invariant
                k <= found.len(),
                views(out@) == before + views(found@).take(k as int),
            decreases found.len() - k,
        {
            push_arg(&mut out, found[k].clone());
            assert(views(found@).take(k + 1) =~= views(found@).take(k as int).push(found@[k as int]@));
            k += 1;
        }
        assert(views(found@).take(found.len() as int) =~= views(found@));
        assert(before + (line_tracks(lc@) + sheet_tracks(lv.skip(i + 1))) =~= views(out@)
            + sheet_tracks(lv.skip(i + 1)));
        i += 1;
    }
    assert(lv.skip(i as int) =~= Seq::<Seq<char>>::empty());
    assert(views(out@) + Seq::<Seq<char>>::empty() =~= views(out@));
    out
}

proof fn lemma_no_quote(s: Seq<char>, from: int)
    requires
        0 <= from,
        forall|k: int| from <= k < s.len() ==> s[k] != '"',
    ensures
        find_char_from(s, '"', from) is None,
    decreases s.len() - from,
{
    if from < s.len() {
        lemma_no_quote(s, from + 1);
    }
}

/// Whether `w`, lower-cased, ends in `.bin`, `.raw` or `.iso`.
pub open spec fn has_track_suffix(w: Seq<char>) -> bool {
    ends_with(lower(w), ".bin"@) || ends_with(lower(w), ".raw"@) || ends_with(lower(w), ".iso"@)
}

/// A sheet line made of one bare word (no blanks, no quotes) names that
/// word as a track file exactly when the word, lower-cased, ends in `.bin`,
/// `.raw` or `.iso`, and names nothing otherwise.
pub proof fn lemma_bare_word_line(w: Seq<char>)
    requires
        w.len() > 0,
        forall|k: int| 0 <= k < w.len() ==> !is_ws(#[trigger] w[k]) && w[k] != '"',
    ensures
        line_tracks(w) == (if has_track_suffix(w) {
            seq![w]
        } else {
            seq![]
        }),
{
    lemma_no_quote(w, 0);
    lemma_word_end(w, 0, w.len() as int);
    assert(w.subrange(0, w.len() as int) =~= w);
    assert(words_from(w, w.len() as int) =~= Seq::<Seq<char>>::empty());
    assert(words_from(w, 0) =~= seq![w]);
    assert(seq![w].drop_first() =~= Seq::<Seq<char>>::empty());
    assert(track_words(Seq::<Seq<char>>::empty()) == Seq::<Seq<char>>::empty());
    if has_track_suffix(w) {
        assert(track_words(seq![w]) =~= seq![w]);
    } else {
        assert(track_words(seq![w]) =~= Seq::<Seq<char>>::empty());
    }
}

proof fn lemma_lower_suffix(w: Seq<char>, up: Seq<char>, low: Seq<char>)
    requires
        ends_with(w, up),
        lower(up) == low,
    ensures
        ends_with(lower(w), low),
{
    assert(lower(w).skip(w.len() - up.len()) =~= lower(w.skip(w.len() - up.len())));
}

/// Case does not matter: two bare words that lower-case alike are listed
/// alike, so `TRACK01.BIN` is a track just as `track01.bin` is.
pub proof fn lemma_track_case(w1: Seq<char>, w2: Seq<char>)
    requires
        w1.len() > 0,
        w2.len() > 0,
        forall|k: int| 0 <= k < w1.len() ==> !is_ws(#[trigger] w1[k]) && w1[k] != '"',
        forall|k: int| 0 <= k < w2.len() ==> !is_ws(#[trigger] w2[k]) && w2[k] != '"',
        lower(w1) == lower(w2),
    ensures
        line_tracks(w1).len() == line_tracks(w2).len(),
        ends_with(w1, ".BIN"@) || ends_with(w1, ".RAW"@) || ends_with(w1, ".ISO"@) ||
            ends_with(w1, ".bin"@) || ends_with(w1, ".raw"@) || ends_with(w1, ".iso"@)
            ==> line_tracks(w1) == seq![w1],
{
    lemma_bare_word_line(w1);
    lemma_bare_word_line(w2);
    reveal_strlit(".BIN");
    reveal_strlit(".RAW");
    reveal_strlit(".ISO");
    reveal_strlit(".bin");
    reveal_strlit(".raw");
    reveal_strlit(".iso");
    assert(lower(".BIN"@) =~= ".bin"@);
    assert(lower(".RAW"@) =~= ".raw"@);
    assert(lower(".ISO"@) =~= ".iso"@);
    assert(lower(".bin"@) =~= ".bin"@);
    assert(lower(".raw"@) =~= ".raw"@);
    assert(lower(".iso"@) =~= ".iso"@);
    if ends_with(w1, ".BIN"@) {
        lemma_lower_suffix(w1, ".BIN"@, ".bin"@);
    }
    if ends_with(w1, ".RAW"@) {
        lemma_lower_suffix(w1, ".RAW"@, ".raw"@);
    }
    if ends_with(w1, ".ISO"@) {
        lemma_lower_suffix(w1, ".ISO"@, ".iso"@);
    }
    if ends_with(w1, ".bin"@) {
        lemma_lower_suffix(w1, ".bin"@, ".bin"@);
    }
    if ends_with(w1, ".raw"@) {
        lemma_lower_suffix(w1, ".raw"@, ".raw"@);
    }
    if ends_with(w1, ".iso"@) {
        lemma_lower_suffix(w1, ".iso"@, ".iso"@);
    }
}

} // verus!
