//! Reading what the tools print while they work: the output is cut into
//! lines, and progress lines give a percentage, a compression ratio and a
//! phase.
//!
//! Numbers are returned as their decimal text. Only texts that `f32`'s
//! `FromStr` accepts are returned: made of digits and dots, they have at
//! least one digit and at most one dot (`5`, `5.`, `.5`, `43.2`).
use vstd::prelude::*;
use crate::text::{chars_of, contains, contains_exec, find, find_char_exec, find_char_from};
use crate::text::{find_from, find_from_exec, is_digit, string_of_range, trim, trim_bounds, views};
use crate::tools::opt_view;

verus! {

// ------------------------------------------------------------------ numbers

pub open spec fn is_num_char(c: char) -> bool {
    is_digit(c) || c == '.'
}

/// The run of digits and dots at the end of `s`.
pub open spec fn trailing_num(s: Seq<char>) -> Seq<char>
    decreases s.len(),
{
    if s.len() > 0 && is_num_char(s.last()) {
        trailing_num(s.drop_last()).push(s.last())
    } else {
        seq![]
    }
}

/// The run of digits and dots at the start of `s`.
pub open spec fn leading_num(s: Seq<char>) -> Seq<char>
    decreases s.len(),
{
    if s.len() > 0 && is_num_char(s[0]) {
        seq![s[0]] + leading_num(s.drop_first())
    } else {
        seq![]
    }
}

/// A text of digits and dots that reads as a number: at least one digit and
/// at most one dot.
pub open spec fn is_decimal(s: Seq<char>) -> bool {
    &&& exists|i: int| 0 <= i < s.len() && is_digit(#[trigger] s[i])
    &&& forall|i: int, j: int|
        0 <= i < j < s.len() && #[trigger] s[i] == '.' ==> #[trigger] s[j] != '.'
}

/// The number glued to the end of a fragment: "Compressing, 43.2" gives
/// "43.2".
pub open spec fn number_before_spec(head: Seq<char>) -> Option<Seq<char>> {
    let t = trailing_num(head);
    if is_decimal(t) {
        Some(t)
    } else {
        None
    }
}

/// The number of the last percent sign among the first `n` characters that
/// has one glued before it.
pub open spec fn percent_token_upto(s: Seq<char>, n: int) -> Option<Seq<char>>
    decreases n,
{
    if n <= 0 || n > s.len() {
        None
    } else if s[n - 1] == '%' && number_before_spec(s.take(n - 1)) is Some {
        number_before_spec(s.take(n - 1))
    } else {
        percent_token_upto(s, n - 1)
    }
}

/// The last token shaped like a percentage: "[ 43%|####]" gives "43".
pub open spec fn percent_token_spec(s: Seq<char>) -> Option<Seq<char>> {
    percent_token_upto(s, s.len() as int)
}

/// The percentage of a progress line: the number before "% complete"
/// (chdman), or else the last percentage token (the tqdm bar of nsz).
pub open spec fn percent_spec(line: Seq<char>) -> Option<Seq<char>> {
    match find(line, "% complete"@) {
        Some(i) => number_before_spec(line.take(i)),
        None => percent_token_spec(line),
    }
}

/// The compression ratio of a progress line: the number after "ratio=".
pub open spec fn ratio_spec(line: Seq<char>) -> Option<Seq<char>> {
    match find(line, "ratio="@) {
        Some(i) => {
            let t = leading_num(line.skip(i + 6));
            if is_decimal(t) {
                Some(t)
            } else {
                None
            }
        },
        None => None,
    }
}

/// What comes before the first comma of a line.
pub open spec fn head_spec(line: Seq<char>) -> Seq<char> {
    match find_char_from(line, ',', 0) {
        Some(i) => line.take(i),
        None => line,
    }
}

/// The phase shown for a progress line, from the words of its head.
pub open spec fn phase_spec(line: Seq<char>) -> Seq<char> {
    let h = trim(head_spec(line));
    if contains(h, "Compress"@) {
        "Comprimiendo"@
    } else if contains(h, "Extract"@) || contains(h, "Decompress"@) {
        "Extrayendo"@
    } else if contains(h, "Verif"@) {
        "Verificando"@
    } else if contains(h, "Analyz"@) {
        "Analizando"@
    } else {
        "Procesando"@
    }
}

/// The final ratio that chdman prints when it is done: the number after
/// "final ratio =", past any blanks.
pub open spec fn final_ratio_spec(line: Seq<char>) -> Option<Seq<char>> {
    match find(line, "final ratio ="@) {
        Some(i) => {
            let t = leading_num(trim(line.skip(i + 13)));
            if is_decimal(t) {
                Some(t)
            } else {
                None
            }
        },
        None => None,
    }
}

proof fn lemma_trailing_num_run(s: Seq<char>, k: int, end: int)
    requires
        0 <= k <= end <= s.len(),
        forall|j: int| k <= j < end ==> is_num_char(s[j]),
        k == 0 || !is_num_char(s[k - 1]),
    ensures
        trailing_num(s.take(end)) == s.subrange(k, end),
    decreases end - k,
{
    if end == k {
        if k > 0 {
            assert(s.take(end).last() == s[k - 1]);
        }
        assert(s.subrange(k, end) =~= Seq::<char>::empty());
    } else {
        lemma_trailing_num_run(s, k, end - 1);
        assert(s.take(end).drop_last() =~= s.take(end - 1));
        assert(s.take(end).last() == s[end - 1]);
        assert(s.subrange(k, end - 1).push(s[end - 1]) =~= s.subrange(k, end));
    }
}

proof fn lemma_leading_num_run(s: Seq<char>, start: int, e: int)
    requires
        0 <= start <= e <= s.len(),
        forall|j: int| start <= j < e ==> is_num_char(s[j]),
        e == s.len() || !is_num_char(s[e]),
    ensures
        leading_num(s.skip(start)) == s.subrange(start, e),
    decreases e - start,
{
    if start == e {
        assert(s.subrange(start, e) =~= Seq::<char>::empty());
        if e < s.len() {
            assert(s.skip(start)[0] == s[e]);
        }
    } else {
        lemma_leading_num_run(s, start + 1, e);
        assert(s.skip(start).drop_first() =~= s.skip(start + 1));
        assert(seq![s[start]] + s.subrange(start + 1, e) =~= s.subrange(start, e));
    }
}

/// Whether `v[a..b]` reads as a number.
fn is_decimal_range(v: &Vec<char>, a: usize, b: usize) -> (r: bool)
    requires
        a <= b <= v.len(),
    ensures
        r == is_decimal(v@.subrange(a as int, b as int)),
{
    let ghost t = v@.subrange(a as int, b as int);
    let mut digit = false;
    let mut dot = false;
    let mut i = a;
    while i < b
        invariant
            a <= i <= b <= v.len(),
            t == v@.subrange(a as int, b as int),
            digit <==> exists|k: int| 0 <= k < i - a && is_digit(#[trigger] t[k]),
            dot <==> exists|k: int| 0 <= k < i - a && #[trigger] t[k] == '.',
            forall|x: int, y: int|
                0 <= x < y < i - a && #[trigger] t[x] == '.' ==> #[trigger] t[y] != '.',
        decreases b - i,
    {
        let c = v[i];
        assert(t[i - a] == c);
        if c == '.' {
            if dot {
                let ghost k = choose|k: int| 0 <= k < i - a && #[trigger] t[k] == '.';
                assert(t[k] == '.' && t[i - a] == '.');
                return false;
            }
            dot = true;
        }
        if '0' <= c && c <= '9' {
            digit = true;
        }
        i += 1;
    }
    digit
}

/// The number glued to the end of `v[..end]`.
fn number_before(v: &Vec<char>, end: usize) -> (r: Option<String>)
    requires
        end <= v.len(),
    ensures
        opt_view(r) == number_before_spec(v@.take(end as int)),
{
    let mut k = end;
    while k > 0 && (('0' <= v[k - 1] && v[k - 1] <= '9') || v[k - 1] == '.')
        invariant
            k <= end <= v.len(),
            forall|j: int| k <= j < end ==> is_num_char(v@[j]),
        decreases k,
    {
        k -= 1;
    }
    proof {
        lemma_trailing_num_run(v@, k as int, end as int);
    }
    if is_decimal_range(v, k, end) {
        Some(string_of_range(v, k, end))
    } else {
        None
    }
}

/// The run of digits and dots of `v` starting at `start`, as bounds.
fn leading_run(v: &Vec<char>, start: usize) -> (e: usize)
    requires
        start <= v.len(),
    ensures
        start <= e <= v.len(),
        leading_num(v@.skip(start as int)) == v@.subrange(start as int, e as int),
{
    let mut e = start;
    while e < v.len() && (('0' <= v[e] && v[e] <= '9') || v[e] == '.')
        invariant
            start <= e <= v.len(),
            forall|j: int| start <= j < e ==> is_num_char(v@[j]),
        decreases v.len() - e,
    {
        e += 1;
    }
    proof {
        lemma_leading_num_run(v@, start as int, e as int);
    }
    e
}

/// The last token of a line shaped like a percentage.
fn percent_token(v: &Vec<char>) -> (r: Option<String>)
    ensures
        opt_view(r) == percent_token_spec(v@),
{
    let mut best: Option<String> = None;
    let mut i: usize = 0;
    while i < v.len()
        invariant
            i <= v.len(),
            opt_view(best) == percent_token_upto(v@, i as int),
        decreases v.len() - i,
    {
        if v[i] == '%' {
            if let Some(n) = number_before(v, i) {
                best = Some(n);
            }
        }
        i += 1;
    }
    best
}

/// What a progress line says.
#[derive(Debug, PartialEq, Eq)]
pub struct Progress {
    /// The percentage, as decimal text.
    pub percent: String,
    /// The compression ratio, as decimal text, when the line gives one.
    pub ratio: Option<String>,
    /// Comprimiendo | Extrayendo | Verificando | Analizando | Procesando
    pub phase: &'static str,
}

fn phase_of(v: &Vec<char>) -> (r: &'static str)
    ensures
        r@ == phase_spec(v@),
{
    let end = match find_char_exec(v, ',', 0) {
        Some(i) => i,
        None => v.len(),
    };
    proof {
        crate::text::lemma_find_char_from_bounds(v@, ',', 0);
        assert(v@.take(v.len() as int) =~= v@);
    }
    let head = string_of_range(v, 0, end);
    assert(head@ == head_spec(v@)) by {
        assert(v@.subrange(0, end as int) =~= v@.take(end as int));
    }
    let hv = chars_of(head.as_str());
    let (a, b) = trim_bounds(&hv);
    let h = chars_of(string_of_range(&hv, a, b).as_str());
    if contains_exec(&h, &chars_of("Compress")) {
        "Comprimiendo"
    } else if contains_exec(&h, &chars_of("Extract")) || contains_exec(&h, &chars_of("Decompress")) {
        "Extrayendo"
    } else if contains_exec(&h, &chars_of("Verif")) {
        "Verificando"
    } else if contains_exec(&h, &chars_of("Analyz")) {
        "Analizando"
    } else {
        "Procesando"
    }
}

/// Reads a progress line. chdman writes "Compressing, 43.2% complete...
/// (ratio=51.0%)" while nsz draws a tqdm bar with a bare percentage; both
/// forms are accepted. `None` when the line gives no percentage.
pub fn parse_progress(line: &str) -> (r: Option<Progress>)
    ensures
        match r {
            None => percent_spec(line@) is None,
            Some(p) => {
                &&& percent_spec(line@) == Some(p.percent@)
                &&& opt_view(p.ratio) == ratio_spec(line@)
                &&& p.phase@ == phase_spec(line@)
            },
        },
{
    let v = chars_of(line);
    let pct = match find_from_exec(&v, &chars_of("% complete"), 0) {
        Some(idx) => {
            proof {
                crate::text::lemma_find_from_bounds(v@, "% complete"@, 0);
            }
            number_before(&v, idx)
        },
        None => percent_token(&v),
    };
    let percent = match pct {
        Some(p) => p,
        None => return None,
    };
    let ratio = match find_from_exec(&v, &chars_of("ratio="), 0) {
        Some(i) => {
            proof {
                crate::text::lemma_find_from_bounds(v@, "ratio="@, 0);
                reveal_strlit("ratio=");
            }
            let start = i + 6;
            let e = leading_run(&v, start);
            if is_decimal_range(&v, start, e) {
                Some(string_of_range(&v, start, e))
            } else {
                None
            }
        },
        None => None,
    };
    let phase = phase_of(&v);
    Some(Progress { percent, ratio, phase })
}

/// The final ratio that chdman prints once it is done, as decimal text.
pub fn final_ratio(line: &str) -> (r: Option<String>)
    ensures
        opt_view(r) == final_ratio_spec(line@),
{
    let v = chars_of(line);
    let mark = chars_of("final ratio =");
    proof {
        reveal_strlit("final ratio =");
    }
    assert(mark@.len() == 13);
    match find_from_exec(&v, &mark, 0) {
        Some(i) => {
            proof {
                crate::text::lemma_find_from_bounds(v@, mark@, 0);
                assert(find_from(v@, mark@, 0) == Some(i as int));
                assert(i + mark@.len() <= v@.len());
            }
            assert(mark@.len() == 13);
            assert(i + 13 <= v.len());
            let rest = string_of_range(&v, i + 13, v.len());
            assert(rest@ =~= v@.skip(i + 13));
            let rv = chars_of(rest.as_str());
            let (a, b) = trim_bounds(&rv);
            let tv = chars_of(string_of_range(&rv, a, b).as_str());
            let e = leading_run(&tv, 0);
            assert(tv@.skip(0) =~= tv@);
            if is_decimal_range(&tv, 0, e) {
                Some(string_of_range(&tv, 0, e))
            } else {
                None
            }
        },
        None => None,
    }
}

// ------------------------------------------------------------------ lines

/// chdman rewrites its progress line with `\r`, so output is cut at both
/// `\r` and `\n`.
pub open spec fn is_break(c: char) -> bool {
    c == '\r' || c == '\n'
}

/// First line break at or after `i`.
pub open spec fn break_from(s: Seq<char>, i: int) -> Option<int>
    decreases s.len() - i,
{
    if i < 0 || i >= s.len() {
        None
    } else if is_break(s[i]) {
        Some(i)
    } else {
        break_from(s, i + 1)
    }
}

/// The complete lines in `s` from `start` on, trimmed, leaving out the
/// blank ones.
pub open spec fn pending_lines(s: Seq<char>, start: int) -> Seq<Seq<char>>
    decreases s.len() - start,
{
    match break_from(s, start) {
        Some(p) => if start <= p < s.len() {
            let l = trim(s.subrange(start, p));
            (if l.len() > 0 {
                seq![l]
            } else {
                seq![]
            }) + pending_lines(s, p + 1)
        } else {
            seq![]
        },
        None => seq![],
    }
}

/// Where the incomplete last line of `s` starts (from `start` on).
pub open spec fn pending_rest(s: Seq<char>, start: int) -> int
    decreases s.len() - start,
{
    match break_from(s, start) {
        Some(p) => if start <= p < s.len() {
            pending_rest(s, p + 1)
        } else {
            start
        },
        None => start,
    }
}

proof fn lemma_break_hit(s: Seq<char>, from: int, k: int)
    requires
        0 <= from <= k < s.len(),
        is_break(s[k]),
        forall|j: int| from <= j < k ==> !is_break(s[j]),
    ensures
        break_from(s, from) == Some(k),
    decreases k - from,
{
    if from < k {
        lemma_break_hit(s, from + 1, k);
    }
}

proof fn lemma_break_miss(s: Seq<char>, from: int)
    requires
        0 <= from,
        forall|j: int| from <= j < s.len() ==> !is_break(s[j]),
    ensures
        break_from(s, from) is None,
    decreases s.len() - from,
{
    if from < s.len() {
        lemma_break_miss(s, from + 1);
    }
}

/// Adds a chunk of a tool's output to the pending text `acc`, and returns
/// the complete lines it now holds, trimmed and without the blank ones;
/// `acc` keeps the incomplete last line.
pub fn split_output(acc: &mut String, chunk: &str) -> (r: Vec<String>)
    ensures
        views(r@) == pending_lines(old(acc)@ + chunk@, 0),
        final(acc)@ == (old(acc)@ + chunk@).skip(pending_rest(old(acc)@ + chunk@, 0)),
{
    acc.append(chunk);
    let v = chars_of(acc.as_str());
    let ghost s = v@;
    let n = v.len();
    let mut out: Vec<String> = Vec::new();
    let mut start: usize = 0;
    let mut i: usize = 0;
    while i < n
        invariant
            n == v.len(),
            s == v@,
            start <= i <= n,
            pending_lines(s, 0) == views(out@) + pending_lines(s, start as int),
            pending_rest(s, 0) == pending_rest(s, start as int),
            forall|j: int| start <= j < i ==> !is_break(s[j]),
        decreases n - i,
    {
        if v[i] == '\r' || v[i] == '\n' {
            proof {
                lemma_break_hit(s, start as int, i as int);
            }
            let seg = chars_of(string_of_range(&v, start, i).as_str());
            let (a, b) = trim_bounds(&seg);
            if a < b {
                let l = string_of_range(&seg, a, b);
                let ghost before = views(out@);
                out.push(l);
                assert(views(out@) =~= before.push(l@));
                assert(before + (seq![l@] + pending_lines(s, i + 1)) =~= before.push(l@)
                    + pending_lines(s, i + 1));
            } else {
                assert(pending_lines(s, start as int) =~= pending_lines(s, i + 1));
            }
            start = i + 1;
        }
        i += 1;
    }
    proof {
        lemma_break_miss(s, start as int);
    }
    assert(views(out@) + Seq::<Seq<char>>::empty() =~= views(out@));
    let rest = string_of_range(&v, start, n);
    assert(rest@ =~= s.skip(start as int));
    *acc = rest;
    out
}

/// What remains of a tool's output once its pipe is closed: the pending
/// text, trimmed, unless it is blank.
pub fn flush_output(acc: &str) -> (r: Option<String>)
    ensures
        match r {
            Some(l) => l@ == trim(acc@) && l@.len() > 0,
            None => trim(acc@).len() == 0,
        },
{
    let t = crate::text::trim_str(acc);
    if t.as_str().is_empty() {
        None
    } else {
        Some(t)
    }
}

// ------------------------------------------------------------------ laws

proof fn lemma_break_bounds(s: Seq<char>, i: int)
    ensures
        break_from(s, i) matches Some(p) ==> 0 <= i <= p < s.len() && is_break(s[p]),
    decreases s.len() - i,
{
    if 0 <= i < s.len() && !is_break(s[i]) {
        lemma_break_bounds(s, i + 1);
    }
}

proof fn lemma_break_extend(s: Seq<char>, t: Seq<char>, i: int)
    requires
        break_from(s, i) is Some,
    ensures
        break_from(s + t, i) == break_from(s, i),
    decreases s.len() - i,
{
    if 0 <= i < s.len() && !is_break(s[i]) {
        lemma_break_extend(s, t, i + 1);
    }
}

proof fn lemma_break_shift(u: Seq<char>, k: int, j: int)
    requires
        0 <= k <= j,
        k <= u.len(),
    ensures
        break_from(u, j) == (match break_from(u.skip(k), j - k) {
            Some(p) => Some(p + k),
            None => None,
        }),
    decreases u.len() - j,
{
    if j < u.len() && !is_break(u[j]) {
        lemma_break_shift(u, k, j + 1);
    }
}

proof fn lemma_pending_shift(u: Seq<char>, k: int, j: int)
    requires
        0 <= k <= j,
        k <= u.len(),
    ensures
        pending_lines(u, j) == pending_lines(u.skip(k), j - k),
        pending_rest(u, j) == pending_rest(u.skip(k), j - k) + k,
    decreases u.len() - j,
{
    lemma_break_shift(u, k, j);
    lemma_break_bounds(u, j);
    match break_from(u, j) {
        Some(p) => {
            lemma_pending_shift(u, k, p + 1);
            assert(u.subrange(j, p) =~= u.skip(k).subrange(j - k, p - k));
        },
        None => {},
    }
}

proof fn lemma_pending_extend(s: Seq<char>, t: Seq<char>, start: int)
    requires
        0 <= start <= s.len(),
    ensures
        pending_lines(s + t, start) == pending_lines(s, start) + pending_lines(
            s + t,
            pending_rest(s, start),
        ),
        pending_rest(s + t, start) == pending_rest(s + t, pending_rest(s, start)),
        start <= pending_rest(s, start) <= s.len(),
    decreases s.len() - start,
{
    lemma_break_bounds(s, start);
    match break_from(s, start) {
        Some(p) => {
            lemma_break_extend(s, t, start);
            lemma_pending_extend(s, t, p + 1);
            assert((s + t).subrange(start, p) =~= s.subrange(start, p));
            let l = trim(s.subrange(start, p));
            let head: Seq<Seq<char>> = if l.len() > 0 {
                seq![l]
            } else {
                seq![]
            };
            assert(head + (pending_lines(s, p + 1) + pending_lines(s + t, pending_rest(s, p + 1)))
                =~= (head + pending_lines(s, p + 1)) + pending_lines(s + t, pending_rest(s, p + 1)));
        },
        None => {
            assert(Seq::<Seq<char>>::empty() + pending_lines(s + t, start) =~= pending_lines(
                s + t,
                start,
            ));
        },
    }
}

/// Reading a pipe does not depend on how its bytes were cut into chunks:
/// feeding `c1` then `c2` to the pending text `acc` gives, one after the
/// other, the same lines as feeding `c1 + c2` at once, and leaves the same
/// pending text.
pub proof fn lemma_chunking_invariant(acc: Seq<char>, c1: Seq<char>, c2: Seq<char>)
    ensures
        ({
            let s1 = acc + c1;
            let acc1 = s1.skip(pending_rest(s1, 0));
            let s2 = acc1 + c2;
            let all = acc + (c1 + c2);
            &&& pending_lines(all, 0) == pending_lines(s1, 0) + pending_lines(s2, 0)
            &&& all.skip(pending_rest(all, 0)) == s2.skip(pending_rest(s2, 0))
        }),
{
    let s1 = acc + c1;
    let r1 = pending_rest(s1, 0);
    let acc1 = s1.skip(r1);
    let s2 = acc1 + c2;
    let all = acc + (c1 + c2);
    assert(all =~= s1 + c2);
    lemma_pending_extend(s1, c2, 0);
    lemma_pending_shift(s1 + c2, r1, r1);
    assert((s1 + c2).skip(r1) =~= s2);
    let r2 = pending_rest(s2, 0);
    lemma_pending_extend(s2, Seq::<char>::empty(), 0);
    assert((s1 + c2).skip(r2 + r1) =~= s2.skip(r2));
}

/// Every line read from a tool's output is non-empty and holds no line
/// break.
pub proof fn lemma_pending_lines_clean(s: Seq<char>, start: int)
    requires
        0 <= start,
    ensures
        forall|i: int|
            0 <= i < pending_lines(s, start).len() ==> {
                let l = #[trigger] pending_lines(s, start)[i];
                &&& l.len() > 0
                &&& forall|j: int| 0 <= j < l.len() ==> !is_break(l[j])
            },
    decreases s.len() - start,
{
    lemma_break_bounds(s, start);
    match break_from(s, start) {
        Some(p) => {
            lemma_pending_lines_clean(s, p + 1);
            let seg = s.subrange(start, p);
            assert forall|j: int| 0 <= j < seg.len() implies !is_break(seg[j]) by {
                lemma_break_first(s, start, start + j);
            }
            crate::text::lemma_trim_within(seg);
            let l = trim(seg);
            let head: Seq<Seq<char>> = if l.len() > 0 {
                seq![l]
            } else {
                seq![]
            };
            assert forall|i: int| 0 <= i < pending_lines(s, start).len() implies {
                let m = #[trigger] pending_lines(s, start)[i];
                &&& m.len() > 0
                &&& forall|j: int| 0 <= j < m.len() ==> !is_break(m[j])
            } by {
                if i < head.len() {
                    assert(pending_lines(s, start)[i] == l);
                } else {
                    assert(pending_lines(s, start)[i] == pending_lines(s, p + 1)[i - head.len()]);
                }
            }
        },
        None => {},
    }
}

proof fn lemma_break_first(s: Seq<char>, from: int, j: int)
    requires
        0 <= from <= j,
        break_from(s, from) matches Some(p) && j < p,
    ensures
        !is_break(s[j]),
    decreases j - from,
{
    if from < j {
        lemma_break_first(s, from + 1, j);
    }
}

proof fn lemma_percent_token_decimal(s: Seq<char>, n: int)
    ensures
        percent_token_upto(s, n) matches Some(p) ==> is_decimal(p),
    decreases n,
{
    if 0 < n <= s.len() {
        lemma_percent_token_decimal(s, n - 1);
    }
}

/// Every number read from a progress line is a decimal text with at least
/// one digit and at most one dot, so it always converts to a float.
pub proof fn lemma_numbers_are_decimal(line: Seq<char>)
    ensures
        percent_spec(line) matches Some(p) ==> is_decimal(p) && p.len() > 0,
        ratio_spec(line) matches Some(r) ==> is_decimal(r),
        final_ratio_spec(line) matches Some(r) ==> is_decimal(r),
{
    lemma_percent_token_decimal(line, line.len() as int);
}

} // verus!
