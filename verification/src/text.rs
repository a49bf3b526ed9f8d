use vstd::prelude::*;

verus! {

broadcast use vstd::string::group_string_axioms;

// ---------------------------------------------------------------------------
// Character classes
// ---------------------------------------------------------------------------

/// Unicode `White_Space`, the set that `char::is_whitespace` tests.
pub open spec fn is_ws(c: char) -> bool {
    ||| c == '\t' || c == '\n' || c == '\u{0B}' || c == '\u{0C}' || c == '\r' || c == ' '
    ||| c == '\u{85}' || c == '\u{A0}' || c == '\u{1680}'
    ||| ('\u{2000}' as u32 <= c as u32 && c as u32 <= '\u{200A}' as u32)
    ||| c == '\u{2028}' || c == '\u{2029}' || c == '\u{202F}' || c == '\u{205F}' || c == '\u{3000}'
}

pub fn is_whitespace(c: char) -> (b: bool)
    ensures
        b == is_ws(c),
{
    c == '\t' || c == '\n' || c == '\u{0B}' || c == '\u{0C}' || c == '\r' || c == ' '
        || c == '\u{85}' || c == '\u{A0}' || c == '\u{1680}'
        || ('\u{2000}' <= c && c <= '\u{200A}')
        || c == '\u{2028}' || c == '\u{2029}' || c == '\u{202F}' || c == '\u{205F}'
        || c == '\u{3000}'
}

pub open spec fn is_ascii_alnum(c: char) -> bool {
    ||| ('a' as u32 <= c as u32 && c as u32 <= 'z' as u32)
    ||| ('A' as u32 <= c as u32 && c as u32 <= 'Z' as u32)
    ||| ('0' as u32 <= c as u32 && c as u32 <= '9' as u32)
}

pub fn is_ascii_alphanumeric(c: char) -> (b: bool)
    ensures
        b == is_ascii_alnum(c),
{
    ('a' <= c && c <= 'z') || ('A' <= c && c <= 'Z') || ('0' <= c && c <= '9')
}

// ---------------------------------------------------------------------------
// Trimming
// ---------------------------------------------------------------------------

/// `s` without the leading characters that match `pat` (a character, or with
/// no character, whitespace).
pub open spec fn trim_start_by(s: Seq<char>, pat: Option<char>) -> Seq<char>
    decreases s.len(),
{
    if s.len() > 0 && is_sep(s[0], pat) {
        trim_start_by(s.drop_first(), pat)
    } else {
        s
    }
}

/// `s` without the trailing characters that match `pat`.
pub open spec fn trim_end_by(s: Seq<char>, pat: Option<char>) -> Seq<char>
    decreases s.len(),
{
    if s.len() > 0 && is_sep(s.last(), pat) {
        trim_end_by(s.drop_last(), pat)
    } else {
        s
    }
}

/// `s` without leading and trailing characters that match `pat`
/// (`str::trim_matches`).
pub open spec fn trim_by(s: Seq<char>, pat: Option<char>) -> Seq<char> {
    trim_end_by(trim_start_by(s, pat), pat)
}

/// What `str::trim` leaves: `s` without leading and trailing whitespace.
pub open spec fn trim(s: Seq<char>) -> Seq<char> {
    trim_by(s, None)
}

pub fn chars_of(s: &str) -> (v: Vec<char>)
    ensures
        v@ == s@,
{
    let mut v: Vec<char> = Vec::new();
    for c in it: s.chars()
        invariant
            v@ == it.seq().take(it.index() as int),
    {
        v.push(c);
    }
    assert(v@ =~= s@);
    v
}

/// Bounds of what is left of `v[lo..hi]` once characters matching `pat` are
/// trimmed from both ends.
pub fn trim_bounds_by(v: &Vec<char>, lo: usize, hi: usize, pat: Option<char>) -> (r: (
    usize,
    usize,
))
    requires
        lo <= hi <= v.len(),
    ensures
        lo <= r.0 <= r.1 <= hi,
        v@.subrange(r.0 as int, r.1 as int) == trim_by(v@.subrange(lo as int, hi as int), pat),
{
    let mut a = lo;
    while a < hi && matches_pattern(v[a], pat)
        invariant
            lo <= a <= hi <= v.len(),
            trim_start_by(v@.subrange(lo as int, hi as int), pat) == trim_start_by(
                v@.subrange(a as int, hi as int),
                pat,
            ),
        decreases hi - a,
    {
        assert(v@.subrange(a as int, hi as int).drop_first() =~= v@.subrange(
            a + 1,
            hi as int,
        ));
        a = a + 1;
    }
    assert(trim_start_by(v@.subrange(a as int, hi as int), pat) == v@.subrange(
        a as int,
        hi as int,
    ));
    let mut b = hi;
    while b > a && matches_pattern(v[b - 1], pat)
        invariant
            lo <= a <= b <= hi <= v.len(),
            trim_end_by(v@.subrange(a as int, hi as int), pat) == trim_end_by(
                v@.subrange(a as int, b as int),
                pat,
            ),
        decreases b - a,
    {
        assert(v@.subrange(a as int, b as int).drop_last() =~= v@.subrange(
            a as int,
            b - 1,
        ));
        b = b - 1;
    }
    (a, b)
}

/// Bounds of the trimmed part of `v[lo..hi]`.
pub fn trim_bounds(v: &Vec<char>, lo: usize, hi: usize) -> (r: (usize, usize))
    requires
        lo <= hi <= v.len(),
    ensures
        lo <= r.0 <= r.1 <= hi,
        v@.subrange(r.0 as int, r.1 as int) == trim(v@.subrange(lo as int, hi as int)),
{
    trim_bounds_by(v, lo, hi, None)
}

/// `s` without leading and trailing whitespace.
pub fn trim_str(s: &str) -> (r: String)
    ensures
        r@ == trim(s@),
{
    let v = chars_of(s);
    let (a, b) = trim_bounds(&v, 0, v.len());
    assert(v@.subrange(0, v.len() as int) =~= v@);
    s.substring_char(a, b).to_string()
}

// ---------------------------------------------------------------------------
// Splitting
// ---------------------------------------------------------------------------

/// Whether `c` separates pieces: it equals `sep`, or, with no `sep`, it is
/// whitespace.
pub open spec fn is_sep(c: char, sep: Option<char>) -> bool {
    match sep {
        Some(x) => c == x,
        None => is_ws(c),
    }
}

/// The pieces of `s` between separators (what `str::split` gives, with a
/// character or with `char::is_whitespace` as the pattern).
pub open spec fn split_gen(s: Seq<char>, sep: Option<char>) -> Seq<Seq<char>>
    decreases s.len(),
{
    if s.len() == 0 {
        seq![Seq::empty()]
    } else {
        let prev = split_gen(s.drop_last(), sep);
        if is_sep(s.last(), sep) {
            prev.push(Seq::empty())
        } else {
            prev.update(prev.len() - 1, prev.last().push(s.last()))
        }
    }
}

/// The pieces of `s` between occurrences of `sep` (what `str::split` gives).
pub open spec fn split(s: Seq<char>, sep: char) -> Seq<Seq<char>> {
    split_gen(s, Some(sep))
}

pub proof fn lemma_split_nonempty(s: Seq<char>, sep: Option<char>)
    ensures
        split_gen(s, sep).len() >= 1,
    decreases s.len(),
{
    if s.len() > 0 {
        lemma_split_nonempty(s.drop_last(), sep);
    }
}

/// Whether `c` matches `sep`: equals it, or, with no `sep`, is whitespace.
pub fn matches_pattern(c: char, sep: Option<char>) -> (b: bool)
    ensures
        b == is_sep(c, sep),
{
    match sep {
        Some(x) => c == x,
        None => is_whitespace(c),
    }
}

/// Spans `(a, b)` of `v` whose contents are the pieces of `split_gen(v, sep)`.
pub fn split_spans(v: &Vec<char>, sep: Option<char>) -> (r: Vec<(usize, usize)>)
    ensures
        r.len() == split_gen(v@, sep).len(),
        forall|i: int|
            #![trigger r[i]]
            0 <= i < r.len() ==> r[i].0 <= r[i].1 <= v.len() && v@.subrange(
                r[i].0 as int,
                r[i].1 as int,
            ) == split_gen(v@, sep)[i],
{
    let mut r: Vec<(usize, usize)> = Vec::new();
    let mut start: usize = 0;
    let mut i: usize = 0;
    assert(v@.take(0) =~= Seq::<char>::empty());
    while i < v.len()
        invariant
            start <= i <= v.len(),
            r.len() + 1 == split_gen(v@.take(i as int), sep).len(),
            split_gen(v@.take(i as int), sep).last() == v@.subrange(start as int, i as int),
            forall|j: int|
                #![trigger r[j]]
                0 <= j < r.len() ==> r[j].0 <= r[j].1 <= v.len() && v@.subrange(
                    r[j].0 as int,
                    r[j].1 as int,
                ) == split_gen(v@.take(i as int), sep)[j],
        decreases v.len() - i,
    {
        let ghost prev = split_gen(v@.take(i as int), sep);
        let ghost old_r = r@;
        proof {
            lemma_split_nonempty(v@.take(i as int), sep);
            assert(v@.take(i + 1).drop_last() =~= v@.take(i as int));
            assert(v@.take(i + 1).last() == v[i as int]);
        }
        let ghost cur = split_gen(v@.take(i + 1), sep);
        if matches_pattern(v[i], sep) {
            assert(cur == prev.push(Seq::empty()));
            r.push((start, i));
            start = i + 1;
            assert(v@.subrange(start as int, (i + 1) as int) =~= Seq::<char>::empty());
            assert forall|j: int| #![trigger r[j]] 0 <= j < r.len() implies r[j].0 <= r[j].1
                <= v.len() && v@.subrange(r[j].0 as int, r[j].1 as int) == cur[j] by {
                if j < old_r.len() {
                    assert(r[j] == old_r[j]);
                }
            }
        } else {
            assert(cur == prev.update(prev.len() - 1, prev.last().push(v[i as int])));
            assert(v@.subrange(start as int, (i + 1) as int) =~= v@.subrange(
                start as int,
                i as int,
            ).push(v[i as int]));
            assert forall|j: int| #![trigger r[j]] 0 <= j < r.len() implies r[j].0 <= r[j].1
                <= v.len() && v@.subrange(r[j].0 as int, r[j].1 as int) == cur[j] by {
                assert(cur[j] == prev[j]);
            }
        }
        i = i + 1;
    }
    let ghost old_r = r@;
    let ghost fin = split_gen(v@.take(i as int), sep);
    r.push((start, i));
    assert(v@.take(i as int) =~= v@);
    assert forall|j: int| #![trigger r[j]] 0 <= j < r.len() implies r[j].0 <= r[j].1 <= v.len()
        && v@.subrange(r[j].0 as int, r[j].1 as int) == split_gen(v@, sep)[j] by {
        if j < old_r.len() {
            assert(r[j] == old_r[j]);
        }
    }
    r
}

// ---------------------------------------------------------------------------
// Lines
// ---------------------------------------------------------------------------

pub open spec fn strip_cr(l: Seq<char>) -> Seq<char> {
    if l.len() > 0 && l.last() == '\r' {
        l.drop_last()
    } else {
        l
    }
}

/// The lines of `s` as `str::lines` yields them: split at `\n`, a `\r` before
/// a `\n` dropped, and no empty line after a final line ending.
pub open spec fn lines(s: Seq<char>) -> Seq<Seq<char>> {
    let p = split(s, '\n');
    let terminated = p.drop_last().map_values(|l: Seq<char>| strip_cr(l));
    if p.last().len() == 0 {
        terminated
    } else {
        terminated.push(p.last())
    }
}

/// Spans `(a, b)` of `v` whose contents are the lines of `v`.
pub fn line_spans(v: &Vec<char>) -> (r: Vec<(usize, usize)>)
    ensures
        r.len() == lines(v@).len(),
        forall|i: int|
            #![trigger r[i]]
            0 <= i < r.len() ==> r[i].0 <= r[i].1 <= v.len() && v@.subrange(
                r[i].0 as int,
                r[i].1 as int,
            ) == lines(v@)[i],
{
    let pieces = split_spans(v, Some('\n'));
    proof {
        lemma_split_nonempty(v@, Some('\n'));
    }
    let ghost p = split(v@, '\n');
    let mut r: Vec<(usize, usize)> = Vec::new();
    let n = pieces.len() - 1;
    let mut k: usize = 0;
    while k < n
        invariant
            n + 1 == pieces.len() == p.len(),
            p == split(v@, '\n'),
            k <= n,
            r.len() == k,
            forall|i: int|
                #![trigger pieces[i]]
                0 <= i < pieces.len() ==> pieces[i].0 <= pieces[i].1 <= v.len() && v@.subrange(
                    pieces[i].0 as int,
                    pieces[i].1 as int,
                ) == p[i],
            forall|j: int|
                #![trigger r[j]]
                0 <= j < k ==> r[j].0 <= r[j].1 <= v.len() && v@.subrange(
                    r[j].0 as int,
                    r[j].1 as int,
                ) == strip_cr(p[j]),
        decreases n - k,
    {
        let (a, b) = pieces[k];
        let ghost old_r = r@;
        assert(v@.subrange(a as int, b as int) == p[k as int]);
        if a < b && v[b - 1] == '\r' {
            assert(v@.subrange(a as int, (b - 1) as int) =~= p[k as int].drop_last());
            r.push((a, b - 1));
        } else {
            r.push((a, b));
        }
        assert forall|j: int| #![trigger r[j]] 0 <= j < k + 1 implies r[j].0 <= r[j].1 <= v.len()
            && v@.subrange(r[j].0 as int, r[j].1 as int) == strip_cr(p[j]) by {
            if j < k {
                assert(r[j] == old_r[j]);
            }
        }
        k = k + 1;
    }
    let (a, b) = pieces[n];
    assert(v@.subrange(a as int, b as int) == p[n as int]);
    let ghost t = p.drop_last().map_values(|l: Seq<char>| strip_cr(l));
    assert(p.last() == p[n as int]);
    assert(t.len() == n);
    assert forall|j: int| 0 <= j < n implies #[trigger] t[j] == strip_cr(p[j]) by {}
    let ghost old_r = r@;
    if a < b {
        r.push((a, b));
        assert forall|j: int| #![trigger r[j]] 0 <= j < r.len() implies r[j].0 <= r[j].1 <= v.len()
            && v@.subrange(r[j].0 as int, r[j].1 as int) == lines(v@)[j] by {
            if j < n {
                assert(r[j] == old_r[j]);
                assert(lines(v@)[j] == t[j]);
            }
        }
    } else {
        assert forall|j: int| #![trigger r[j]] 0 <= j < r.len() implies r[j].0 <= r[j].1 <= v.len()
            && v@.subrange(r[j].0 as int, r[j].1 as int) == lines(v@)[j] by {
            assert(lines(v@)[j] == t[j]);
        }
    }
    r
}

// ---------------------------------------------------------------------------
// Non-blank trimmed lines
// ---------------------------------------------------------------------------

/// Each of `ls` trimmed, with the ones that are then empty left out.
pub open spec fn nonblank(ls: Seq<Seq<char>>) -> Seq<Seq<char>>
    decreases ls.len(),
{
    if ls.len() == 0 {
        Seq::empty()
    } else {
        let rest = nonblank(ls.drop_last());
        let t = trim(ls.last());
        if t.len() == 0 {
            rest
        } else {
            rest.push(t)
        }
    }
}

/// `s.lines().map(str::trim).filter(|l| !l.is_empty())`.
pub open spec fn nonblank_lines(s: Seq<char>) -> Seq<Seq<char>> {
    nonblank(lines(s))
}

/// The trimmed, non-empty lines of `s`.
pub fn nonblank_lines_of(s: &str) -> (r: Vec<String>)
    ensures
        r.deep_view() == nonblank_lines(s@),
{
    let v = chars_of(s);
    let spans = line_spans(&v);
    let ghost ls = lines(v@);
    let mut r: Vec<String> = Vec::new();
    let mut k: usize = 0;
    while k < spans.len()
        invariant
            v@ == s@,
            ls == lines(v@),
            spans.len() == ls.len(),
            k <= spans.len(),
            forall|i: int|
                #![trigger spans[i]]
                0 <= i < spans.len() ==> spans[i].0 <= spans[i].1 <= v.len() && v@.subrange(
                    spans[i].0 as int,
                    spans[i].1 as int,
                ) == ls[i],
            r.deep_view() == nonblank(ls.take(k as int)),
        decreases spans.len() - k,
    {
        let (lo, hi) = spans[k];
        assert(lo <= hi <= v.len() && v@.subrange(lo as int, hi as int) == ls[k as int]);
        let (a, b) = trim_bounds(&v, lo, hi);
        proof {
            assert(ls.take(k + 1).drop_last() =~= ls.take(k as int));
            assert(ls.take(k + 1).last() == ls[k as int]);
        }
        if a < b {
            let piece = s.substring_char(a, b).to_string();
            r.push(piece);
            assert(r.deep_view() =~= nonblank(ls.take(k as int)).push(
                v@.subrange(a as int, b as int),
            ));
        }
        k = k + 1;
    }
    assert(ls.take(k as int) =~= ls);
    r
}

proof fn lemma_trim_start_shape(s: Seq<char>, pat: Option<char>)
    ensures
        trim_start_by(s, pat).len() > 0 ==> !is_sep(trim_start_by(s, pat)[0], pat),
        trim_start_by(s, pat).len() <= s.len(),
        trim_start_by(s, pat) == s.skip(s.len() - trim_start_by(s, pat).len()),
    decreases s.len(),
{
    if s.len() > 0 && is_sep(s[0], pat) {
        lemma_trim_start_shape(s.drop_first(), pat);
        let t = trim_start_by(s.drop_first(), pat);
        assert(s.drop_first().skip(s.drop_first().len() - t.len()) =~= s.skip(s.len() - t.len()));
    } else {
        assert(s.skip(0) =~= s);
    }
}

proof fn lemma_trim_end_shape(s: Seq<char>, pat: Option<char>)
    ensures
        trim_end_by(s, pat).len() > 0 ==> !is_sep(trim_end_by(s, pat).last(), pat),
        trim_end_by(s, pat).len() <= s.len(),
        trim_end_by(s, pat) == s.take(trim_end_by(s, pat).len() as int),
    decreases s.len(),
{
    if s.len() > 0 && is_sep(s.last(), pat) {
        lemma_trim_end_shape(s.drop_last(), pat);
        let t = trim_end_by(s.drop_last(), pat);
        assert(s.drop_last().take(t.len() as int) =~= s.take(t.len() as int));
    } else {
        assert(s.take(s.len() as int) =~= s);
    }
}

/// A trimmed string that is not empty neither starts nor ends with
/// whitespace.
pub proof fn lemma_trim_shape(s: Seq<char>)
    ensures
        trim(s).len() > 0 ==> !is_ws(trim(s)[0]) && !is_ws(trim(s).last()),
{
    let t = trim_start_by(s, None);
    lemma_trim_start_shape(s, None);
    lemma_trim_end_shape(t, None);
    let u = trim_end_by(t, None);
    if u.len() > 0 {
        assert(u[0] == t[0]);
    }
}

proof fn lemma_nonblank_members(ls: Seq<Seq<char>>, i: int)
    requires
        0 <= i < nonblank(ls).len(),
    ensures
        nonblank(ls)[i].len() > 0,
        !is_ws(nonblank(ls)[i][0]),
        !is_ws(nonblank(ls)[i].last()),
    decreases ls.len(),
{
    let rest = nonblank(ls.drop_last());
    lemma_trim_shape(ls.last());
    if i < rest.len() {
        lemma_nonblank_members(ls.drop_last(), i);
    }
}

/// Every line that `nonblank_lines` keeps is non-empty and has neither
/// leading nor trailing whitespace.
pub proof fn law_nonblank_lines_are_trimmed(s: Seq<char>, i: int)
    requires
        0 <= i < nonblank_lines(s).len(),
    ensures
        nonblank_lines(s)[i].len() > 0,
        !is_ws(nonblank_lines(s)[i][0]),
        !is_ws(nonblank_lines(s)[i].last()),
{
    lemma_nonblank_members(lines(s), i);
}

// ---------------------------------------------------------------------------
// Words
// ---------------------------------------------------------------------------

/// `ps` without its empty pieces.
pub open spec fn drop_empty(ps: Seq<Seq<char>>) -> Seq<Seq<char>>
    decreases ps.len(),
{
    if ps.len() == 0 {
        Seq::empty()
    } else {
        let rest = drop_empty(ps.drop_last());
        if ps.last().len() == 0 {
            rest
        } else {
            rest.push(ps.last())
        }
    }
}

/// The words of `s`, as `str::split_whitespace` yields them.
pub open spec fn words(s: Seq<char>) -> Seq<Seq<char>> {
    drop_empty(split_gen(s, None))
}

/// Spans of the non-empty pieces of `v` between separators.
pub fn nonempty_piece_spans(v: &Vec<char>, sep: Option<char>) -> (r: Vec<(usize, usize)>)
    ensures
        r.len() == drop_empty(split_gen(v@, sep)).len(),
        forall|i: int|
            #![trigger r[i]]
            0 <= i < r.len() ==> r[i].0 < r[i].1 <= v.len() && v@.subrange(
                r[i].0 as int,
                r[i].1 as int,
            ) == drop_empty(split_gen(v@, sep))[i],
{
    let pieces = split_spans(v, sep);
    let ghost p = split_gen(v@, sep);
    let mut r: Vec<(usize, usize)> = Vec::new();
    let mut k: usize = 0;
    while k < pieces.len()
        invariant
            pieces.len() == p.len(),
            p == split_gen(v@, sep),
            k <= pieces.len(),
            forall|i: int|
                #![trigger pieces[i]]
                0 <= i < pieces.len() ==> pieces[i].0 <= pieces[i].1 <= v.len() && v@.subrange(
                    pieces[i].0 as int,
                    pieces[i].1 as int,
                ) == p[i],
            r.len() == drop_empty(p.take(k as int)).len(),
            forall|j: int|
                #![trigger r[j]]
                0 <= j < r.len() ==> r[j].0 < r[j].1 <= v.len() && v@.subrange(
                    r[j].0 as int,
                    r[j].1 as int,
                ) == drop_empty(p.take(k as int))[j],
        decreases pieces.len() - k,
    {
        let (a, b) = pieces[k];
        let ghost old_r = r@;
        assert(v@.subrange(a as int, b as int) == p[k as int]);
        assert(p.take(k + 1).drop_last() =~= p.take(k as int));
        assert(p.take(k + 1).last() == p[k as int]);
        if a < b {
            r.push((a, b));
            assert forall|j: int| #![trigger r[j]] 0 <= j < r.len() implies r[j].0 < r[j].1
                <= v.len() && v@.subrange(r[j].0 as int, r[j].1 as int) == drop_empty(
                p.take(k + 1),
            )[j] by {
                if j < old_r.len() {
                    assert(r[j] == old_r[j]);
                }
            }
        }
        k = k + 1;
    }
    assert(p.take(k as int) =~= p);
    r
}

/// The words of `s`.
pub fn words_of(s: &str) -> (r: Vec<String>)
    ensures
        r.deep_view() == words(s@),
{
    let v = chars_of(s);
    let spans = nonempty_piece_spans(&v, None);
    let mut r: Vec<String> = Vec::new();
    let mut k: usize = 0;
    while k < spans.len()
        invariant
            v@ == s@,
            k <= spans.len(),
            spans.len() == words(v@).len(),
            forall|i: int|
                #![trigger spans[i]]
                0 <= i < spans.len() ==> spans[i].0 < spans[i].1 <= v.len() && v@.subrange(
                    spans[i].0 as int,
                    spans[i].1 as int,
                ) == words(v@)[i],
            r.len() == k,
            forall|j: int| 0 <= j < k ==> #[trigger] r[j]@ == words(v@)[j],
        decreases spans.len() - k,
    {
        let (a, b) = spans[k];
        let w = s.substring_char(a, b).to_string();
        r.push(w);
        k = k + 1;
    }
    assert(r.deep_view() =~= words(s@));
    r
}

// ---------------------------------------------------------------------------
// Lists of strings
// ---------------------------------------------------------------------------

/// Appends a copy of `x` to `v`.
pub fn push_copy(v: &mut Vec<String>, x: &String)
    ensures
        final(v).deep_view() == old(v).deep_view().push(x@),
{
    let y = x.clone();
    v.push(y);
    assert(v.deep_view() =~= old(v).deep_view().push(x@));
}

/// Appends copies of `xs` to `v`, in order.
pub fn extend_strings(v: &mut Vec<String>, xs: &Vec<String>)
    ensures
        final(v).deep_view() == old(v).deep_view() + xs.deep_view(),
{
    let mut i: usize = 0;
    while i < xs.len()
        invariant
            i <= xs.len(),
            v.deep_view() == old(v).deep_view() + xs.deep_view().take(i as int),
        decreases xs.len() - i,
    {
        push_copy(v, &xs[i]);
        assert(xs.deep_view().take(i + 1) =~= xs.deep_view().take(i as int).push(xs[i as int]@));
        assert(v.deep_view() =~= old(v).deep_view() + xs.deep_view().take(i + 1));
        i = i + 1;
    }
    assert(xs.deep_view().take(i as int) =~= xs.deep_view());
}

// ---------------------------------------------------------------------------
// Comparisons
// ---------------------------------------------------------------------------

pub open spec fn seq_starts_with(s: Seq<char>, p: Seq<char>) -> bool {
    p.len() <= s.len() && s.take(p.len() as int) == p
}

pub open spec fn seq_ends_with(s: Seq<char>, p: Seq<char>) -> bool {
    p.len() <= s.len() && s.skip(s.len() - p.len()) == p
}

pub open spec fn seq_contains_sub(s: Seq<char>, p: Seq<char>) -> bool {
    exists|i: int| 0 <= i && i + p.len() <= s.len() && #[trigger] s.subrange(i, i + p.len()) == p
}

/// Whether `v[at..at + p.len()]` equals `p`.
pub fn matches_at(v: &Vec<char>, at: usize, p: &Vec<char>) -> (b: bool)
    requires
        at + p.len() <= v.len(),
    ensures
        b == (v@.subrange(at as int, at + p.len()) == p@),
{
    let mut i: usize = 0;
    while i < p.len()
        invariant
            at + p.len() <= v.len(),
            i <= p.len(),
            forall|j: int| 0 <= j < i ==> v@[at + j] == p@[j],
        decreases p.len() - i,
    {
        if v[at + i] != p[i] {
            assert(v@.subrange(at as int, at + p.len())[i as int] != p@[i as int]);
            return false;
        }
        i = i + 1;
    }
    assert(v@.subrange(at as int, at + p.len()) =~= p@);
    true
}

pub fn str_eq(a: &str, b: &str) -> (r: bool)
    ensures
        r == (a@ == b@),
{
    let va = chars_of(a);
    let vb = chars_of(b);
    if va.len() != vb.len() {
        return false;
    }
    let r = matches_at(&va, 0, &vb);
    assert(va@.subrange(0, vb@.len() as int) =~= va@);
    r
}

pub fn starts_with(s: &str, p: &str) -> (r: bool)
    ensures
        r == seq_starts_with(s@, p@),
{
    let v = chars_of(s);
    let w = chars_of(p);
    if w.len() > v.len() {
        return false;
    }
    matches_at(&v, 0, &w)
}

pub fn ends_with(s: &str, p: &str) -> (r: bool)
    ensures
        r == seq_ends_with(s@, p@),
{
    let v = chars_of(s);
    let w = chars_of(p);
    if w.len() > v.len() {
        return false;
    }
    let r = matches_at(&v, v.len() - w.len(), &w);
    assert(v@.subrange((v.len() - w.len()) as int, v.len() as int) =~= v@.skip(
        v.len() - w.len(),
    ));
    r
}

pub fn contains_sub(s: &str, p: &str) -> (r: bool)
    ensures
        r == seq_contains_sub(s@, p@),
{
    let v = chars_of(s);
    let w = chars_of(p);
    if w.len() > v.len() {
        return false;
    }
    let mut i: usize = 0;
    let last = v.len() - w.len();
    while i <= last
        invariant
            v@ == s@,
            w@ == p@,
            w.len() <= v.len(),
            last == v.len() - w.len(),
            i <= last + 1,
            forall|j: int|
                0 <= j < i ==> #[trigger] v@.subrange(j, j + w.len()) != w@,
        decreases last + 1 - i,
    {
        if matches_at(&v, i, &w) {
            return true;
        }
        if i == last {
            return false;
        }
        i = i + 1;
    }
    false
}

/// Whether `s` holds the character `c`.
pub fn contains_char(s: &str, c: char) -> (r: bool)
    ensures
        r == s@.contains(c),
{
    let v = chars_of(s);
    let mut i: usize = 0;
    while i < v.len()
        invariant
            v@ == s@,
            i <= v.len(),
            forall|j: int| 0 <= j < i ==> v@[j] != c,
        decreases v.len() - i,
    {
        if v[i] == c {
            return true;
        }
        i = i + 1;
    }
    false
}

// ---------------------------------------------------------------------------
// Pieces of messages
// ---------------------------------------------------------------------------

/// The decimal digit for `d` (below ten).
pub open spec fn digit_char(d: nat) -> char {
    if d == 0 {
        '0'
    } else if d == 1 {
        '1'
    } else if d == 2 {
        '2'
    } else if d == 3 {
        '3'
    } else if d == 4 {
        '4'
    } else if d == 5 {
        '5'
    } else if d == 6 {
        '6'
    } else if d == 7 {
        '7'
    } else if d == 8 {
        '8'
    } else {
        '9'
    }
}

/// `n` written in decimal, without leading zeros (`{}` of an integer).
pub open spec fn decimal_text(n: nat) -> Seq<char>
    decreases n,
{
    if n < 10 {
        seq![digit_char(n)]
    } else {
        decimal_text(n / 10).push(digit_char(n % 10))
    }
}

fn digit_str(d: u32) -> (r: &'static str)
    requires
        d < 10,
    ensures
        r@ == seq![digit_char(d as nat)],
{
    proof {
        reveal_strlit("0");
        reveal_strlit("1");
        reveal_strlit("2");
        reveal_strlit("3");
        reveal_strlit("4");
        reveal_strlit("5");
        reveal_strlit("6");
        reveal_strlit("7");
        reveal_strlit("8");
        reveal_strlit("9");
    }
    match d {
        0 => "0",
        1 => "1",
        2 => "2",
        3 => "3",
        4 => "4",
        5 => "5",
        6 => "6",
        7 => "7",
        8 => "8",
        _ => "9",
    }
}

/// `n` in decimal.
pub fn decimal_string(n: u32) -> (r: String)
    ensures
        r@ == decimal_text(n as nat),
    decreases n,
{
    if n < 10 {
        digit_str(n).to_string()
    } else {
        let mut r = decimal_string(n / 10);
        r.append(digit_str(n % 10));
        r
    }
}

/// What `{:?}` writes for a character: std's quoted, escaped form.
pub uninterp spec fn char_debug(c: char) -> Seq<char>;

/// What `{:?}` writes for a string: std's quoted, escaped form.
pub uninterp spec fn str_debug(s: Seq<char>) -> Seq<char>;

/// Formats `c` with `<char as Debug>::fmt`. The result is taken to be
/// `char_debug(c)`: it depends on `c` alone; what the escaping does is not
/// stated here.
#[verifier::external_body]
pub(crate) fn char_debug_string(c: char) -> (r: String)
    ensures
        r@ == char_debug(c),
{
    format!("{:?}", c)
}

/// Formats `s` with `<str as Debug>::fmt`. The result is taken to be
/// `str_debug(s@)`: it depends on the characters of `s` alone; what the
/// escaping does is not stated here.
#[verifier::external_body]
pub(crate) fn str_debug_string(s: &str) -> (r: String)
    ensures
        r@ == str_debug(s@),
{
    format!("{:?}", s)
}

} // verus!
