//! Character-level text primitives: the line, trim, prefix, substring and
//! field-splitting operations that the parsers of this crate are built on,
//! each stated over `Seq<char>` with the meaning `str` gives it.
use vstd::prelude::*;

verus! {

/// Unicode `White_Space`, the property that `char::is_whitespace` tests.
pub open spec fn is_whitespace(c: char) -> bool {
    ||| c == '\t' || c == '\n' || c == '\u{0B}' || c == '\u{0C}' || c == '\r' || c == ' '
    ||| c == '\u{85}' || c == '\u{A0}' || c == '\u{1680}'
    ||| ('\u{2000}' <= c && c <= '\u{200A}')
    ||| c == '\u{2028}' || c == '\u{2029}' || c == '\u{202F}' || c == '\u{205F}' || c == '\u{3000}'
}

/// `s` without its leading whitespace.
pub open spec fn trim_start(s: Seq<char>) -> Seq<char>
    decreases s.len(),
{
    if s.len() > 0 && is_whitespace(s[0]) {
        trim_start(s.drop_first())
    } else {
        s
    }
}

/// `s` without its trailing whitespace.
pub open spec fn trim_end(s: Seq<char>) -> Seq<char>
    decreases s.len(),
{
    if s.len() > 0 && is_whitespace(s.last()) {
        trim_end(s.drop_last())
    } else {
        s
    }
}

/// `s` without leading and trailing whitespace, as `str::trim` gives it.
pub open spec fn trim(s: Seq<char>) -> Seq<char> {
    trim_end(trim_start(s))
}

/// `s` begins with `p`.
pub open spec fn starts_with(s: Seq<char>, p: Seq<char>) -> bool {
    p.len() <= s.len() && s.subrange(0, p.len() as int) == p
}

/// `p` occurs in `s` at position `i`.
pub open spec fn occurs_at(s: Seq<char>, p: Seq<char>, i: int) -> bool {
    0 <= i && i + p.len() <= s.len() && s.subrange(i, i + p.len()) == p
}

/// `p` occurs somewhere in `s` (the empty pattern occurs in every string).
pub open spec fn contains(s: Seq<char>, p: Seq<char>) -> bool {
    exists|i: int| occurs_at(s, p, i)
}

/// The position of the first `c` in `s`, or `s.len()` where there is none.
pub open spec fn index_of(s: Seq<char>, c: char) -> int
    decreases s.len(),
{
    if s.len() == 0 {
        0
    } else if s[0] == c {
        0
    } else {
        1 + index_of(s.drop_first(), c)
    }
}

/// `line` without one trailing carriage return.
pub open spec fn strip_cr(line: Seq<char>) -> Seq<char> {
    if line.len() > 0 && line.last() == '\r' {
        line.drop_last()
    } else {
        line
    }
}

/// The lines of `s` as `str::lines` yields them: split after each `\n`,
/// each line without its `\n` and then without one `\r` before it; a final
/// line ending adds no empty line, and a last line with no `\n` is kept whole.
pub open spec fn lines(s: Seq<char>) -> Seq<Seq<char>>
    decreases s.len(),
{
    if s.len() == 0 {
        seq![]
    } else {
        let i = index_of(s, '\n');
        proof {
            lemma_index_of_bounds(s, '\n');
        }
        if i >= s.len() {
            seq![s]
        } else {
            seq![strip_cr(s.take(i))] + lines(s.skip(i + 1))
        }
    }
}

/// The fields of `s` separated by `c`, as `str::split(c)` yields them.
pub open spec fn split_on(s: Seq<char>, c: char) -> Seq<Seq<char>>
    decreases s.len(),
{
    let i = index_of(s, c);
    proof {
        lemma_index_of_bounds(s, c);
    }
    if i >= s.len() {
        seq![s]
    } else {
        seq![s.take(i)] + split_on(s.skip(i + 1), c)
    }
}

/// The pieces of `parts` joined with `sep` between neighbours.
pub open spec fn join(parts: Seq<Seq<char>>, sep: Seq<char>) -> Seq<char>
    decreases parts.len(),
{
    if parts.len() == 0 {
        seq![]
    } else if parts.len() == 1 {
        parts[0]
    } else {
        join(parts.drop_last(), sep) + sep + parts.last()
    }
}

pub proof fn lemma_index_of_bounds(s: Seq<char>, c: char)
    ensures
        0 <= index_of(s, c) <= s.len(),
        index_of(s, c) < s.len() ==> s[index_of(s, c)] == c,
        forall|k: int| 0 <= k < index_of(s, c) ==> s[k] != c,
    decreases s.len(),
{
    if s.len() > 0 && s[0] != c {
        lemma_index_of_bounds(s.drop_first(), c);
        assert forall|k: int| 0 <= k < index_of(s, c) implies s[k] != c by {
            if k > 0 {
                assert(s[k] == s.drop_first()[k - 1]);
            }
        }
    }
}

/// `index_of` is determined by where the first `c` is.
pub proof fn lemma_index_of_unique(s: Seq<char>, c: char, i: int)
    requires
        0 <= i <= s.len(),
        i < s.len() ==> s[i] == c,
        forall|k: int| 0 <= k < i ==> s[k] != c,
    ensures
        index_of(s, c) == i,
    decreases s.len(),
{
    if s.len() > 0 && s[0] != c {
        assert forall|k: int| 0 <= k < i - 1 implies s.drop_first()[k] != c by {
            assert(s.drop_first()[k] == s[k + 1]);
        }
        if i - 1 < s.len() - 1 {
            assert(s.drop_first()[i - 1] == s[i]);
        }
        lemma_index_of_unique(s.drop_first(), c, i - 1);
    }
}

/// `trim_start` drops exactly the whitespace run at the front.
pub proof fn lemma_trim_start_at(s: Seq<char>, a: int)
    requires
        0 <= a <= s.len(),
        forall|k: int| 0 <= k < a ==> is_whitespace(s[k]),
        a < s.len() ==> !is_whitespace(s[a]),
    ensures
        trim_start(s) == s.skip(a),
    decreases s.len(),
{
    if a == 0 {
        assert(s.skip(0) =~= s);
    } else {
        assert forall|k: int| 0 <= k < a - 1 implies is_whitespace(s.drop_first()[k]) by {
            assert(s.drop_first()[k] == s[k + 1]);
        }
        if a - 1 < s.len() - 1 {
            assert(s.drop_first()[a - 1] == s[a]);
        }
        lemma_trim_start_at(s.drop_first(), a - 1);
        assert(s.drop_first().skip(a - 1) =~= s.skip(a));
    }
}

/// `trim_end` drops exactly the whitespace run at the back.
pub proof fn lemma_trim_end_at(s: Seq<char>, b: int)
    requires
        0 <= b <= s.len(),
        forall|k: int| b <= k < s.len() ==> is_whitespace(s[k]),
        b > 0 ==> !is_whitespace(s[b - 1]),
    ensures
        trim_end(s) == s.take(b),
    decreases s.len(),
{
    if b == s.len() {
        assert(s.take(b) =~= s);
    } else {
        assert forall|k: int| b <= k < s.len() - 1 implies is_whitespace(s.drop_last()[k]) by {
        }
        lemma_trim_end_at(s.drop_last(), b);
        assert(s.drop_last().take(b) =~= s.take(b));
    }
}

/// A string built from the characters `v[lo..hi]`.
pub fn string_of_range(v: &Vec<char>, lo: usize, hi: usize) -> (s: String)
    requires
        lo <= hi <= v.len(),
    ensures
        s@ == v@.subrange(lo as int, hi as int),
{
    let mut s = String::new();
    let mut i = lo;
    while i < hi
        invariant
            lo <= i <= hi <= v.len(),
            s@ == v@.subrange(lo as int, i as int),
        decreases hi - i,
    {
        push_char(&mut s, v[i]);
        assert(v@.subrange(lo as int, i + 1) =~= v@.subrange(lo as int, i as int).push(v@[i as int]));
        i += 1;
    }
    s
}

/// Appends one character (`String::push`).
#[verifier::external_body]
pub(crate) fn push_char(s: &mut String, c: char)
    ensures
        final(s)@ == old(s)@.push(c),
{
    s.push(c);
}

/// The characters of a string slice, in order.
pub fn chars_of(s: &str) -> (v: Vec<char>)
    ensures
        v@ == s@,
{
    let mut v: Vec<char> = Vec::new();
    for c in it: s.chars()
        invariant
            v@ == it.seq().take(it.index() as int),
    {
        v.push(c);
    }
    v
}

/// Whether `c` is whitespace in the sense of `char::is_whitespace`.
pub fn char_is_whitespace(c: char) -> (b: bool)
    ensures
        b == is_whitespace(c),
{
    c == '\t' || c == '\n' || c == '\u{0B}' || c == '\u{0C}' || c == '\r' || c == ' '
        || c == '\u{85}' || c == '\u{A0}' || c == '\u{1680}'
        || ('\u{2000}' <= c && c <= '\u{200A}')
        || c == '\u{2028}' || c == '\u{2029}' || c == '\u{202F}' || c == '\u{205F}'
        || c == '\u{3000}'
}

/// The position, within `v[lo..hi]`, of the first `c`, counted from 0.
pub fn index_of_in(v: &Vec<char>, lo: usize, hi: usize, c: char) -> (r: usize)
    requires
        lo <= hi <= v.len(),
    ensures
        r as int == index_of(v@.subrange(lo as int, hi as int), c),
        r <= hi - lo,
{
    let ghost s = v@.subrange(lo as int, hi as int);
    let mut i = lo;
    while i < hi
        invariant
            lo <= i <= hi <= v.len(),
            s == v@.subrange(lo as int, hi as int),
            forall|k: int| 0 <= k < i - lo ==> s[k] != c,
        decreases hi - i,
    {
        if v[i] == c {
            proof {
                lemma_index_of_unique(s, c, i - lo);
            }
            return i - lo;
        }
        i += 1;
    }
    proof {
        lemma_index_of_unique(s, c, i - lo);
    }
    i - lo
}

/// The bounds of `v[lo..hi]` with its surrounding whitespace removed.
pub fn trim_range(v: &Vec<char>, lo: usize, hi: usize) -> (r: (usize, usize))
    requires
        lo <= hi <= v.len(),
    ensures
        lo <= r.0 <= r.1 <= hi,
        v@.subrange(r.0 as int, r.1 as int) == trim(v@.subrange(lo as int, hi as int)),
{
    let ghost s = v@.subrange(lo as int, hi as int);
    let mut a = lo;
    while a < hi && char_is_whitespace(v[a])
        invariant
            lo <= a <= hi <= v.len(),
            forall|k: int| lo <= k < a ==> is_whitespace(v@[k]),
        decreases hi - a,
    {
        a += 1;
    }
    proof {
        lemma_trim_start_at(s, a - lo);
    }
    let ghost t = v@.subrange(a as int, hi as int);
    assert(s.skip(a - lo) =~= t);
    let mut b = hi;
    while b > a && char_is_whitespace(v[b - 1])
        invariant
            lo <= a <= b <= hi <= v.len(),
            forall|k: int| b <= k < hi ==> is_whitespace(v@[k]),
        decreases b - a,
    {
        b -= 1;
    }
    proof {
        lemma_trim_end_at(t, b - a);
        assert(t.take(b - a) =~= v@.subrange(a as int, b as int));
    }
    (a, b)
}

/// Whether `v[lo..hi]` begins with `p`.
pub fn starts_with_at(v: &Vec<char>, lo: usize, hi: usize, p: &Vec<char>) -> (b: bool)
    requires
        lo <= hi <= v.len(),
    ensures
        b == starts_with(v@.subrange(lo as int, hi as int), p@),
{
    let ghost s = v@.subrange(lo as int, hi as int);
    if p.len() > hi - lo {
        return false;
    }
    let mut k: usize = 0;
    while k < p.len()
        invariant
            lo <= hi <= v.len(),
            p.len() <= hi - lo,
            k <= p.len(),
            s == v@.subrange(lo as int, hi as int),
            forall|j: int| 0 <= j < k ==> s[j] == p@[j],
        decreases p.len() - k,
    {
        if v[lo + k] != p[k] {
            assert(s.subrange(0, p.len() as int)[k as int] != p@[k as int]);
            return false;
        }
        k += 1;
    }
    assert(s.subrange(0, p.len() as int) =~= p@);
    true
}

/// Whether `p` occurs at position `i` of `v[lo..hi]`.
fn occurs_at_in(v: &Vec<char>, lo: usize, hi: usize, p: &Vec<char>, i: usize) -> (b: bool)
    requires
        lo <= hi <= v.len(),
        i <= hi - lo,
    ensures
        b == occurs_at(v@.subrange(lo as int, hi as int), p@, i as int),
{
    let ghost s = v@.subrange(lo as int, hi as int);
    let r = starts_with_at(v, lo + i, hi, p);
    proof {
        let t = v@.subrange(lo + i, hi as int);
        assert(t =~= s.skip(i as int));
        if p.len() <= t.len() {
            assert(t.subrange(0, p.len() as int) =~= s.subrange(i as int, i + p.len()));
        }
    }
    r
}

/// Whether `p` occurs in `v[lo..hi]`.
pub fn contains_in(v: &Vec<char>, lo: usize, hi: usize, p: &Vec<char>) -> (b: bool)
    requires
        lo <= hi <= v.len(),
    ensures
        b == contains(v@.subrange(lo as int, hi as int), p@),
{
    let ghost s = v@.subrange(lo as int, hi as int);
    if p.len() > hi - lo {
        assert forall|i: int| !occurs_at(s, p@, i) by {}
        return false;
    }
    let last = hi - lo - p.len();
    let mut i: usize = 0;
    loop
        invariant
            lo <= hi <= v.len(),
            p.len() <= hi - lo,
            last == hi - lo - p.len(),
            i <= last,
            s == v@.subrange(lo as int, hi as int),
            forall|j: int| 0 <= j < i ==> !occurs_at(s, p@, j),
        decreases last - i,
    {
        if occurs_at_in(v, lo, hi, p, i) {
            return true;
        }
        if i == last {
            assert forall|j: int| !occurs_at(s, p@, j) by {
                if 0 <= j <= i {
                }
            }
            return false;
        }
        i += 1;
    }
}

/// The bounds of each line of `v`, in order (see `lines`).
pub fn line_ranges(v: &Vec<char>) -> (r: Vec<(usize, usize)>)
    ensures
        r.len() == lines(v@).len(),
        forall|k: int|
            #![trigger r@[k]]
            0 <= k < r.len() ==> r@[k].0 <= r@[k].1 <= v.len() && v@.subrange(
                r@[k].0 as int,
                r@[k].1 as int,
            ) == lines(v@)[k],
{
    let len = v.len();
    let mut r: Vec<(usize, usize)> = Vec::new();
    let ghost mut done: Seq<Seq<char>> = seq![];
    let mut pos: usize = 0;
    assert(v@.skip(0) =~= v@);
    while pos < len
        invariant
            len == v.len(),
            pos <= len,
            done.len() == r.len(),
            forall|k: int|
                #![trigger r@[k]]
                0 <= k < r.len() ==> r@[k].0 <= r@[k].1 <= v.len() && v@.subrange(
                    r@[k].0 as int,
                    r@[k].1 as int,
                ) == done[k],
            lines(v@) == done + lines(v@.skip(pos as int)),
        decreases len - pos,
    {
        let ghost s = v@.skip(pos as int);
        let ghost old_r = r@;
        let ghost old_done = done;
        assert(s =~= v@.subrange(pos as int, len as int));
        let i = index_of_in(v, pos, len, '\n');
        proof {
            lemma_index_of_bounds(s, '\n');
        }
        if i == len - pos {
            r.push((pos, len));
            proof {
                done = done.push(s);
                assert(lines(s) =~= seq![s]);
                assert(v@.skip(len as int) =~= Seq::<char>::empty());
            }
            pos = len;
        } else {
            let end = pos + i;
            let stop = if i > 0 && v[end - 1] == '\r' { end - 1 } else { end };
            r.push((pos, stop));
            proof {
                assert(s.take(i as int) =~= v@.subrange(pos as int, end as int));
                assert(strip_cr(s.take(i as int)) =~= v@.subrange(pos as int, stop as int));
                assert(s.skip(i + 1) =~= v@.skip(end + 1));
                done = done.push(v@.subrange(pos as int, stop as int));
            }
            pos = end + 1;
        }
        proof {
            assert(lines(v@) =~= done + lines(v@.skip(pos as int)));
            assert forall|k: int| #![trigger r@[k]] 0 <= k < r.len() implies r@[k].0 <= r@[k].1 <= v.len()
                && v@.subrange(r@[k].0 as int, r@[k].1 as int) == done[k] by {
                if k < old_r.len() {
                    assert(r@[k] == old_r[k]);
                    assert(done[k] == old_done[k]);
                }
            }
        }
    }
    assert(v@.skip(pos as int) =~= Seq::<char>::empty());
    assert(done =~= lines(v@));
    r
}

/// The bounds of each `c`-separated field of `v[lo..hi]` (see `split_on`).
pub fn field_ranges(v: &Vec<char>, lo: usize, hi: usize, c: char) -> (r: Vec<(usize, usize)>)
    requires
        lo <= hi <= v.len(),
    ensures
        r.len() == split_on(v@.subrange(lo as int, hi as int), c).len(),
        forall|k: int|
            #![trigger r@[k]]
            0 <= k < r.len() ==> lo <= r@[k].0 <= r@[k].1 <= hi && v@.subrange(
                r@[k].0 as int,
                r@[k].1 as int,
            ) == split_on(v@.subrange(lo as int, hi as int), c)[k],
{
    let mut r: Vec<(usize, usize)> = Vec::new();
    let ghost mut done: Seq<Seq<char>> = seq![];
    let mut pos: usize = lo;
    loop
        invariant
            lo <= pos <= hi <= v.len(),
            done.len() == r.len(),
            forall|k: int|
                #![trigger r@[k]]
                0 <= k < r.len() ==> lo <= r@[k].0 <= r@[k].1 <= hi && v@.subrange(
                    r@[k].0 as int,
                    r@[k].1 as int,
                ) == done[k],
            split_on(v@.subrange(lo as int, hi as int), c) == done + split_on(
                v@.subrange(pos as int, hi as int),
                c,
            ),
        decreases hi - pos,
    {
        let ghost s = v@.subrange(pos as int, hi as int);
        let ghost old_r = r@;
        let ghost old_done = done;
        let i = index_of_in(v, pos, hi, c);
        proof {
            lemma_index_of_bounds(s, c);
        }
        if i == hi - pos {
            r.push((pos, hi));
            proof {
                assert(split_on(s, c) =~= seq![s]);
                done = done.push(s);
                assert(done =~= split_on(v@.subrange(lo as int, hi as int), c));
                assert forall|k: int| #![trigger r@[k]] 0 <= k < r.len() implies lo <= r@[k].0 <= r@[k].1 <= hi
                    && v@.subrange(r@[k].0 as int, r@[k].1 as int) == done[k] by {
                    if k < old_r.len() {
                        assert(r@[k] == old_r[k]);
                        assert(done[k] == old_done[k]);
                    }
                }
            }
            return r;
        }
        let end = pos + i;
        r.push((pos, end));
        proof {
            assert(s.take(i as int) =~= v@.subrange(pos as int, end as int));
            assert(s.skip(i + 1) =~= v@.subrange(end + 1, hi as int));
            done = done.push(v@.subrange(pos as int, end as int));
            assert(split_on(v@.subrange(lo as int, hi as int), c) =~= done + split_on(
                v@.subrange(end + 1, hi as int),
                c,
            ));
            assert forall|k: int| #![trigger r@[k]] 0 <= k < r.len() implies lo <= r@[k].0 <= r@[k].1 <= hi
                && v@.subrange(r@[k].0 as int, r@[k].1 as int) == done[k] by {
                if k < old_r.len() {
                    assert(r@[k] == old_r[k]);
                    assert(done[k] == old_done[k]);
                }
            }
        }
        pos = end + 1;
    }
}

/// What `str::to_lowercase` returns for `s`: the Unicode full lowercase
/// mapping, whose tables this crate does not restate.
pub uninterp spec fn lowercase(s: Seq<char>) -> Seq<char>;

/// `str::to_lowercase`: the lowercase form of `s`, as a new string.
#[verifier::external_body]
pub(crate) fn to_lowercase(s: &str) -> (r: String)
    ensures
        r@ == lowercase(s@),
{
    s.to_lowercase()
}

/// The string `parts[0] + sep + parts[1] + ...` built from ranges of `v`.
pub fn join_ranges(v: &Vec<char>, parts: &Vec<(usize, usize)>, sep: &str) -> (s: String)
    requires
        forall|k: int| #![trigger parts@[k]] 0 <= k < parts.len() ==> parts@[k].0 <= parts@[k].1 <= v.len(),
    ensures
        s@ == join(
            Seq::new(parts.len() as nat, |k: int| v@.subrange(parts@[k].0 as int, parts@[k].1 as int)),
            sep@,
        ),
{
    let ghost all = Seq::new(parts.len() as nat, |k: int| v@.subrange(parts@[k].0 as int, parts@[k].1 as int));
    let mut s = String::new();
    let mut j: usize = 0;
    while j < parts.len()
        invariant
            j <= parts.len(),
            all == Seq::new(parts.len() as nat, |k: int| v@.subrange(parts@[k].0 as int, parts@[k].1 as int)),
            forall|k: int| #![trigger parts@[k]] 0 <= k < parts.len() ==> parts@[k].0 <= parts@[k].1 <= v.len(),
            s@ == join(all.take(j as int), sep@),
        decreases parts.len() - j,
    {
        let (a, b) = parts[j];
        if j > 0 {
            s.append(sep);
        }
        let piece = string_of_range(v, a, b);
        s.append(piece.as_str());
        proof {
            let t = all.take(j + 1);
            assert(t.drop_last() =~= all.take(j as int));
            assert(t.last() == all[j as int]);
            if j == 0 {
                assert(join(all.take(0), sep@) =~= Seq::<char>::empty());
                assert(t.len() == 1);
            }
        }
        j += 1;
    }
    assert(all.take(parts.len() as int) =~= all);
    s
}

/// `s` with every occurrence of `p` removed, scanning from the left as
/// `str::replace(p, "")` does (a non-empty `p`; an empty one removes nothing).
pub open spec fn remove_all(s: Seq<char>, p: Seq<char>) -> Seq<char>
    decreases s.len(),
{
    if p.len() == 0 || s.len() == 0 {
        s
    } else if starts_with(s, p) {
        remove_all(s.skip(p.len() as int), p)
    } else {
        seq![s[0]] + remove_all(s.drop_first(), p)
    }
}

/// `s` with every occurrence of the non-empty `p` removed.
pub fn remove_all_str(s: &str, p: &str) -> (r: String)
    requires
        p@.len() > 0,
    ensures
        r@ == remove_all(s@, p@),
{
    let v = chars_of(s);
    let pv = chars_of(p);
    let mut out = String::new();
    let mut i: usize = 0;
    assert(v@.skip(0) =~= v@);
    while i < v.len()
        invariant
            i <= v.len(),
            v@ == s@,
            pv@ == p@,
            pv@.len() > 0,
            remove_all(v@, pv@) == out@ + remove_all(v@.skip(i as int), pv@),
        decreases v.len() - i,
    {
        let ghost rest = v@.skip(i as int);
        assert(rest =~= v@.subrange(i as int, v.len() as int));
        if starts_with_at(&v, i, v.len(), &pv) {
            assert(rest.skip(pv@.len() as int) =~= v@.skip(i + pv@.len()));
            i = i + pv.len();
        } else {
            push_char(&mut out, v[i]);
            assert(rest.drop_first() =~= v@.skip(i + 1));
            i += 1;
        }
    }
    assert(v@.skip(i as int) =~= Seq::<char>::empty());
    assert(out@ + Seq::<char>::empty() =~= out@);
    out
}

/// The lines of `s` when a `\n` follows it (as where more text is joined
/// after it): its last line ends and loses a `\r`, and an `s` that is empty
/// or ends in `\n` gives one more, empty, line.
pub open spec fn terminated_lines(s: Seq<char>) -> Seq<Seq<char>>
    decreases s.len(),
{
    let i = index_of(s, '\n');
    proof {
        lemma_index_of_bounds(s, '\n');
    }
    if i >= s.len() {
        seq![strip_cr(s)]
    } else {
        seq![strip_cr(s.take(i))] + terminated_lines(s.skip(i + 1))
    }
}

/// The lines of `a`, a `\n` and `b` are the terminated lines of `a` and then
/// the lines of `b`.
pub proof fn lemma_lines_join(a: Seq<char>, b: Seq<char>)
    ensures
        lines(a + seq!['\n'] + b) == terminated_lines(a) + lines(b),
    decreases a.len(),
{
    let s = a + seq!['\n'] + b;
    lemma_index_of_bounds(a, '\n');
    let i = index_of(a, '\n');
    assert forall|k: int| 0 <= k < i implies s[k] != '\n' by {
        assert(s[k] == a[k]);
    }
    if i >= a.len() {
        assert(s[a.len() as int] == '\n');
        lemma_index_of_unique(s, '\n', a.len() as int);
        assert(s.take(a.len() as int) =~= a);
        assert(s.skip(a.len() as int + 1) =~= b);
    } else {
        assert(s[i] == a[i]);
        lemma_index_of_unique(s, '\n', i);
        assert(s.take(i) =~= a.take(i));
        let rest = a.skip(i + 1);
        assert(s.skip(i + 1) =~= rest + seq!['\n'] + b);
        lemma_lines_join(rest, b);
        assert(lines(s) =~= terminated_lines(a) + lines(b));
    }
}

/// How the terminated lines of `a` differ from its lines: an empty `a`, or
/// one that ends in `\n`, gains an empty line; otherwise its last line loses
/// a trailing `\r`.
pub proof fn lemma_terminated_lines(a: Seq<char>)
    ensures
        a.len() == 0 ==> terminated_lines(a) == seq![Seq::<char>::empty()] && lines(a).len() == 0,
        a.len() > 0 && a.last() == '\n' ==> terminated_lines(a) == lines(a).push(Seq::<char>::empty()),
        a.len() > 0 && a.last() != '\n' ==> lines(a).len() > 0 && terminated_lines(a) == lines(a).drop_last().push(
            strip_cr(lines(a).last()),
        ),
    decreases a.len(),
{
    lemma_index_of_bounds(a, '\n');
    let i = index_of(a, '\n');
    if a.len() == 0 {
        assert(strip_cr(a) =~= Seq::<char>::empty());
    } else if i >= a.len() {
        assert(a.last() != '\n');
        assert(lines(a) =~= seq![a]);
    } else {
        let x = strip_cr(a.take(i));
        let rest = a.skip(i + 1);
        lemma_terminated_lines(rest);
        if rest.len() == 0 {
            assert(a.last() == a[i]);
            assert(lines(rest) =~= Seq::<Seq<char>>::empty());
            assert(strip_cr(rest) =~= Seq::<char>::empty());
            assert(terminated_lines(a) =~= lines(a).push(Seq::<char>::empty()));
        } else {
            assert(a.last() == rest.last());
            if rest.last() == '\n' {
                assert(terminated_lines(a) =~= lines(a).push(Seq::<char>::empty()));
            } else {
                assert(lines(a) == seq![x] + lines(rest));
                assert(terminated_lines(a) =~= lines(a).drop_last().push(strip_cr(lines(a).last())));
            }
        }
    }
}

/// Adding whitespace at the end of a string does not change its trim.
pub proof fn lemma_trim_push_whitespace(w: Seq<char>, c: char)
    requires
        is_whitespace(c),
    ensures
        trim(w.push(c)) == trim(w),
{
    lemma_trim_start_push(w, c);
    if trim_start(w).len() == 0 {
        assert(trim_end(Seq::<char>::empty()) == Seq::<char>::empty());
    } else {
        assert(trim_start(w).push(c).drop_last() =~= trim_start(w));
    }
}

proof fn lemma_trim_start_push(w: Seq<char>, c: char)
    requires
        is_whitespace(c),
    ensures
        trim_start(w).len() == 0 ==> trim_start(w.push(c)).len() == 0,
        trim_start(w).len() > 0 ==> trim_start(w.push(c)) == trim_start(w).push(c),
    decreases w.len(),
{
    if w.len() == 0 {
        assert(w.push(c).drop_first() =~= Seq::<char>::empty());
        assert(trim_start(Seq::<char>::empty()) == Seq::<char>::empty());
        assert(w.push(c)[0] == c);
    } else if is_whitespace(w[0]) {
        assert(w.push(c).drop_first() =~= w.drop_first().push(c));
        lemma_trim_start_push(w.drop_first(), c);
    } else {
        assert(w.push(c)[0] == w[0]);
    }
}

/// A trailing carriage return does not change a line's trim.
pub proof fn lemma_trim_strip_cr(z: Seq<char>)
    ensures
        trim(strip_cr(z)) == trim(z),
{
    if z.len() > 0 && z.last() == '\r' {
        lemma_trim_push_whitespace(z.drop_last(), '\r');
        assert(z.drop_last().push('\r') =~= z);
    }
}

/// `split_on` always gives at least one field.
pub proof fn lemma_split_on_nonempty(s: Seq<char>, c: char)
    ensures
        split_on(s, c).len() >= 1,
{
    lemma_index_of_bounds(s, c);
}

/// A `\r` added at the end of a string (split on something else) lands at
/// the end of its last field.
pub proof fn lemma_split_on_push_cr(s: Seq<char>, c: char)
    requires
        c != '\r',
    ensures
        split_on(s.push('\r'), c).len() == split_on(s, c).len(),
        split_on(s.push('\r'), c) == split_on(s, c).drop_last().push(split_on(s, c).last().push('\r')),
    decreases s.len(),
{
    let t = s.push('\r');
    lemma_index_of_bounds(s, c);
    lemma_split_on_nonempty(s, c);
    let i = index_of(s, c);
    assert forall|k: int| 0 <= k < i implies t[k] != c by {
        assert(t[k] == s[k]);
    }
    if i >= s.len() {
        lemma_index_of_unique(t, c, s.len() as int + 1);
        assert(split_on(t, c) =~= seq![t]);
        assert(split_on(s, c) =~= seq![s]);
    } else {
        assert(t[i] == s[i]);
        lemma_index_of_unique(t, c, i);
        assert(t.take(i) =~= s.take(i));
        assert(t.skip(i + 1) =~= s.skip(i + 1).push('\r'));
        lemma_split_on_push_cr(s.skip(i + 1), c);
        lemma_split_on_nonempty(s.skip(i + 1), c);
        assert(split_on(t, c) =~= split_on(s, c).drop_last().push(split_on(s, c).last().push('\r')));
    }
}

} // verus!
