//! Character-level string helpers: the library reasons about strings as
//! sequences of `char`s (their views).

use vstd::prelude::*;

verus! {

/// `String::push`: appends one character.
#[verifier::external_body]
pub(crate) fn push_char(s: &mut String, c: char)
    ensures
        final(s)@ == old(s)@.push(c),
{
    s.push(c);
}

/// `String::push_str`: appends a string slice.
#[verifier::external_body]
pub(crate) fn push_str(s: &mut String, t: &str)
    ensures
        final(s)@ == old(s)@ + t@,
{
    s.push_str(t);
}

/// The characters of a string slice, in order.
pub fn chars_of(s: &str) -> (v: Vec<char>)
    ensures
        v@ == s@,
{
    let mut v: Vec<char> = Vec::new();
    for c in it: s.chars()
        invariant
            v@ == it.seq().take(it.index() as int),
    {
        v.push(c);
    }
    v
}

/// An owned copy of a string slice.
pub fn owned(s: &str) -> (r: String)
    ensures
        r@ == s@,
{
    let mut r = String::new();
    push_str(&mut r, s);
    r
}

/// A string made of the given characters.
pub fn string_of(cs: &[char]) -> (s: String)
    ensures
        s@ == cs@,
{
    let mut s = String::new();
    let mut i: usize = 0;
    while i < cs.len()
        invariant
            i <= cs@.len(),
            s@ == cs@.take(i as int),
        decreases cs@.len() - i,
    {
        push_char(&mut s, cs[i]);
        proof { assert(cs@.take(i + 1) == cs@.take(i as int).push(cs@[i as int])); }
        i = i + 1;
    }
    proof { assert(cs@.take(cs@.len() as int) == cs@); }
    s
}

}

verus! {

/// The view of an optional string.
pub open spec fn opt_view(o: Option<String>) -> Option<Seq<char>> {
    match o {
        Some(s) => Some(s@),
        None => None,
    }
}

}

verus! {

// ---------------------------------------------------------------------
// Character classes and case, as std defines them
// ---------------------------------------------------------------------

/// What `char::is_whitespace` says of a character: whether it has the
/// Unicode White_Space property, which these code points have.
pub open spec fn is_whitespace_char(c: char) -> bool {
    let u = c as u32;
    ||| 0x09 <= u <= 0x0d
    ||| u == 0x20
    ||| u == 0x85
    ||| u == 0xa0
    ||| u == 0x1680
    ||| 0x2000 <= u <= 0x200a
    ||| u == 0x2028
    ||| u == 0x2029
    ||| u == 0x202f
    ||| u == 0x205f
    ||| u == 0x3000
}

/// What `char::is_alphanumeric` says of a character (Unicode Alphabetic or Numeric).
pub uninterp spec fn is_alphanumeric_char(c: char) -> bool;

/// What `str::to_lowercase` returns for a string.
pub uninterp spec fn lowercase(s: Seq<char>) -> Seq<char>;

/// Whether the character has the Unicode White_Space property, as
/// `char::is_whitespace` says.
pub(crate) fn char_is_whitespace(c: char) -> (b: bool)
    ensures
        b == is_whitespace_char(c),
{
    let u = c as u32;
    (0x09 <= u && u <= 0x0d) || u == 0x20 || u == 0x85 || u == 0xa0 || u == 0x1680
        || (0x2000 <= u && u <= 0x200a) || u == 0x2028 || u == 0x2029 || u == 0x202f
        || u == 0x205f || u == 0x3000
}

/// `char::is_alphanumeric`; named, as it depends on the character alone.
#[verifier::external_body]
pub(crate) fn char_is_alphanumeric(c: char) -> (b: bool)
    ensures
        b == is_alphanumeric_char(c),
{
    c.is_alphanumeric()
}

/// `str::to_lowercase` over a character sequence; named, as it depends on the
/// characters alone.
#[verifier::external_body]
pub(crate) fn to_lowercase(cs: &[char]) -> (r: Vec<char>)
    ensures
        r@ == lowercase(cs@),
{
    cs.iter().collect::<String>().to_lowercase().chars().collect()
}

// ---------------------------------------------------------------------
// Trimming
// ---------------------------------------------------------------------

/// `s` without its leading whitespace.
pub open spec fn trim_start(s: Seq<char>) -> Seq<char>
    decreases s.len(),
{
    if s.len() > 0 && is_whitespace_char(s[0]) { trim_start(s.drop_first()) } else { s }
}

/// `s` without its trailing whitespace.
pub open spec fn trim_end(s: Seq<char>) -> Seq<char>
    decreases s.len(),
{
    if s.len() > 0 && is_whitespace_char(s.last()) { trim_end(s.drop_last()) } else { s }
}

/// `s` without leading and trailing whitespace, as `str::trim` gives it.
pub open spec fn trim(s: Seq<char>) -> Seq<char> {
    trim_end(trim_start(s))
}

proof fn lemma_trim_start_skip(s: Seq<char>, k: int)
    requires
        0 <= k <= s.len(),
        forall|j: int| 0 <= j < k ==> is_whitespace_char(#[trigger] s[j]),
        k == s.len() || !is_whitespace_char(s[k]),
    ensures
        trim_start(s) == s.skip(k),
    decreases k,
{
    if k == 0 {
        assert(s.skip(0) =~= s);
    } else {
        let t = s.drop_first();
        assert forall|j: int| 0 <= j < k - 1 implies is_whitespace_char(#[trigger] t[j]) by {
            assert(t[j] == s[j + 1]);
        }
        if k - 1 < t.len() {
            assert(t[k - 1] == s[k]);
        }
        lemma_trim_start_skip(t, k - 1);
        assert(t.skip(k - 1) =~= s.skip(k));
    }
}

proof fn lemma_trim_end_take(s: Seq<char>, k: int)
    requires
        0 <= k <= s.len(),
        forall|j: int| k <= j < s.len() ==> is_whitespace_char(#[trigger] s[j]),
        k == 0 || !is_whitespace_char(s[k - 1]),
    ensures
        trim_end(s) == s.take(k),
    decreases s.len() - k,
{
    if k == s.len() {
        assert(s.take(k) =~= s);
    } else {
        let t = s.drop_last();
        assert forall|j: int| k <= j < t.len() implies is_whitespace_char(#[trigger] t[j]) by {
            assert(t[j] == s[j]);
        }
        if k > 0 {
            assert(t[k - 1] == s[k - 1]);
        }
        assert(is_whitespace_char(s[s.len() - 1]));
        lemma_trim_end_take(t, k);
        assert(t.take(k) =~= s.take(k));
    }
}

/// Where the trimmed part of `cs[from..to]` starts and ends.
pub fn trim_bounds(cs: &[char], from: usize, to: usize) -> (r: (usize, usize))
    requires
        from <= to <= cs.len(),
    ensures
        from <= r.0 <= r.1 <= to,
        cs@.subrange(r.0 as int, r.1 as int) == trim(cs@.subrange(from as int, to as int)),
{
    let ghost s = cs@.subrange(from as int, to as int);
    let mut a = from;
    while a < to && char_is_whitespace(cs[a])
        invariant
            from <= a <= to <= cs.len(),
            s == cs@.subrange(from as int, to as int),
            forall|j: int| from <= j < a ==> is_whitespace_char(#[trigger] cs@[j]),
        decreases to - a,
    {
        a = a + 1;
    }
    proof {
        assert forall|j: int| 0 <= j < a - from implies is_whitespace_char(#[trigger] s[j]) by {
            assert(s[j] == cs@[from + j]);
        }
        if a < to {
            assert(s[a - from] == cs@[a as int]);
        }
        lemma_trim_start_skip(s, a - from);
    }
    let ghost t = s.skip(a - from);
    let mut b = to;
    while b > a && char_is_whitespace(cs[b - 1])
        invariant
            from <= a <= b <= to <= cs.len(),
            forall|j: int| b <= j < to ==> is_whitespace_char(#[trigger] cs@[j]),
        decreases b - a,
    {
        b = b - 1;
    }
    proof {
        assert(t =~= cs@.subrange(a as int, to as int));
        assert forall|j: int| b - a <= j < t.len() implies is_whitespace_char(#[trigger] t[j]) by {
            assert(t[j] == cs@[a + j]);
        }
        if b > a {
            assert(t[b - a - 1] == cs@[b - 1]);
        }
        lemma_trim_end_take(t, b - a);
        assert(t.take(b - a) =~= cs@.subrange(a as int, b as int));
    }
    (a, b)
}

/// The trimmed characters of `cs[from..to]`.
pub fn trimmed(cs: &[char], from: usize, to: usize) -> (r: Vec<char>)
    requires
        from <= to <= cs.len(),
    ensures
        r@ == trim(cs@.subrange(from as int, to as int)),
{
    let (a, b) = trim_bounds(cs, from, to);
    slice_to_vec(cs, a, b)
}

/// A copy of `cs[from..to]`.
pub fn slice_to_vec(cs: &[char], from: usize, to: usize) -> (r: Vec<char>)
    requires
        from <= to <= cs.len(),
    ensures
        r@ == cs@.subrange(from as int, to as int),
{
    let mut r: Vec<char> = Vec::new();
    let mut i = from;
    while i < to
        invariant
            from <= i <= to <= cs.len(),
            r@ == cs@.subrange(from as int, i as int),
        decreases to - i,
    {
        r.push(cs[i]);
        proof { assert(r@ =~= cs@.subrange(from as int, i + 1)); }
        i = i + 1;
    }
    r
}

// ---------------------------------------------------------------------
// Splitting
// ---------------------------------------------------------------------

/// The pieces of `s` between occurrences of `sep`, as `str::split` with a
/// character gives them (there is always at least one piece).
pub open spec fn split_on(s: Seq<char>, sep: char) -> Seq<Seq<char>>
    decreases s.len(),
{
    if s.len() == 0 {
        seq![Seq::empty()]
    } else {
        let prev = split_on(s.drop_last(), sep);
        if s.last() == sep {
            prev.push(Seq::empty())
        } else {
            prev.update(prev.len() - 1, prev.last().push(s.last()))
        }
    }
}

proof fn lemma_split_on_nonempty(s: Seq<char>, sep: char)
    ensures
        split_on(s, sep).len() >= 1,
    decreases s.len(),
{
    if s.len() > 0 {
        lemma_split_on_nonempty(s.drop_last(), sep);
    }
}

/// The pieces of `cs` between occurrences of `sep`.
pub fn split_chars(cs: &[char], sep: char) -> (r: Vec<Vec<char>>)
    ensures
        r@.map_values(|p: Vec<char>| p@) == split_on(cs@, sep),
{
    let mut pieces: Vec<Vec<char>> = Vec::new();
    let mut current: Vec<char> = Vec::new();
    let mut i: usize = 0;
    while i < cs.len()
        invariant
            i <= cs.len(),
            pieces@.map_values(|p: Vec<char>| p@).push(current@) == split_on(cs@.take(i as int), sep),
        decreases cs.len() - i,
    {
        proof {
            assert(cs@.take(i + 1).drop_last() =~= cs@.take(i as int));
            lemma_split_on_nonempty(cs@.take(i as int), sep);
        }
        let ghost before = pieces@.map_values(|p: Vec<char>| p@).push(current@);
        if cs[i] == sep {
            let done = current;
            current = Vec::new();
            pieces.push(done);
            proof {
                assert(pieces@.map_values(|p: Vec<char>| p@).push(current@) =~= before.push(Seq::empty()));
            }
        } else {
            current.push(cs[i]);
            proof {
                assert(pieces@.map_values(|p: Vec<char>| p@).push(current@)
                    =~= before.update(before.len() - 1, before.last().push(cs@[i as int])));
            }
        }
        i = i + 1;
    }
    proof { assert(cs@.take(cs@.len() as int) =~= cs@); }
    pieces.push(current);
    pieces
}

// ---------------------------------------------------------------------
// Prefixes and searching
// ---------------------------------------------------------------------

/// Whether `s` begins with `p`.
pub open spec fn starts_with(s: Seq<char>, p: Seq<char>) -> bool {
    p.len() <= s.len() && s.take(p.len() as int) == p
}

/// Whether `cs[from..]` begins with `p`.
pub fn starts_with_at(cs: &[char], from: usize, p: &[char]) -> (b: bool)
    requires
        from <= cs.len(),
    ensures
        b == starts_with(cs@.skip(from as int), p@),
{
    if p.len() > cs.len() - from {
        return false;
    }
    let mut i: usize = 0;
    while i < p.len()
        invariant
            from + p.len() <= cs.len(),
            i <= p.len(),
            forall|j: int| 0 <= j < i ==> cs@[from + j] == p@[j],
        decreases p.len() - i,
    {
        if cs[from + i] != p[i] {
            proof {
                assert(cs@.skip(from as int).take(p.len() as int)[i as int] != p@[i as int]);
            }
            return false;
        }
        i = i + 1;
    }
    proof { assert(cs@.skip(from as int).take(p.len() as int) =~= p@); }
    true
}

/// The first position at or after `from` where `p` occurs in `cs`.
pub open spec fn is_first_occurrence(s: Seq<char>, p: Seq<char>, i: int) -> bool {
    0 <= i && starts_with(s.skip(i), p) && forall|j: int| 0 <= j < i ==> !starts_with(s.skip(j), p)
}

/// Where `p` first occurs in `s` (as `str::find` gives it), if anywhere.
pub open spec fn find_first(s: Seq<char>, p: Seq<char>) -> Option<int> {
    if exists|i: int| 0 <= i <= s.len() && #[trigger] starts_with(s.skip(i), p) {
        Some(choose|i: int| is_first_occurrence(s, p, i))
    } else {
        None
    }
}

proof fn lemma_first_occurrence_unique(s: Seq<char>, p: Seq<char>, i: int)
    requires
        is_first_occurrence(s, p, i),
        i <= s.len(),
    ensures
        find_first(s, p) == Some(i),
{
    assert(starts_with(s.skip(i), p));
    let c = choose|k: int| is_first_occurrence(s, p, k);
    assert(is_first_occurrence(s, p, c));
    if c < i {
        assert(!starts_with(s.skip(c), p));
    } else if c > i {
        assert(!starts_with(s.skip(i), p));
    }
}

/// Where `p` first occurs in `cs`, if anywhere.
pub fn find_chars(cs: &[char], p: &[char]) -> (r: Option<usize>)
    ensures
        match r {
            Some(i) => find_first(cs@, p@) == Some(i as int) && i + p.len() <= cs.len(),
            None => find_first(cs@, p@) is None,
        },
{
    let mut i: usize = 0;
    while i < cs.len()
        invariant
            i <= cs.len(),
            forall|j: int| 0 <= j < i ==> !starts_with(#[trigger] cs@.skip(j), p@),
        decreases cs.len() - i,
    {
        if starts_with_at(cs, i, p) {
            proof { lemma_first_occurrence_unique(cs@, p@, i as int); }
            return Some(i);
        }
        i = i + 1;
    }
    if starts_with_at(cs, i, p) {
        proof { lemma_first_occurrence_unique(cs@, p@, i as int); }
        return Some(i);
    }
    proof {
        assert forall|j: int| 0 <= j <= cs@.len() implies !#[trigger] starts_with(cs@.skip(j), p@) by {}
    }
    None
}

}

verus! {

/// The trimmed pieces of `pieces` that are not empty, in order.
pub open spec fn nonempty_trimmed(pieces: Seq<Seq<char>>) -> Seq<Seq<char>>
    decreases pieces.len(),
{
    if pieces.len() == 0 {
        Seq::empty()
    } else {
        let prev = nonempty_trimmed(pieces.drop_last());
        let t = trim(pieces.last());
        if t.len() > 0 { prev.push(t) } else { prev }
    }
}

/// The non-empty trimmed pieces of `s` between occurrences of `sep`.
pub open spec fn split_trimmed(s: Seq<char>, sep: char) -> Seq<Seq<char>> {
    nonempty_trimmed(split_on(s, sep))
}

/// A piece without the separator splits into itself alone.
proof fn lemma_split_on_no_sep(b: Seq<char>, sep: char)
    requires
        forall|j: int| 0 <= j < b.len() ==> b[j] != sep,
    ensures
        split_on(b, sep) == seq![b],
    decreases b.len(),
{
    if b.len() == 0 {
        assert(b =~= Seq::<char>::empty());
    } else {
        lemma_split_on_no_sep(b.drop_last(), sep);
        assert(b.last() == b[b.len() - 1]);
        assert(b.drop_last().push(b.last()) =~= b);
        assert(split_on(b, sep) =~= seq![b]);
    }
}

/// Splitting text, a separator and a piece without it gives the pieces of
/// the text and then that piece.
proof fn lemma_split_on_append(a: Seq<char>, b: Seq<char>, sep: char)
    requires
        forall|j: int| 0 <= j < b.len() ==> b[j] != sep,
    ensures
        split_on(a + seq![sep] + b, sep) == split_on(a, sep).push(b),
    decreases b.len(),
{
    let s = a + seq![sep] + b;
    if b.len() == 0 {
        assert(s.drop_last() =~= a);
        assert(s.last() == sep);
        assert(b =~= Seq::<char>::empty());
    } else {
        lemma_split_on_append(a, b.drop_last(), sep);
        assert(s.drop_last() =~= a + seq![sep] + b.drop_last());
        assert(s.last() == b[b.len() - 1]);
        assert(b.drop_last().push(b.last()) =~= b);
        assert(split_on(s, sep) =~= split_on(a, sep).push(b));
    }
}

/// Pieces without the separator, joined by it, split back into themselves.
proof fn lemma_split_join(ids: Seq<Seq<char>>, sep: char)
    requires
        ids.len() > 0,
        forall|i: int, j: int| 0 <= i < ids.len() && 0 <= j < ids[i].len() ==> #[trigger] ids[i][j] != sep,
    ensures
        split_on(join_with(ids, sep), sep) == ids,
    decreases ids.len(),
{
    if ids.len() == 1 {
        lemma_split_on_no_sep(ids[0], sep);
        assert(seq![ids[0]] =~= ids);
    } else {
        let prev = ids.drop_last();
        assert forall|i: int, j: int| 0 <= i < prev.len() && 0 <= j < prev[i].len() implies #[trigger] prev[i][j] != sep by {
            assert(prev[i] == ids[i]);
        }
        lemma_split_join(prev, sep);
        let last = ids.last();
        assert forall|j: int| 0 <= j < last.len() implies last[j] != sep by {
            assert(ids[ids.len() - 1][j] != sep);
        }
        lemma_split_on_append(join_with(prev, sep), last, sep);
        assert(prev.push(last) =~= ids);
    }
}

/// Non-empty pieces without surrounding whitespace are kept as they are.
proof fn lemma_nonempty_trimmed_keeps(ids: Seq<Seq<char>>)
    requires
        forall|i: int| 0 <= i < ids.len() ==> (#[trigger] ids[i]).len() > 0 && trim(ids[i]) == ids[i],
    ensures
        nonempty_trimmed(ids) == ids,
    decreases ids.len(),
{
    if ids.len() > 0 {
        let prev = ids.drop_last();
        assert forall|i: int| 0 <= i < prev.len() implies (#[trigger] prev[i]).len() > 0 && trim(prev[i]) == prev[i] by {
            assert(prev[i] == ids[i]);
        }
        lemma_nonempty_trimmed_keeps(prev);
        assert(ids.last() == ids[ids.len() - 1]);
        assert(prev.push(ids.last()) =~= ids);
    }
}

/// Joining pieces with a separator and splitting the text back (trimming
/// each piece, dropping empty ones) gives the pieces again, when none is
/// empty, none holds the separator and none has surrounding whitespace.
pub proof fn lemma_join_then_split_trimmed(ids: Seq<Seq<char>>, sep: char)
    requires
        forall|i: int| 0 <= i < ids.len() ==> (#[trigger] ids[i]).len() > 0 && trim(ids[i]) == ids[i],
        forall|i: int, j: int| 0 <= i < ids.len() && 0 <= j < ids[i].len() ==> #[trigger] ids[i][j] != sep,
    ensures
        split_trimmed(join_with(ids, sep), sep) == ids,
{
    if ids.len() == 0 {
        let e = Seq::<char>::empty();
        assert(split_on(e, sep) == seq![e]);
        assert(trim(e) == e);
        assert(seq![e].drop_last() =~= Seq::<Seq<char>>::empty());
        assert(seq![e].last() == e);
        assert(trim(seq![e].last()).len() == 0);
        assert(nonempty_trimmed(seq![e].drop_last()) == Seq::<Seq<char>>::empty());
        assert(nonempty_trimmed(seq![e]) == Seq::<Seq<char>>::empty());
        assert(ids =~= Seq::<Seq<char>>::empty());
    } else {
        lemma_split_join(ids, sep);
        lemma_nonempty_trimmed_keeps(ids);
    }
}

/// The view of a list of strings.
pub open spec fn strings_view(v: Seq<String>) -> Seq<Seq<char>> {
    v.map_values(|s: String| s@)
}

/// The non-empty trimmed pieces of `cs` between occurrences of `sep`.
pub fn split_trimmed_strings(cs: &[char], sep: char) -> (r: Vec<String>)
    ensures
        strings_view(r@) == split_trimmed(cs@, sep),
        forall|i: int| 0 <= i < r.len() ==> (#[trigger] r[i])@.len() > 0,
{
    let pieces = split_chars(cs, sep);
    let ghost pv = pieces@.map_values(|p: Vec<char>| p@);
    let mut r: Vec<String> = Vec::new();
    for i in 0..pieces.len()
        invariant
            pv == pieces@.map_values(|p: Vec<char>| p@),
            pv == split_on(cs@, sep),
            strings_view(r@) == nonempty_trimmed(pv.take(i as int)),
            forall|k: int| 0 <= k < r.len() ==> (#[trigger] r[k])@.len() > 0,
    {
        proof {
            assert(pv.take(i + 1).drop_last() =~= pv.take(i as int));
            assert(pv.take(i + 1).last() == pieces@[i as int]@);
        }
        let t = trimmed(pieces[i].as_slice(), 0, pieces[i].len());
        proof { assert(pieces[i as int]@.subrange(0, pieces[i as int]@.len() as int) =~= pieces[i as int]@); }
        if t.len() > 0 {
            let s = string_of(t.as_slice());
            r.push(s);
            proof { assert(strings_view(r@) =~= nonempty_trimmed(pv.take(i + 1))); }
        }
    }
    proof { assert(pv.take(pieces.len() as int) =~= pv); }
    r
}

/// Strings joined with a separator.
pub open spec fn join_with(s: Seq<Seq<char>>, sep: char) -> Seq<char>
    decreases s.len(),
{
    if s.len() == 0 {
        Seq::empty()
    } else if s.len() == 1 {
        s[0]
    } else {
        join_with(s.drop_last(), sep) + seq![sep] + s.last()
    }
}

/// Strings joined with a separator.
pub fn join_strings(parts: &Vec<String>, sep: char) -> (r: String)
    ensures
        r@ == join_with(strings_view(parts@), sep),
{
    let ghost names = strings_view(parts@);
    let mut r = String::new();
    for i in 0..parts.len()
        invariant
            names == strings_view(parts@),
            r@ == join_with(names.take(i as int), sep),
    {
        proof {
            assert(names.take(i + 1).drop_last() =~= names.take(i as int));
            assert(names.take(i + 1).last() == parts@[i as int]@);
        }
        if i > 0 {
            push_char(&mut r, sep);
        }
        push_str(&mut r, parts[i].as_str());
        proof {
            if i == 0 {
                assert(names.take(1) =~= seq![names[0]]);
            } else {
                assert(join_with(names.take(i + 1), sep) == join_with(names.take(i as int), sep) + seq![sep] + names[i as int]);
                assert(r@ =~= join_with(names.take(i + 1), sep));
            }
        }
    }
    proof { assert(names.take(parts.len() as int) =~= names); }
    r
}

}

verus! {

/// The decimal digit character for `d < 10`.
pub open spec fn digit_char(d: nat) -> char {
    ((48 + d) as u8) as char
}

/// The decimal representation of `n`, without leading zeros.
pub open spec fn decimal(n: nat) -> Seq<char>
    decreases n,
{
    if n < 10 {
        seq![digit_char(n)]
    } else {
        decimal(n / 10).push(digit_char(n % 10))
    }
}

/// Appends the decimal representation of `n`.
pub fn push_decimal(s: &mut String, n: u64)
    ensures
        final(s)@ == old(s)@ + decimal(n as nat),
    decreases n,
{
    if n >= 10 {
        push_decimal(s, n / 10);
    }
    let d: u8 = (n % 10) as u8;
    let c = (48u8 + d) as char;
    push_char(s, c);
    proof {
        assert(c == digit_char((n % 10) as nat));
        if n >= 10 {
            assert(decimal(n as nat) == decimal((n / 10) as nat).push(digit_char((n % 10) as nat)));
        }
        assert(final(s)@ =~= old(s)@ + decimal(n as nat));
    }
}

/// The decimal representation of `n`.
pub fn decimal_string(n: u64) -> (s: String)
    ensures
        s@ == decimal(n as nat),
{
    let mut s = String::new();
    push_decimal(&mut s, n);
    proof { assert(s@ =~= decimal(n as nat)); }
    s
}

}

verus! {

/// Whether two character sequences are equal.
pub fn chars_eq(a: &Vec<char>, b: &Vec<char>) -> (r: bool)
    ensures
        r == (a@ == b@),
{
    if a.len() != b.len() {
        return false;
    }
    for i in 0..a.len()
        invariant
            a.len() == b.len(),
            forall|k: int| 0 <= k < i ==> a@[k] == b@[k],
    {
        if a[i] != b[i] {
            return false;
        }
    }
    proof { assert(a@ =~= b@); }
    true
}

/// Whether two string slices hold the same characters.
pub fn str_eq(a: &str, b: &str) -> (r: bool)
    ensures
        r == (a@ == b@),
{
    let x = a.to_string();
    let y = b.to_string();
    x == y
}

}

verus! {

/// `s` without leading copies of `c`.
pub open spec fn strip_start_char(s: Seq<char>, c: char) -> Seq<char>
    decreases s.len(),
{
    if s.len() > 0 && s[0] == c { strip_start_char(s.drop_first(), c) } else { s }
}

/// `s` without trailing copies of `c`.
pub open spec fn strip_end_char(s: Seq<char>, c: char) -> Seq<char>
    decreases s.len(),
{
    if s.len() > 0 && s.last() == c { strip_end_char(s.drop_last(), c) } else { s }
}

/// `s` without leading and trailing copies of `c`, as `str::trim_matches` gives it.
pub open spec fn trim_char(s: Seq<char>, c: char) -> Seq<char> {
    strip_end_char(strip_start_char(s, c), c)
}

proof fn lemma_strip_start_skip(s: Seq<char>, c: char, k: int)
    requires
        0 <= k <= s.len(),
        forall|j: int| 0 <= j < k ==> #[trigger] s[j] == c,
        k == s.len() || s[k] != c,
    ensures
        strip_start_char(s, c) == s.skip(k),
    decreases k,
{
    if k == 0 {
        assert(s.skip(0) =~= s);
    } else {
        let t = s.drop_first();
        assert forall|j: int| 0 <= j < k - 1 implies #[trigger] t[j] == c by {
            assert(t[j] == s[j + 1]);
        }
        if k - 1 < t.len() {
            assert(t[k - 1] == s[k]);
        }
        lemma_strip_start_skip(t, c, k - 1);
        assert(t.skip(k - 1) =~= s.skip(k));
    }
}

proof fn lemma_strip_end_take(s: Seq<char>, c: char, k: int)
    requires
        0 <= k <= s.len(),
        forall|j: int| k <= j < s.len() ==> #[trigger] s[j] == c,
        k == 0 || s[k - 1] != c,
    ensures
        strip_end_char(s, c) == s.take(k),
    decreases s.len() - k,
{
    if k == s.len() {
        assert(s.take(k) =~= s);
    } else {
        let t = s.drop_last();
        assert forall|j: int| k <= j < t.len() implies #[trigger] t[j] == c by {
            assert(t[j] == s[j]);
        }
        if k > 0 {
            assert(t[k - 1] == s[k - 1]);
        }
        assert(s[s.len() - 1] == c);
        lemma_strip_end_take(t, c, k);
        assert(t.take(k) =~= s.take(k));
    }
}

/// `cs[from..to]` without leading and trailing copies of `c`.
pub fn trim_char_vec(cs: &[char], from: usize, to: usize, c: char) -> (r: Vec<char>)
    requires
        from <= to <= cs.len(),
    ensures
        r@ == trim_char(cs@.subrange(from as int, to as int), c),
{
    let ghost s = cs@.subrange(from as int, to as int);
    let mut a = from;
    while a < to && cs[a] == c
        invariant
            from <= a <= to <= cs.len(),
            s == cs@.subrange(from as int, to as int),
            forall|j: int| from <= j < a ==> #[trigger] cs@[j] == c,
        decreases to - a,
    {
        a = a + 1;
    }
    proof {
        assert forall|j: int| 0 <= j < a - from implies #[trigger] s[j] == c by {
            assert(s[j] == cs@[from + j]);
        }
        if a < to {
            assert(s[a - from] == cs@[a as int]);
        }
        lemma_strip_start_skip(s, c, a - from);
    }
    let ghost t = s.skip(a - from);
    let mut b = to;
    while b > a && cs[b - 1] == c
        invariant
            from <= a <= b <= to <= cs.len(),
            forall|j: int| b <= j < to ==> #[trigger] cs@[j] == c,
        decreases b - a,
    {
        b = b - 1;
    }
    proof {
        assert(t =~= cs@.subrange(a as int, to as int));
        assert forall|j: int| b - a <= j < t.len() implies #[trigger] t[j] == c by {
            assert(t[j] == cs@[a + j]);
        }
        if b > a {
            assert(t[b - a - 1] == cs@[b - 1]);
        }
        lemma_strip_end_take(t, c, b - a);
        assert(t.take(b - a) =~= cs@.subrange(a as int, b as int));
    }
    slice_to_vec(cs, a, b)
}

/// `s` with every trailing copy of the non-empty suffix `p` removed, as
/// `str::trim_end_matches` with a string pattern gives it.
pub open spec fn strip_suffix_all(s: Seq<char>, p: Seq<char>) -> Seq<char>
    decreases s.len(),
{
    if p.len() > 0 && p.len() <= s.len() && s.skip(s.len() - p.len()) == p {
        strip_suffix_all(s.take(s.len() - p.len()), p)
    } else {
        s
    }
}

/// Whether `cs[..end]` ends with `p`.
fn ends_with_at(cs: &[char], end: usize, p: &[char]) -> (b: bool)
    requires
        end <= cs.len(),
    ensures
        b == (p.len() <= end && cs@.take(end as int).skip(end - p.len()) == p@),
{
    if p.len() > end {
        return false;
    }
    let r = starts_with_at(cs, end - p.len(), p);
    proof {
        let s = cs@.take(end as int);
        assert(cs@.skip(end - p.len()).take(p.len() as int) =~= s.skip(end - p.len()));
    }
    r
}

/// The length of `cs[..end]` once every trailing copy of `p` is removed.
pub fn strip_suffix_all_len(cs: &[char], end: usize, p: &[char]) -> (r: usize)
    requires
        end <= cs.len(),
        p.len() > 0,
    ensures
        r <= end,
        cs@.take(r as int) == strip_suffix_all(cs@.take(end as int), p@),
    decreases end,
{
    if ends_with_at(cs, end, p) {
        let r = strip_suffix_all_len(cs, end - p.len(), p);
        proof {
            assert(cs@.take(end as int).take(end - p.len()) =~= cs@.take(end - p.len()));
        }
        r
    } else {
        end
    }
}

}
