//! Character-sequence utilities with exact specifications: whitespace splitting,
//! trimming, searching, line splitting and decimal numbers.
use vstd::prelude::*;

verus! {

// ---------------------------------------------------------------------------
// Conversions between strings and character vectors
// ---------------------------------------------------------------------------

/// Appends one character to a string (`String::push`).
#[verifier::external_body]
pub(crate) fn push_char(s: &mut String, c: char)
    ensures
        final(s)@ == old(s)@.push(c),
{
    s.push(c);
}

/// The characters of a string slice, collected in order.
pub fn chars_of(s: &str) -> (v: Vec<char>)
    ensures
        v@ == s@,
{
    let mut v: Vec<char> = Vec::new();
    for c in it: s.chars()
        invariant
            v@ == it.seq().take(it.index() as int),
    {
        v.push(c);
    }
    v
}

/// A string holding exactly the given characters.
pub fn string_of(v: &[char]) -> (s: String)
    ensures
        s@ == v@,
{
    let mut s = String::new();
    let mut i: usize = 0;
    while i < v.len()
        invariant
            i <= v.len(),
            s@ == v@.take(i as int),
        decreases v.len() - i,
    {
        push_char(&mut s, v[i]);
        i = i + 1;
        assert(s@ == v@.take(i as int));
    }
    assert(v@.take(v@.len() as int) == v@);
    s
}

/// Appends the characters of `t` to `s`.
pub fn append_chars(s: &mut String, t: &[char])
    ensures
        final(s)@ == old(s)@ + t@,
{
    let mut i: usize = 0;
    while i < t.len()
        invariant
            i <= t.len(),
            s@ == old(s)@ + t@.take(i as int),
        decreases t.len() - i,
    {
        push_char(s, t[i]);
        i = i + 1;
        assert(s@ == old(s)@ + t@.take(i as int));
    }
    assert(t@.take(t@.len() as int) == t@);
}

/// Appends a string slice to `s`.
pub fn append_str(s: &mut String, t: &str)
    ensures
        final(s)@ == old(s)@ + t@,
{
    let v = chars_of(t);
    append_chars(s, v.as_slice());
}

/// A fresh copy of a string slice.
pub fn owned(t: &str) -> (s: String)
    ensures
        s@ == t@,
{
    let mut s = String::new();
    append_str(&mut s, t);
    s
}

// ---------------------------------------------------------------------------
// Whitespace
// ---------------------------------------------------------------------------

/// The character sequences of a list of character vectors.
pub open spec fn char_seqs(v: Seq<Vec<char>>) -> Seq<Seq<char>> {
    v.map_values(|t: Vec<char>| t@)
}

/// Unicode `White_Space`, the set that `char::is_whitespace` tests.
pub open spec fn is_ws(c: char) -> bool {
    ||| c == ' '
    ||| ('\t' <= c && c <= '\r')
    ||| c == '\u{85}'
    ||| c == '\u{a0}'
    ||| c == '\u{1680}'
    ||| ('\u{2000}' <= c && c <= '\u{200a}')
    ||| c == '\u{2028}'
    ||| c == '\u{2029}'
    ||| c == '\u{202f}'
    ||| c == '\u{205f}'
    ||| c == '\u{3000}'
}

/// Whether a character is whitespace.
pub fn is_whitespace(c: char) -> (b: bool)
    ensures
        b == is_ws(c),
{
    c == ' ' || ('\t' <= c && c <= '\r') || c == '\u{85}' || c == '\u{a0}' || c == '\u{1680}' || (
    '\u{2000}' <= c && c <= '\u{200a}') || c == '\u{2028}' || c == '\u{2029}' || c == '\u{202f}'
        || c == '\u{205f}' || c == '\u{3000}'
}

/// No character of `s` is whitespace.
pub open spec fn no_ws(s: Seq<char>) -> bool {
    forall|i: int| 0 <= i < s.len() ==> !is_ws(#[trigger] s[i])
}

/// The maximal runs of non-whitespace characters of `s`, in order
/// (what `str::split_whitespace` yields).
pub open spec fn split_ws(s: Seq<char>) -> Seq<Seq<char>>
    decreases s.len(),
{
    if s.len() == 0 {
        Seq::empty()
    } else {
        let prev = split_ws(s.drop_last());
        let c = s.last();
        if is_ws(c) {
            prev
        } else if s.len() >= 2 && !is_ws(s[s.len() - 2]) {
            prev.update(prev.len() - 1, prev.last().push(c))
        } else {
            prev.push(seq![c])
        }
    }
}

/// Splits at whitespace, dropping empty pieces.
pub fn split_whitespace(s: &[char]) -> (r: Vec<Vec<char>>)
    ensures
        char_seqs(r@) == split_ws(s@),
{
    let mut done: Vec<Vec<char>> = Vec::new();
    let mut cur: Vec<char> = Vec::new();
    let mut i: usize = 0;
    while i < s.len()
        invariant
            i <= s.len(),
            cur@.len() > 0 <==> (i > 0 && !is_ws(s@[i - 1])),
            cur@.len() > 0 ==> split_ws(s@.take(i as int)) == char_seqs(done@).push(cur@),
            cur@.len() == 0 ==> split_ws(s@.take(i as int)) == char_seqs(done@),
        decreases s.len() - i,
    {
        let c = s[i];
        let ghost t = s@.take(i as int + 1);
        assert(t.drop_last() == s@.take(i as int));
        if is_whitespace(c) {
            if cur.len() > 0 {
                let ghost before = char_seqs(done@);
                let ghost cv = cur@;
                done.push(cur);
                assert(char_seqs(done@) =~= before.push(cv));
                cur = Vec::new();
            }
        } else {
            let ghost before = char_seqs(done@);
            let ghost oc = cur@;
            let ghost prev = split_ws(s@.take(i as int));
            if cur.len() > 0 {
                assert(t[t.len() - 2] == s@[i - 1]);
                assert(split_ws(t) == prev.update(prev.len() - 1, prev.last().push(c)));
                assert(prev.last() == oc);
            } else {
                assert(split_ws(t) == prev.push(seq![c]));
            }
            cur.push(c);
            assert(oc.len() == 0 ==> cur@ =~= seq![c]);
            assert(split_ws(t) =~= before.push(cur@));
        }
        i = i + 1;
    }
    assert(s@.take(s@.len() as int) == s@);
    if cur.len() > 0 {
        let ghost before = char_seqs(done@);
        let ghost cv = cur@;
        done.push(cur);
        assert(char_seqs(done@) =~= before.push(cv));
    }
    done
}

/// `s` with leading whitespace removed (`str::trim_start`).
pub open spec fn trim_start(s: Seq<char>) -> Seq<char>
    decreases s.len(),
{
    if s.len() > 0 && is_ws(s[0]) {
        trim_start(s.drop_first())
    } else {
        s
    }
}

/// `s` with trailing whitespace removed (`str::trim_end`).
pub open spec fn trim_end(s: Seq<char>) -> Seq<char>
    decreases s.len(),
{
    if s.len() > 0 && is_ws(s.last()) {
        trim_end(s.drop_last())
    } else {
        s
    }
}

/// `s` with whitespace removed at both ends (`str::trim`).
pub open spec fn trim(s: Seq<char>) -> Seq<char> {
    trim_end(trim_start(s))
}

/// Index of the first non-whitespace character (or the length).
pub fn trim_start_index(s: &[char]) -> (k: usize)
    ensures
        k <= s.len(),
        s@.skip(k as int) == trim_start(s@),
{
    let mut k: usize = 0;
    assert(s@.skip(0) == s@);
    while k < s.len() && is_whitespace(s[k])
        invariant
            k <= s.len(),
            trim_start(s@.skip(k as int)) == trim_start(s@),
        decreases s.len() - k,
    {
        assert(s@.skip(k as int).drop_first() == s@.skip(k as int + 1));
        k = k + 1;
    }
    k
}

/// Index one past the last non-whitespace character (or zero).
pub fn trim_end_index(s: &[char]) -> (k: usize)
    ensures
        k <= s.len(),
        s@.take(k as int) == trim_end(s@),
{
    let mut k: usize = s.len();
    assert(s@.take(k as int) == s@);
    while k > 0 && is_whitespace(s[k - 1])
        invariant
            k <= s.len(),
            trim_end(s@.take(k as int)) == trim_end(s@),
        decreases k,
    {
        assert(s@.take(k as int).drop_last() == s@.take(k as int - 1));
        k = k - 1;
    }
    k
}

/// The characters of `s` with whitespace removed at both ends.
pub fn trimmed(s: &[char]) -> (r: Vec<char>)
    ensures
        r@ == trim(s@),
{
    let a = trim_start_index(s);
    let rest = slice_to_vec(s, a, s.len());
    assert(rest@ == s@.skip(a as int));
    let b = trim_end_index(rest.as_slice());
    slice_to_vec(rest.as_slice(), 0, b)
}

/// The characters `s[from..to]`.
pub fn slice_to_vec(s: &[char], from: usize, to: usize) -> (r: Vec<char>)
    requires
        from <= to <= s.len(),
    ensures
        r@ == s@.subrange(from as int, to as int),
{
    let mut r: Vec<char> = Vec::new();
    let mut i = from;
    while i < to
        invariant
            from <= i <= to <= s.len(),
            r@ == s@.subrange(from as int, i as int),
        decreases to - i,
    {
        r.push(s[i]);
        i = i + 1;
        assert(r@ == s@.subrange(from as int, i as int));
    }
    r
}

// ---------------------------------------------------------------------------
// Prefixes and searching
// ---------------------------------------------------------------------------

/// `s` begins with `p`.
pub open spec fn has_prefix(s: Seq<char>, p: Seq<char>) -> bool {
    p.len() <= s.len() && s.take(p.len() as int) == p
}

/// `p` occurs in `s` at position `i`.
pub open spec fn occurs_at(s: Seq<char>, p: Seq<char>, i: int) -> bool {
    0 <= i && i + p.len() <= s.len() && s.subrange(i, i + p.len()) == p
}

/// `i` is the first position at which `p` occurs in `s`.
pub open spec fn first_at(s: Seq<char>, p: Seq<char>, i: int) -> bool {
    occurs_at(s, p, i) && forall|j: int| 0 <= j < i ==> !occurs_at(s, p, j)
}

/// The first position at which `p` occurs in `s` (`str::find`, counted in characters).
pub open spec fn find(s: Seq<char>, p: Seq<char>) -> Option<int> {
    if exists|i: int| first_at(s, p, i) {
        Some(choose|i: int| first_at(s, p, i))
    } else {
        None
    }
}

/// `p` occurs somewhere in `s` (`str::contains`).
pub open spec fn contains(s: Seq<char>, p: Seq<char>) -> bool {
    exists|i: int| occurs_at(s, p, i)
}

/// Two first positions are the same position.
pub proof fn lemma_first_at_unique(s: Seq<char>, p: Seq<char>, i: int, j: int)
    requires
        first_at(s, p, i),
        first_at(s, p, j),
    ensures
        i == j,
{
    if i < j {
        assert(!occurs_at(s, p, i));
    } else if j < i {
        assert(!occurs_at(s, p, j));
    }
}

/// Whether `p` occurs in `s` at position `i`.
pub fn matches_at(s: &[char], p: &[char], i: usize) -> (b: bool)
    ensures
        b == occurs_at(s@, p@, i as int),
{
    if i > s.len() || p.len() > s.len() - i {
        return false;
    }
    let mut k: usize = 0;
    while k < p.len()
        invariant
            k <= p.len(),
            i + p.len() <= s.len(),
            forall|m: int| 0 <= m < k ==> s@[i + m] == p@[m],
        decreases p.len() - k,
    {
        if s[i + k] != p[k] {
            assert(s@.subrange(i as int, i + p.len())[k as int] != p@[k as int]);
            return false;
        }
        k = k + 1;
    }
    assert(s@.subrange(i as int, i + p.len()) == p@);
    true
}

/// The first position of `p` in `s`.
pub fn find_chars(s: &[char], p: &[char]) -> (r: Option<usize>)
    ensures
        r matches Some(i) ==> find(s@, p@) == Some(i as int) && first_at(s@, p@, i as int),
        r is None ==> find(s@, p@) is None,
        r is None <==> !contains(s@, p@),
{
    let mut i: usize = 0;
    while i < s.len()
        invariant
            i <= s.len(),
            forall|j: int| 0 <= j < i ==> !occurs_at(s@, p@, j),
        decreases s.len() - i,
    {
        if matches_at(s, p, i) {
            assert(first_at(s@, p@, i as int));
            proof {
                let c = choose|c: int| first_at(s@, p@, c);
                lemma_first_at_unique(s@, p@, c, i as int);
            }
            return Some(i);
        }
        i = i + 1;
    }
    if matches_at(s, p, i) {
        assert(first_at(s@, p@, i as int));
        proof {
            let c = choose|c: int| first_at(s@, p@, c);
            lemma_first_at_unique(s@, p@, c, i as int);
        }
        return Some(i);
    }
    assert forall|j: int| !occurs_at(s@, p@, j) by {
        if 0 <= j && j < i {
        } else if occurs_at(s@, p@, j) {
            assert(j <= s@.len());
        }
    }
    assert(!(exists|j: int| first_at(s@, p@, j)));
    None
}

/// Whether `p` occurs in `s`.
pub fn contains_chars(s: &[char], p: &[char]) -> (b: bool)
    ensures
        b == contains(s@, p@),
{
    find_chars(s, p).is_some()
}

/// Whether `s` begins with `p`.
pub fn starts_with_chars(s: &[char], p: &[char]) -> (b: bool)
    ensures
        b == has_prefix(s@, p@),
{
    let b = matches_at(s, p, 0);
    assert(s@.subrange(0, p@.len() as int) == s@.take(p@.len() as int));
    b
}

/// The last position of `c` in `s` (`str::rfind` with a character).
pub open spec fn last_index_of(s: Seq<char>, c: char) -> Option<int>
    decreases s.len(),
{
    if s.len() == 0 {
        None
    } else if s.last() == c {
        Some(s.len() - 1)
    } else {
        last_index_of(s.drop_last(), c)
    }
}

/// The last position of `c` in `s`.
pub fn rfind_char(s: &[char], c: char) -> (r: Option<usize>)
    ensures
        r matches Some(i) ==> last_index_of(s@, c) == Some(i as int),
        r is None ==> last_index_of(s@, c) is None,
{
    let mut k: usize = s.len();
    assert(s@.take(k as int) == s@);
    while k > 0
        invariant
            k <= s.len(),
            last_index_of(s@.take(k as int), c) == last_index_of(s@, c),
        decreases k,
    {
        assert(s@.take(k as int).drop_last() == s@.take(k as int - 1));
        if s[k - 1] == c {
            return Some(k - 1);
        }
        k = k - 1;
    }
    None
}

// ---------------------------------------------------------------------------
// Joining
// ---------------------------------------------------------------------------

/// The pieces of `parts` with `sep` between consecutive ones (`slice::join`).
pub open spec fn join(parts: Seq<Seq<char>>, sep: Seq<char>) -> Seq<char>
    decreases parts.len(),
{
    if parts.len() == 0 {
        Seq::empty()
    } else if parts.len() == 1 {
        parts[0]
    } else {
        join(parts.drop_last(), sep) + sep + parts.last()
    }
}

/// Joins the pieces `parts[from..]` with `sep`.
pub fn join_chars(parts: &Vec<Vec<char>>, from: usize, sep: &[char]) -> (r: Vec<char>)
    requires
        from <= parts.len(),
    ensures
        r@ == join(char_seqs(parts@).skip(from as int), sep@),
{
    let mut r: Vec<char> = Vec::new();
    let mut i = from;
    let ghost all = char_seqs(parts@).skip(from as int);
    assert(all.take(0) == Seq::<Seq<char>>::empty());
    while i < parts.len()
        invariant
            from <= i <= parts.len(),
            all == char_seqs(parts@).skip(from as int),
            r@ == join(all.take(i - from), sep@),
        decreases parts.len() - i,
    {
        let ghost before = r@;
        if i > from {
            let mut k: usize = 0;
            while k < sep.len()
                invariant
                    k <= sep.len(),
                    r@ == before + sep@.take(k as int),
                decreases sep.len() - k,
            {
                r.push(sep[k]);
                k = k + 1;
                assert(r@ == before + sep@.take(k as int));
            }
            assert(sep@.take(sep@.len() as int) == sep@);
        }
        let ghost mid = r@;
        let piece = &parts[i];
        let mut k: usize = 0;
        while k < piece.len()
            invariant
                k <= piece.len(),
                r@ == mid + piece@.take(k as int),
            decreases piece.len() - k,
        {
            r.push(piece[k]);
            k = k + 1;
            assert(r@ == mid + piece@.take(k as int));
        }
        assert(piece@.take(piece@.len() as int) == piece@);
        assert(all.take(i - from + 1).drop_last() == all.take(i - from));
        assert(all.take(i - from + 1).last() == piece@);
        i = i + 1;
    }
    assert(all.take(parts.len() - from) == all);
    r
}

// ---------------------------------------------------------------------------
// Lines
// ---------------------------------------------------------------------------

/// The pieces of `s` between occurrences of `c` (`str::split` with a character):
/// one more piece than there are occurrences.
pub open spec fn split_on(s: Seq<char>, c: char) -> Seq<Seq<char>>
    decreases s.len(),
{
    if s.len() == 0 {
        seq![Seq::empty()]
    } else {
        let p = split_on(s.drop_last(), c);
        if s.last() == c {
            p.push(Seq::empty())
        } else {
            p.update(p.len() - 1, p.last().push(s.last()))
        }
    }
}

/// `split_on` never yields an empty list of pieces.
pub proof fn lemma_split_on_nonempty(s: Seq<char>, c: char)
    ensures
        split_on(s, c).len() >= 1,
    decreases s.len(),
{
    if s.len() > 0 {
        lemma_split_on_nonempty(s.drop_last(), c);
    }
}

/// A line with one trailing carriage return removed, if it has one.
pub open spec fn strip_cr(l: Seq<char>) -> Seq<char> {
    if l.len() > 0 && l.last() == '\r' {
        l.drop_last()
    } else {
        l
    }
}

/// The lines of `s` (`str::lines`): pieces ended by `\n` lose that `\n` and then one
/// `\r`, a final piece without `\n` is kept as it stands unless it is empty.
pub open spec fn lines(s: Seq<char>) -> Seq<Seq<char>> {
    let p = split_on(s, '\n');
    let ended = p.drop_last().map_values(|l: Seq<char>| strip_cr(l));
    if p.last().len() == 0 {
        ended
    } else {
        ended.push(p.last())
    }
}

/// One trailing carriage return removed.
fn strip_cr_vec(mut l: Vec<char>) -> (r: Vec<char>)
    ensures
        r@ == strip_cr(l@),
{
    if l.len() > 0 && l[l.len() - 1] == '\r' {
        l.pop();
    }
    l
}

/// Splits text into lines.
pub fn split_lines(s: &[char]) -> (r: Vec<Vec<char>>)
    ensures
        char_seqs(r@) == lines(s@),
{
    let mut done: Vec<Vec<char>> = Vec::new();
    let mut cur: Vec<char> = Vec::new();
    let mut i: usize = 0;
    proof {
        lemma_split_on_nonempty(s@.take(0), '\n');
        assert(s@.take(0) == Seq::<char>::empty());
    }
    while i < s.len()
        invariant
            i <= s.len(),
            split_on(s@.take(i as int), '\n').len() >= 1,
            char_seqs(done@) == split_on(s@.take(i as int), '\n').drop_last().map_values(
                |l: Seq<char>| strip_cr(l),
            ),
            cur@ == split_on(s@.take(i as int), '\n').last(),
        decreases s.len() - i,
    {
        let c = s[i];
        let ghost t = s@.take(i as int + 1);
        let ghost p = split_on(s@.take(i as int), '\n');
        assert(t.drop_last() == s@.take(i as int));
        assert(t.last() == c);
        if c == '\n' {
            let ghost before = char_seqs(done@);
            let line = strip_cr_vec(cur);
            let ghost lv = line@;
            done.push(line);
            cur = Vec::new();
            assert(char_seqs(done@) =~= before.push(lv));
            assert(split_on(t, '\n') == p.push(Seq::empty()));
            assert(split_on(t, '\n').drop_last() == p);
            assert(p == p.drop_last().push(p.last()));
            assert(p.map_values(|l: Seq<char>| strip_cr(l)) =~= p.drop_last().map_values(
                |l: Seq<char>| strip_cr(l),
            ).push(strip_cr(p.last())));
        } else {
            cur.push(c);
            assert(split_on(t, '\n') == p.update(p.len() - 1, p.last().push(c)));
            assert(split_on(t, '\n').drop_last() == p.drop_last());
        }
        i = i + 1;
    }
    assert(s@.take(s@.len() as int) == s@);
    if cur.len() > 0 {
        let ghost before = char_seqs(done@);
        let ghost cv = cur@;
        done.push(cur);
        assert(char_seqs(done@) =~= before.push(cv));
    }
    done
}

// ---------------------------------------------------------------------------
// Decimal numbers
// ---------------------------------------------------------------------------

/// The ASCII digit for a value below ten.
pub open spec fn digit_char(d: nat) -> char {
    if d == 0 {
        '0'
    } else if d == 1 {
        '1'
    } else if d == 2 {
        '2'
    } else if d == 3 {
        '3'
    } else if d == 4 {
        '4'
    } else if d == 5 {
        '5'
    } else if d == 6 {
        '6'
    } else if d == 7 {
        '7'
    } else if d == 8 {
        '8'
    } else {
        '9'
    }
}

/// An ASCII decimal digit.
pub open spec fn is_digit(c: char) -> bool {
    '0' <= c && c <= '9'
}

/// The value of an ASCII decimal digit.
pub open spec fn digit_value(c: char) -> nat {
    (c as u32 - '0' as u32) as nat
}

/// The decimal representation of `n`, without leading zeros (`Display` for integers).
pub open spec fn decimal(n: nat) -> Seq<char>
    decreases n,
{
    if n < 10 {
        seq![digit_char(n)]
    } else {
        decimal(n / 10).push(digit_char(n % 10))
    }
}

/// `decimal(n)` zero-padded on the left to at least `width` characters (`{:0w}`).
pub open spec fn padded(n: nat, width: nat) -> Seq<char> {
    let d = decimal(n);
    if d.len() >= width {
        d
    } else {
        Seq::new((width - d.len()) as nat, |i: int| '0') + d
    }
}

/// The digit character for `d`.
pub fn digit_to_char(d: u64) -> (c: char)
    requires
        d < 10,
    ensures
        c == digit_char(d as nat),
{
    if d == 0 {
        '0'
    } else if d == 1 {
        '1'
    } else if d == 2 {
        '2'
    } else if d == 3 {
        '3'
    } else if d == 4 {
        '4'
    } else if d == 5 {
        '5'
    } else if d == 6 {
        '6'
    } else if d == 7 {
        '7'
    } else if d == 8 {
        '8'
    } else {
        '9'
    }
}

/// Appends the decimal representation of `n` to `s`.
pub fn push_decimal(s: &mut String, n: u64)
    ensures
        final(s)@ == old(s)@ + decimal(n as nat),
    decreases n,
{
    if n < 10 {
        push_char(s, digit_to_char(n));
    } else {
        push_decimal(s, n / 10);
        push_char(s, digit_to_char(n % 10));
    }
}

/// The decimal representation of `n`.
pub fn format_u64(n: u64) -> (s: String)
    ensures
        s@ == decimal(n as nat),
{
    let mut s = String::new();
    push_decimal(&mut s, n);
    s
}

/// Appends `n` zero-padded to at least `width` characters.
pub fn push_padded(s: &mut String, n: u64, width: usize)
    ensures
        final(s)@ == old(s)@ + padded(n as nat, width as nat),
{
    let d = format_u64(n);
    let dv = chars_of(d.as_str());
    let ghost start = s@;
    if dv.len() < width {
        let k = width - dv.len();
        let mut i: usize = 0;
        while i < k
            invariant
                i <= k,
                s@ == start + Seq::new(i as nat, |j: int| '0'),
            decreases k - i,
        {
            push_char(s, '0');
            i = i + 1;
            assert(s@ == start + Seq::new(i as nat, |j: int| '0'));
        }
    }
    append_chars(s, dv.as_slice());
    assert(s@ == start + padded(n as nat, width as nat));
}

/// The value of a sequence of decimal digits, most significant first.
pub open spec fn digits_value(d: Seq<char>) -> nat
    decreases d.len(),
{
    if d.len() == 0 {
        0
    } else {
        digits_value(d.drop_last()) * 10 + digit_value(d.last())
    }
}

/// All characters are ASCII digits.
pub open spec fn all_digits(d: Seq<char>) -> bool {
    forall|i: int| 0 <= i < d.len() ==> is_digit(#[trigger] d[i])
}

/// What `str::parse::<usize>` gives: an optional `+`, then one or more digits,
/// with a value that fits in `usize`.
pub open spec fn parse_usize(s: Seq<char>) -> Option<nat> {
    let d = if s.len() > 0 && s[0] == '+' {
        s.drop_first()
    } else {
        s
    };
    if d.len() > 0 && all_digits(d) && digits_value(d) <= usize::MAX {
        Some(digits_value(d))
    } else {
        None
    }
}

/// What `str::parse::<u32>` gives.
pub open spec fn parse_u32(s: Seq<char>) -> Option<nat> {
    let d = if s.len() > 0 && s[0] == '+' {
        s.drop_first()
    } else {
        s
    };
    if d.len() > 0 && all_digits(d) && digits_value(d) <= u32::MAX {
        Some(digits_value(d))
    } else {
        None
    }
}

/// `digits_value` grows with every appended digit.
proof fn lemma_digits_value_push(d: Seq<char>, c: char)
    ensures
        digits_value(d.push(c)) == digits_value(d) * 10 + digit_value(c),
{
    assert(d.push(c).drop_last() == d);
}

/// A digit sequence is worth at least as much as any of its prefixes.
proof fn lemma_digits_value_prefix(d: Seq<char>, k: int)
    requires
        0 <= k <= d.len(),
    ensures
        digits_value(d.take(k)) <= digits_value(d),
    decreases d.len() - k,
{
    if k < d.len() {
        lemma_digits_value_prefix(d, k + 1);
        assert(d.take(k + 1).drop_last() == d.take(k));
        let v = digits_value(d.take(k));
        assert(digits_value(d.take(k + 1)) == v * 10 + digit_value(d.take(k + 1).last()));
        assert(v <= v * 10) by (nonlinear_arith);
    } else {
        assert(d.take(k) == d);
    }
}

/// The value of the digit sequence `d`, if it fits under `bound`.
fn digits_value_bounded(d: &[char], from: usize, bound: u64) -> (r: Option<u64>)
    requires
        from <= d.len(),
        bound >= 9,
        all_digits(d@.skip(from as int)),
    ensures
        r matches Some(v) ==> v == digits_value(d@.skip(from as int)) && v <= bound,
        r is None ==> digits_value(d@.skip(from as int)) > bound,
{
    let ghost ds = d@.skip(from as int);
    let mut v: u64 = 0;
    let mut i = from;
    assert(ds.take(0) == Seq::<char>::empty());
    while i < d.len()
        invariant
            from <= i <= d.len(),
            ds == d@.skip(from as int),
            bound >= 9,
            all_digits(ds),
            v == digits_value(ds.take(i - from)),
            v <= bound,
        decreases d.len() - i,
    {
        let c = d[i];
        assert(ds[i - from] == c);
        assert(is_digit(c));
        let dv = (c as u32 - '0' as u32) as u64;
        assert(dv <= 9);
        assert(ds.take(i - from + 1) == ds.take(i - from).push(c));
        proof {
            lemma_digits_value_push(ds.take(i - from), c);
        }
        if v > (bound - dv) / 10 {
            proof {
                assert(v * 10 + dv > bound) by (nonlinear_arith)
                    requires
                        v > (bound - dv) / 10,
                        dv <= 9,
                        bound >= 9,
                ;
                lemma_digits_value_prefix(ds, i - from + 1);
            }
            return None;
        }
        proof {
            assert(v * 10 + dv <= bound) by (nonlinear_arith)
                requires
                    v <= (bound - dv) / 10,
                    dv <= 9,
                    bound >= 9,
            ;
        }
        v = v * 10 + dv;
        i = i + 1;
    }
    assert(ds.take(d.len() - from) == ds);
    Some(v)
}

} // verus!

verus! {

/// Whether every character from position `from` on is an ASCII digit.
fn all_digits_from(d: &[char], from: usize) -> (b: bool)
    requires
        from <= d.len(),
    ensures
        b == all_digits(d@.skip(from as int)),
{
    let mut i = from;
    while i < d.len()
        invariant
            from <= i <= d.len(),
            forall|k: int| from <= k < i ==> is_digit(#[trigger] d@[k]),
        decreases d.len() - i,
    {
        if !('0' <= d[i] && d[i] <= '9') {
            assert(!is_digit(d@.skip(from as int)[i - from]));
            return false;
        }
        i = i + 1;
    }
    assert forall|k: int| 0 <= k < d@.skip(from as int).len() implies is_digit(
        #[trigger] d@.skip(from as int)[k],
    ) by {
        assert(d@.skip(from as int)[k] == d@[from + k]);
    }
    true
}

/// Parses an unsigned decimal number the way `str::parse` does, with an upper bound.
fn parse_bounded(s: &[char], bound: u64) -> (r: Option<u64>)
    requires
        bound >= 9,
    ensures
        ({
            let d = if s@.len() > 0 && s@[0] == '+' {
                s@.drop_first()
            } else {
                s@
            };
            match r {
                Some(v) => d.len() > 0 && all_digits(d) && digits_value(d) <= bound && v
                    == digits_value(d),
                None => !(d.len() > 0 && all_digits(d) && digits_value(d) <= bound),
            }
        }),
{
    let from: usize = if s.len() > 0 && s[0] == '+' {
        1
    } else {
        0
    };
    assert(s@.skip(0) == s@);
    assert(s@.skip(1) == s@.drop_first()) by {
        if s@.len() > 0 {
            assert(s@.skip(1) =~= s@.drop_first());
        }
    }
    if from >= s.len() {
        return None;
    }
    if !all_digits_from(s, from) {
        return None;
    }
    digits_value_bounded(s, from, bound)
}

/// `str::parse::<usize>` on a character sequence.
pub fn parse_usize_chars(s: &[char]) -> (r: Option<usize>)
    ensures
        r matches Some(v) ==> parse_usize(s@) == Some(v as nat),
        r is None ==> parse_usize(s@) is None,
{
    match parse_bounded(s, usize::MAX as u64) {
        Some(v) => Some(v as usize),
        None => None,
    }
}

/// `str::parse::<u32>` on a character sequence.
pub fn parse_u32_chars(s: &[char]) -> (r: Option<u32>)
    ensures
        r matches Some(v) ==> parse_u32(s@) == Some(v as nat),
        r is None ==> parse_u32(s@) is None,
{
    match parse_bounded(s, u32::MAX as u64) {
        Some(v) => Some(v as u32),
        None => None,
    }
}

/// Every character of a decimal representation is a digit.
pub proof fn lemma_decimal_digits(n: nat)
    ensures
        all_digits(decimal(n)),
        decimal(n).len() >= 1,
        digits_value(decimal(n)) == n,
    decreases n,
{
    if n < 10 {
        assert(digits_value(decimal(n)) == digits_value(decimal(n).drop_last()) * 10
            + digit_value(decimal(n).last()));
        assert(decimal(n).drop_last() =~= Seq::<char>::empty());
    } else {
        lemma_decimal_digits(n / 10);
        let d = decimal(n / 10);
        lemma_digits_value_push(d, digit_char(n % 10));
        assert(decimal(n).drop_last() == d);
        assert(n == (n / 10) * 10 + n % 10) by (nonlinear_arith);
        assert forall|i: int| 0 <= i < decimal(n).len() implies is_digit(#[trigger] decimal(n)[i]) by {
            if i < d.len() {
                assert(decimal(n)[i] == d[i]);
            }
        }
    }
}

/// Reading back a printed number gives the number.
pub proof fn lemma_parse_decimal(n: nat)
    requires
        n <= usize::MAX,
    ensures
        parse_usize(decimal(n)) == Some(n),
{
    lemma_decimal_digits(n);
    assert(is_digit(decimal(n)[0]));
}

/// The lower-case form of a string: `str::to_lowercase`, which follows the Unicode
/// case tables.
pub uninterp spec fn lowercase(s: Seq<char>) -> Seq<char>;

/// `str::to_lowercase`. The result is a function of the argument alone; its contents
/// follow Unicode's case-mapping tables, which are not restated here, beyond that the
/// empty text stays empty.
#[verifier::external_body]
pub(crate) fn to_lowercase(s: &str) -> (r: String)
    ensures
        r@ == lowercase(s@),
        s@.len() == 0 ==> r@.len() == 0,
{
    s.to_lowercase()
}

} // verus!

verus! {

/// A sequence whose last character is not whitespace has at least one token.
pub proof fn lemma_split_ws_nonempty(s: Seq<char>)
    requires
        s.len() > 0,
        !is_ws(s.last()),
    ensures
        split_ws(s).len() >= 1,
    decreases s.len(),
{
    if s.len() >= 2 && !is_ws(s[s.len() - 2]) {
        let t = s.drop_last();
        assert(t.last() == s[s.len() - 2]);
        lemma_split_ws_nonempty(t);
    }
}

/// Splitting at a whitespace character splits the token list there.
pub proof fn lemma_split_ws_concat(x: Seq<char>, w: char, y: Seq<char>)
    requires
        is_ws(w),
    ensures
        split_ws(x + seq![w] + y) == split_ws(x) + split_ws(y),
    decreases y.len(),
{
    let s = x + seq![w] + y;
    if y.len() == 0 {
        assert(s == x.push(w));
        assert(s.drop_last() == x);
        assert(split_ws(y) == Seq::<Seq<char>>::empty());
        assert(split_ws(x) + split_ws(y) =~= split_ws(x));
    } else {
        let y1 = y.drop_last();
        let c = y.last();
        lemma_split_ws_concat(x, w, y1);
        let s1 = x + seq![w] + y1;
        assert(s.drop_last() == s1);
        assert(s.last() == c);
        let p = split_ws(x);
        let q = split_ws(y1);
        assert(split_ws(s1) == p + q);
        if is_ws(c) {
            assert(split_ws(y) == q);
        } else if s.len() >= 2 && !is_ws(s[s.len() - 2]) {
            if y1.len() == 0 {
                assert(s[s.len() - 2] == w);
            }
            assert(y1.len() > 0);
            assert(s[s.len() - 2] == y1.last());
            assert(y[y.len() - 2] == y1.last());
            lemma_split_ws_nonempty(y1);
            assert(split_ws(y) == q.update(q.len() - 1, q.last().push(c)));
            assert((p + q).last() == q.last());
            assert((p + q).update((p + q).len() - 1, q.last().push(c)) =~= p + q.update(
                q.len() - 1,
                q.last().push(c),
            ));
        } else {
            if y1.len() > 0 {
                assert(s[s.len() - 2] == y1.last());
                assert(y[y.len() - 2] == y1.last());
            }
            assert(split_ws(y) == q.push(seq![c]));
            assert((p + q).push(seq![c]) =~= p + q.push(seq![c]));
        }
    }
}

/// A non-empty run without whitespace is a single token.
pub proof fn lemma_split_ws_token(t: Seq<char>)
    requires
        t.len() > 0,
        no_ws(t),
    ensures
        split_ws(t) == seq![t],
    decreases t.len(),
{
    let c = t.last();
    assert(!is_ws(t[t.len() - 1]));
    if t.len() == 1 {
        assert(t.drop_last() =~= Seq::<char>::empty());
        assert(split_ws(t.drop_last()) == Seq::<Seq<char>>::empty());
        assert(t =~= seq![c]);
        assert(split_ws(t) == Seq::<Seq<char>>::empty().push(seq![c]));
        assert(Seq::<Seq<char>>::empty().push(seq![c]) =~= seq![t]);
    } else {
        let t1 = t.drop_last();
        assert(no_ws(t1)) by {
            assert forall|i: int| 0 <= i < t1.len() implies !is_ws(#[trigger] t1[i]) by {
                assert(t1[i] == t[i]);
            }
        }
        lemma_split_ws_token(t1);
        assert(!is_ws(t[t.len() - 2]));
        assert(t1.push(c) =~= t);
        assert(split_ws(t) == split_ws(t1).update(0, t1.push(c)));
        assert(seq![t1].update(0, t1.push(c)) =~= seq![t]);
    }
}

/// Every token that `split_ws` yields is non-empty and holds no whitespace.
pub proof fn lemma_split_ws_tokens(s: Seq<char>)
    ensures
        forall|k: int|
            0 <= k < split_ws(s).len() ==> (#[trigger] split_ws(s)[k]).len() > 0 && no_ws(
                split_ws(s)[k],
            ),
    decreases s.len(),
{
    if s.len() > 0 {
        let t = s.drop_last();
        lemma_split_ws_tokens(t);
        let prev = split_ws(t);
        let c = s.last();
        if is_ws(c) {
        } else if s.len() >= 2 && !is_ws(s[s.len() - 2]) {
            assert(t.last() == s[s.len() - 2]);
            lemma_split_ws_nonempty(t);
            let last = prev.last().push(c);
            assert(no_ws(last)) by {
                assert forall|i: int| 0 <= i < last.len() implies !is_ws(#[trigger] last[i]) by {
                    if i < last.len() - 1 {
                        assert(last[i] == prev.last()[i]);
                        assert(prev.last() == prev[prev.len() - 1]);
                    }
                }
            }
            assert forall|k: int| 0 <= k < split_ws(s).len() implies (#[trigger] split_ws(
                s,
            )[k]).len() > 0 && no_ws(split_ws(s)[k]) by {
                if k < prev.len() - 1 {
                    assert(split_ws(s)[k] == prev[k]);
                }
            }
        } else {
            assert(no_ws(seq![c])) by {
                assert forall|i: int| 0 <= i < 1 implies !is_ws(#[trigger] seq![c][i]) by {}
            }
            assert forall|k: int| 0 <= k < split_ws(s).len() implies (#[trigger] split_ws(
                s,
            )[k]).len() > 0 && no_ws(split_ws(s)[k]) by {
                if k < prev.len() {
                    assert(split_ws(s)[k] == prev[k]);
                }
            }
        }
    }
}

/// Joining tokens with single spaces and splitting again gives the tokens back.
pub proof fn lemma_split_ws_join(ts: Seq<Seq<char>>)
    requires
        ts.len() >= 1,
        forall|k: int| 0 <= k < ts.len() ==> (#[trigger] ts[k]).len() > 0 && no_ws(ts[k]),
    ensures
        split_ws(join(ts, seq![' '])) == ts,
    decreases ts.len(),
{
    if ts.len() == 1 {
        lemma_split_ws_token(ts[0]);
        assert(seq![ts[0]] =~= ts);
    } else {
        let init = ts.drop_last();
        assert forall|k: int| 0 <= k < init.len() implies (#[trigger] init[k]).len() > 0 && no_ws(
            init[k],
        ) by {
            assert(init[k] == ts[k]);
        }
        lemma_split_ws_join(init);
        lemma_split_ws_token(ts.last());
        assert(ts.last() == ts[ts.len() - 1]);
        lemma_split_ws_concat(join(init, seq![' ']), ' ', ts.last());
        assert(init + seq![ts.last()] =~= ts);
    }
}

} // verus!

verus! {

/// `c` does not occur in `s`.
pub open spec fn lacks(s: Seq<char>, c: char) -> bool {
    forall|i: int| 0 <= i < s.len() ==> #[trigger] s[i] != c
}

/// Appending text without the separator extends the last piece.
pub proof fn lemma_split_on_append(x: Seq<char>, y: Seq<char>, c: char)
    requires
        lacks(y, c),
    ensures
        split_on(x + y, c) == split_on(x, c).update(
            split_on(x, c).len() - 1,
            split_on(x, c).last() + y,
        ),
    decreases y.len(),
{
    lemma_split_on_nonempty(x, c);
    let p = split_on(x, c);
    if y.len() == 0 {
        assert(x + y == x);
        assert(p.last() + y == p.last());
        assert(p.update(p.len() - 1, p.last()) =~= p);
    } else {
        let y1 = y.drop_last();
        assert(lacks(y1, c)) by {
            assert forall|i: int| 0 <= i < y1.len() implies #[trigger] y1[i] != c by {
                assert(y1[i] == y[i]);
            }
        }
        lemma_split_on_append(x, y1, c);
        assert((x + y).drop_last() == x + y1);
        assert((x + y).last() == y.last());
        assert(y.last() == y[y.len() - 1]);
        assert(y.last() != c);
        assert(p.last() + y1 + seq![y.last()] =~= p.last() + y);
        assert((p.last() + y1).push(y.last()) =~= p.last() + y);
        assert(p.update(p.len() - 1, p.last() + y1).update(p.len() - 1, p.last() + y) =~= p.update(
            p.len() - 1,
            p.last() + y,
        ));
    }
}

/// Appending the separator starts a new, empty piece.
pub proof fn lemma_split_on_push_sep(x: Seq<char>, c: char)
    ensures
        split_on(x.push(c), c) == split_on(x, c).push(Seq::empty()),
{
    assert(x.push(c).drop_last() == x);
}

/// Joining whitespace-free tokens with spaces yields no line-ending characters, and
/// a non-empty result ending in the last token's last character.
pub proof fn lemma_join_tokens(ts: Seq<Seq<char>>)
    requires
        ts.len() >= 1,
        forall|k: int| 0 <= k < ts.len() ==> (#[trigger] ts[k]).len() > 0 && no_ws(ts[k]),
    ensures
        lacks(join(ts, seq![' ']), '\n'),
        join(ts, seq![' ']).len() > 0,
        !is_ws(join(ts, seq![' ']).last()),
    decreases ts.len(),
{
    let j = join(ts, seq![' ']);
    if ts.len() == 1 {
        assert(no_ws(ts[0]));
        assert(!is_ws(ts[0][ts[0].len() - 1]));
        assert forall|i: int| 0 <= i < j.len() implies #[trigger] j[i] != '\n' by {
            assert(!is_ws(ts[0][i]));
        }
    } else {
        let init = ts.drop_last();
        assert forall|k: int| 0 <= k < init.len() implies (#[trigger] init[k]).len() > 0 && no_ws(
            init[k],
        ) by {
            assert(init[k] == ts[k]);
        }
        lemma_join_tokens(init);
        let a = join(init, seq![' ']);
        let t = ts.last();
        assert(t == ts[ts.len() - 1]);
        assert(j == a + seq![' '] + t);
        assert(!is_ws(t[t.len() - 1]));
        assert forall|i: int| 0 <= i < j.len() implies #[trigger] j[i] != '\n' by {
            if i < a.len() {
                assert(j[i] == a[i]);
            } else if i == a.len() {
            } else {
                assert(j[i] == t[i - a.len() - 1]);
                assert(!is_ws(t[i - a.len() - 1]));
            }
        }
    }
}

} // verus!

verus! {

/// Whether two character sequences are equal.
pub fn chars_eq(a: &[char], b: &[char]) -> (r: bool)
    ensures
        r == (a@ == b@),
{
    if a.len() != b.len() {
        return false;
    }
    let mut i: usize = 0;
    while i < a.len()
        invariant
            i <= a.len() == b.len(),
            forall|j: int| 0 <= j < i ==> a@[j] == b@[j],
        decreases a.len() - i,
    {
        if a[i] != b[i] {
            return false;
        }
        i = i + 1;
    }
    assert(a@ =~= b@);
    true
}

/// Whether two strings hold the same characters.
pub fn str_eq(a: &str, b: &str) -> (r: bool)
    ensures
        r == (a@ == b@),
{
    let x = chars_of(a);
    let y = chars_of(b);
    chars_eq(x.as_slice(), y.as_slice())
}

/// Whether `name` is one of `names`.
pub fn contains_str(names: &Vec<String>, name: &str) -> (r: bool)
    ensures
        r == exists|i: int| 0 <= i < names.len() && (#[trigger] names@[i])@ == name@,
{
    let mut i: usize = 0;
    while i < names.len()
        invariant
            i <= names.len(),
            forall|j: int| 0 <= j < i ==> (#[trigger] names@[j])@ != name@,
        decreases names.len() - i,
    {
        if str_eq(names[i].as_str(), name) {
            return true;
        }
        i = i + 1;
    }
    false
}

} // verus!

verus! {

/// A pattern that occurs at `i` and nowhere before is found at `i`.
pub proof fn lemma_find_at(s: Seq<char>, p: Seq<char>, i: int)
    requires
        occurs_at(s, p, i),
        forall|j: int| 0 <= j < i ==> !occurs_at(s, p, j),
    ensures
        find(s, p) == Some(i),
{
    assert(first_at(s, p, i));
    let k = choose|k: int| first_at(s, p, k);
    lemma_first_at_unique(s, p, k, i);
}

/// A pattern holding a character that the text lacks is not found in it.
pub proof fn lemma_find_absent(s: Seq<char>, p: Seq<char>, k: int)
    requires
        0 <= k < p.len(),
        lacks(s, p[k]),
    ensures
        find(s, p) is None,
{
    if exists|i: int| first_at(s, p, i) {
        let i = choose|i: int| first_at(s, p, i);
        assert(s.subrange(i, i + p.len())[k] == s[i + k]);
    }
}

/// In `x + y`, where `x` ends with `c` and `y` lacks it, the last `c` ends `x`.
pub proof fn lemma_last_index_after(x: Seq<char>, y: Seq<char>, c: char)
    requires
        x.len() > 0,
        x.last() == c,
        lacks(y, c),
    ensures
        last_index_of(x + y, c) == Some(x.len() - 1),
    decreases y.len(),
{
    if y.len() == 0 {
        assert(x + y =~= x);
    } else {
        let y1 = y.drop_last();
        assert(lacks(y1, c)) by {
            assert forall|i: int| 0 <= i < y1.len() implies #[trigger] y1[i] != c by {
                assert(y1[i] == y[i]);
            }
        }
        lemma_last_index_after(x, y1, c);
        assert((x + y).drop_last() =~= x + y1);
        assert((x + y).last() == y[y.len() - 1]);
    }
}

/// A decimal representation holds no character other than digits.
pub proof fn lemma_decimal_lacks(n: nat, c: char)
    requires
        !is_digit(c),
    ensures
        lacks(decimal(n), c),
{
    lemma_decimal_digits(n);
    assert forall|i: int| 0 <= i < decimal(n).len() implies #[trigger] decimal(n)[i] != c by {
        assert(is_digit(decimal(n)[i]));
    }
}

} // verus!
