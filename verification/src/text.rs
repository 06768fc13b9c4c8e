//! Text handling shared by the parsers of this crate, specified over
//! sequences of characters.

use vstd::prelude::*;

verus! {

/// The text of each string of `items`, in order.
pub open spec fn texts(items: Seq<String>) -> Seq<Seq<char>> {
    items.map_values(|s: String| s@)
}

/// The characters that separate columns and surround values: the code points
/// with the Unicode `White_Space` property.
pub open spec fn is_space(c: char) -> bool {
    let n = c as u32;
    ||| 0x09 <= n <= 0x0D
    ||| n == 0x20
    ||| n == 0x85
    ||| n == 0xA0
    ||| n == 0x1680
    ||| 0x2000 <= n <= 0x200A
    ||| n == 0x2028
    ||| n == 0x2029
    ||| n == 0x202F
    ||| n == 0x205F
    ||| n == 0x3000
}

/// How many characters at the start of `s` satisfy `keep`.
pub open spec fn run_len(s: Seq<char>, keep: spec_fn(char) -> bool) -> int
    decreases s.len(),
{
    if s.len() == 0 || !keep(s[0]) {
        0
    } else {
        1 + run_len(s.skip(1), keep)
    }
}

/// The test that every character but `c` passes.
pub open spec fn other_than(c: char) -> spec_fn(char) -> bool {
    |x: char| x != c
}

/// The position of the first `c` in `s`, or the length of `s` where there is none.
pub open spec fn first_index(s: Seq<char>, c: char) -> int {
    run_len(s, other_than(c))
}

/// The number of white-space characters at the start of `s`.
pub open spec fn leading_spaces(s: Seq<char>) -> int {
    run_len(s, |x: char| is_space(x))
}

/// The number of characters at the start of `s` that are no white space.
pub open spec fn word_len(s: Seq<char>) -> int {
    run_len(s, |x: char| !is_space(x))
}

/// The number of white-space characters at the end of `s`.
pub open spec fn trailing_spaces(s: Seq<char>) -> int
    decreases s.len(),
{
    if s.len() == 0 || !is_space(s.last()) {
        0
    } else {
        1 + trailing_spaces(s.drop_last())
    }
}

/// `s` without the white space at its start and at its end.
pub open spec fn trimmed(s: Seq<char>) -> Seq<char> {
    let rest = s.skip(leading_spaces(s));
    rest.take(rest.len() - trailing_spaces(rest))
}

/// The pieces of `s` between the occurrences of `sep`: one more piece than
/// there are separators, empty pieces included.
pub open spec fn split(s: Seq<char>, sep: char) -> Seq<Seq<char>>
    decreases s.len(),
{
    let i = first_index(s, sep);
    if 0 <= i < s.len() {
        seq![s.take(i)] + split(s.skip(i + 1), sep)
    } else {
        seq![s]
    }
}

/// The first white-space-delimited word of `s`; empty where `s` holds none.
pub open spec fn first_word(s: Seq<char>) -> Seq<char> {
    let rest = s.skip(leading_spaces(s));
    rest.take(word_len(rest))
}

/// What follows the first word of `s`.
pub open spec fn after_first_word(s: Seq<char>) -> Seq<char> {
    let rest = s.skip(leading_spaces(s));
    rest.skip(word_len(rest))
}

/// The white-space-delimited column number `k` of `s`, counted from zero;
/// empty where `s` has fewer columns.
pub open spec fn column(s: Seq<char>, k: nat) -> Seq<char>
    decreases k,
{
    if k == 0 {
        first_word(s)
    } else {
        column(after_first_word(s), (k - 1) as nat)
    }
}

/// Whether `needle` stands in `hay` at position `i`.
pub open spec fn occurs_at(hay: Seq<char>, needle: Seq<char>, i: int) -> bool {
    0 <= i && i + needle.len() <= hay.len() && hay.subrange(i, i + needle.len()) == needle
}

/// Whether `needle` occurs in `hay` as a contiguous run of characters.
pub open spec fn contains_text(hay: Seq<char>, needle: Seq<char>) -> bool {
    exists|i: int| occurs_at(hay, needle, i)
}

/// A run that stops at `i` has length `i`.
proof fn lemma_run_len(s: Seq<char>, keep: spec_fn(char) -> bool, i: int)
    requires
        0 <= i <= s.len(),
        forall|j: int| 0 <= j < i ==> keep(#[trigger] s[j]),
        i == s.len() || !keep(s[i]),
    ensures
        run_len(s, keep) == i,
    decreases i,
{
    if i > 0 {
        let t = s.skip(1);
        assert forall|j: int| 0 <= j < i - 1 implies keep(#[trigger] t[j]) by {
            assert(t[j] == s[j + 1]);
        }
        lemma_run_len(t, keep, i - 1);
    }
}

/// A run is no longer than the text, holds only characters that satisfy
/// `keep`, and ends at the first one that does not.
proof fn lemma_run_len_bounds(s: Seq<char>, keep: spec_fn(char) -> bool)
    ensures
        0 <= run_len(s, keep) <= s.len(),
        forall|j: int| 0 <= j < run_len(s, keep) ==> keep(#[trigger] s[j]),
        run_len(s, keep) < s.len() ==> !keep(s[run_len(s, keep)]),
    decreases s.len(),
{
    if s.len() == 0 || !keep(s[0]) {
    } else {
        let t = s.skip(1);
        lemma_run_len_bounds(t, keep);
        assert forall|j: int| 0 <= j < run_len(s, keep) implies keep(#[trigger] s[j]) by {
            if j > 0 {
                assert(s[j] == t[j - 1]);
            }
        }
        if run_len(s, keep) < s.len() {
            assert(s[run_len(s, keep)] == t[run_len(t, keep)]);
        }
    }
}

/// White space at the end of a text that ends with `n` white-space
/// characters after a character that is none.
proof fn lemma_trailing_spaces(s: Seq<char>, n: int)
    requires
        0 <= n <= s.len(),
        forall|j: int| s.len() - n <= j < s.len() ==> is_space(#[trigger] s[j]),
        n == s.len() || !is_space(s[s.len() - n - 1]),
    ensures
        trailing_spaces(s) == n,
    decreases n,
{
    if n > 0 {
        let t = s.drop_last();
        assert forall|j: int| t.len() - (n - 1) <= j < t.len() implies is_space(#[trigger] t[j]) by {
            assert(t[j] == s[j]);
        }
        lemma_trailing_spaces(t, n - 1);
    }
}

/// A text splits into one piece exactly where it holds no separator.
pub proof fn lemma_split_len(s: Seq<char>, sep: char)
    ensures
        split(s, sep).len() >= 1,
        split(s, sep).len() >= 2 <==> s.contains(sep),
    decreases s.len(),
{
    lemma_run_len_bounds(s, other_than(sep));
    let i = first_index(s, sep);
    if 0 <= i < s.len() {
        assert(s[i] == sep);
        lemma_split_len(s.skip(i + 1), sep);
    } else {
        assert(i == s.len());
        assert forall|j: int| 0 <= j < s.len() implies s[j] != sep by {
            assert(other_than(sep)(s[j]));
        }
    }
}

/// Tests whether `c` is white space.
pub fn is_space_char(c: char) -> (b: bool)
    ensures
        b == is_space(c),
{
    let n: u32 = c as u32;
    (0x09 <= n && n <= 0x0D) || n == 0x20 || n == 0x85 || n == 0xA0 || n == 0x1680 || (0x2000 <= n
        && n <= 0x200A) || n == 0x2028 || n == 0x2029 || n == 0x202F || n == 0x205F || n == 0x3000
}

/// The characters of `s`, in order.
pub fn chars_of(s: &str) -> (v: Vec<char>)
    ensures
        v@ == s@,
{
    broadcast use vstd::string::group_string_axioms;

    let mut v: Vec<char> = Vec::new();
    for c in it: s.chars()
        invariant
            it.seq() == s@,
            v@ == it.seq().take(it.index() as int),
    {
        v.push(c);
    }
    v
}

/// Tests whether two strings hold the same text.
pub fn same_text(a: &str, b: &str) -> (r: bool)
    ensures
        r == (a@ == b@),
{
    let x = chars_of(a);
    let y = chars_of(b);
    if x.len() != y.len() {
        return false;
    }
    let mut i: usize = 0;
    while i < x.len()
        invariant
            x@ == a@,
            y@ == b@,
            x.len() == y.len(),
            i <= x.len(),
            forall|j: int| 0 <= j < i ==> x@[j] == y@[j],
        decreases x.len() - i,
    {
        if x[i] != y[i] {
            return false;
        }
        i += 1;
    }
    assert(x@ =~= y@);
    true
}

/// Tests whether one of `list` holds the text of `name`.
pub fn has_name(list: &Vec<String>, name: &str) -> (b: bool)
    ensures
        b == texts(list@).contains(name@),
{
    let mut i: usize = 0;
    while i < list.len()
        invariant
            i <= list@.len(),
            forall|j: int| 0 <= j < i ==> texts(list@)[j] != name@,
        decreases list@.len() - i,
    {
        if same_text(list[i].as_str(), name) {
            assert(texts(list@)[i as int] == name@);
            return true;
        }
        i += 1;
    }
    false
}

/// The first position at or after `from` that holds `c`; the length of
/// `chars` where none does.
fn find_char(chars: &Vec<char>, from: usize, c: char) -> (at: usize)
    requires
        from <= chars.len(),
    ensures
        from <= at <= chars.len(),
        at - from == first_index(chars@.skip(from as int), c),
        forall|j: int| from <= j < at ==> chars@[j] != c,
        at < chars.len() ==> chars@[at as int] == c,
{
    let mut at: usize = from;
    while at < chars.len() && chars[at] != c
        invariant
            from <= at <= chars.len(),
            forall|j: int| from <= j < at ==> chars@[j] != c,
        decreases chars.len() - at,
    {
        at += 1;
    }
    proof {
        let rest = chars@.skip(from as int);
        lemma_run_len(rest, other_than(c), at - from);
    }
    at
}

/// Tests whether `c` occurs in `s`.
pub fn has_char(s: &str, c: char) -> (b: bool)
    ensures
        b == s@.contains(c),
{
    let chars = chars_of(s);
    let at = find_char(&chars, 0, c);
    at < chars.len()
}

/// The first position at or after `from` that holds no white space.
fn skip_spaces(chars: &Vec<char>, from: usize) -> (at: usize)
    requires
        from <= chars.len(),
    ensures
        from <= at <= chars.len(),
        at - from == leading_spaces(chars@.skip(from as int)),
{
    let mut at: usize = from;
    while at < chars.len() && is_space_char(chars[at])
        invariant
            from <= at <= chars.len(),
            forall|j: int| from <= j < at ==> is_space(chars@[j]),
        decreases chars.len() - at,
    {
        at += 1;
    }
    proof {
        let rest = chars@.skip(from as int);
        lemma_run_len(rest, |x: char| is_space(x), at - from);
    }
    at
}

/// The first position at or after `from` that holds white space.
fn skip_word(chars: &Vec<char>, from: usize) -> (at: usize)
    requires
        from <= chars.len(),
    ensures
        from <= at <= chars.len(),
        at - from == word_len(chars@.skip(from as int)),
{
    let mut at: usize = from;
    while at < chars.len() && !is_space_char(chars[at])
        invariant
            from <= at <= chars.len(),
            forall|j: int| from <= j < at ==> !is_space(chars@[j]),
        decreases chars.len() - at,
    {
        at += 1;
    }
    proof {
        let rest = chars@.skip(from as int);
        lemma_run_len(rest, |x: char| !is_space(x), at - from);
    }
    at
}

/// The position after the last character from `from` on that is no white
/// space; `from` where there is none.
fn skip_spaces_back(chars: &Vec<char>, from: usize) -> (to: usize)
    requires
        from <= chars.len(),
    ensures
        from <= to <= chars.len(),
        chars.len() - to == trailing_spaces(chars@.skip(from as int)),
{
    let mut to: usize = chars.len();
    while to > from && is_space_char(chars[to - 1])
        invariant
            from <= to <= chars.len(),
            forall|j: int| to <= j < chars.len() ==> is_space(chars@[j]),
        decreases to,
    {
        to -= 1;
    }
    proof {
        let rest = chars@.skip(from as int);
        assert forall|j: int| rest.len() - (chars.len() - to) <= j < rest.len() implies is_space(
            #[trigger] rest[j],
        ) by {
            assert(rest[j] == chars@[from + j]);
        }
        lemma_trailing_spaces(rest, chars.len() - to);
    }
    to
}

/// Tests whether `needle` stands in `hay` at position `at`.
fn matches_at(hay: &Vec<char>, needle: &Vec<char>, at: usize) -> (r: bool)
    requires
        at + needle.len() <= hay.len(),
    ensures
        r == occurs_at(hay@, needle@, at as int),
{
    let mut k: usize = 0;
    while k < needle.len()
        invariant
            at + needle.len() <= hay.len(),
            k <= needle.len(),
            forall|j: int| 0 <= j < k ==> hay@[at + j] == needle@[j],
        decreases needle.len() - k,
    {
        if hay[at + k] != needle[k] {
            assert(hay@.subrange(at as int, at + needle.len())[k as int] != needle@[k as int]);
            return false;
        }
        k += 1;
    }
    assert(hay@.subrange(at as int, at + needle.len()) =~= needle@);
    true
}

/// Tests whether `needle` occurs in `hay`.
pub fn has_text(hay: &str, needle: &str) -> (r: bool)
    ensures
        r == contains_text(hay@, needle@),
{
    let h = chars_of(hay);
    let n = chars_of(needle);
    if n.len() > h.len() {
        return false;
    }
    let last: usize = h.len() - n.len();
    let mut i: usize = 0;
    loop
        invariant
            h@ == hay@,
            n@ == needle@,
            last + n.len() == h.len(),
            i <= last,
            forall|k: int| 0 <= k < i ==> !occurs_at(hay@, needle@, k),
        decreases last - i,
    {
        if matches_at(&h, &n, i) {
            return true;
        }
        if i == last {
            return false;
        }
        i += 1;
    }
}

/// The pieces of `s` between the occurrences of `sep`.
pub fn split_text(s: &str, sep: char) -> (parts: Vec<String>)
    ensures
        texts(parts@) == split(s@, sep),
{
    let chars = chars_of(s);
    let mut parts: Vec<String> = Vec::new();
    let mut start: usize = 0;
    let mut done = false;
    proof {
        assert(s@.skip(0) =~= s@);
        assert(texts(parts@) + split(s@, sep) =~= split(s@, sep));
    }
    while !done
        invariant
            chars@ == s@,
            start <= chars.len(),
            !done ==> split(s@, sep) == texts(parts@) + split(s@.skip(start as int), sep),
            done ==> split(s@, sep) == texts(parts@),
        decreases
            (if done {
                0
            } else {
                1 + chars.len() - start
            }),
    {
        let at = find_char(&chars, start, sep);
        let piece = s.substring_char(start, at).to_owned();
        proof {
            let rest = s@.skip(start as int);
            assert(rest.take(at - start) =~= piece@);
            assert(texts(parts@.push(piece)) =~= texts(parts@) + seq![piece@]);
            if at < chars.len() {
                assert(rest.skip(at - start + 1) =~= s@.skip(at + 1));
                assert(texts(parts@) + (seq![piece@] + split(s@.skip(at + 1), sep)) =~= texts(
                    parts@,
                ) + seq![piece@] + split(s@.skip(at + 1), sep));
            } else {
                assert(rest =~= piece@);
            }
        }
        parts.push(piece);
        if at < chars.len() {
            start = at + 1;
        } else {
            done = true;
        }
    }
    parts
}

/// `s` without the white space at its start and at its end.
pub fn trim_text(s: &str) -> (r: String)
    ensures
        r@ == trimmed(s@),
{
    let chars = chars_of(s);
    let from = skip_spaces(&chars, 0);
    let to = skip_spaces_back(&chars, from);
    proof {
        assert(s@.skip(0) =~= s@);
        let rest = s@.skip(from as int);
        assert(rest.take(rest.len() - (chars.len() - to)) =~= s@.subrange(from as int, to as int));
    }
    s.substring_char(from, to).to_owned()
}

/// The white-space-delimited column number `k` of `line`, counted from
/// zero; empty where the line has fewer columns.
pub fn column_of(line: &str, k: usize) -> (r: String)
    ensures
        r@ == column(line@, k as nat),
{
    let chars = chars_of(line);
    let mut pos: usize = 0;
    let mut n: usize = 0;
    proof {
        assert(line@.skip(0) =~= line@);
    }
    while n < k
        invariant
            chars@ == line@,
            n <= k,
            pos <= chars.len(),
            column(line@, k as nat) == column(line@.skip(pos as int), (k - n) as nat),
        decreases k - n,
    {
        let from = skip_spaces(&chars, pos);
        let to = skip_word(&chars, from);
        proof {
            let here = line@.skip(pos as int);
            assert(here.skip(from - pos) =~= line@.skip(from as int));
            assert(line@.skip(from as int).skip(to - from) =~= line@.skip(to as int));
        }
        pos = to;
        n += 1;
    }
    let from = skip_spaces(&chars, pos);
    let to = skip_word(&chars, from);
    proof {
        let here = line@.skip(pos as int);
        assert(here.skip(from - pos) =~= line@.skip(from as int));
        assert(line@.skip(from as int).take(to - from) =~= line@.subrange(from as int, to as int));
    }
    line.substring_char(from, to).to_owned()
}

} // verus!
