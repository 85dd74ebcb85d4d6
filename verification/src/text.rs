//! Text as sequences of characters: the model that every contract of this
//! crate is stated over, and the executable helpers that compute on it.

use vstd::prelude::*;

verus! {

/// Whether `c` has the Unicode `White_Space` property.
pub open spec fn is_whitespace(c: char) -> bool {
    let n = c as u32;
    ||| 0x09 <= n <= 0x0d
    ||| n == 0x20
    ||| n == 0x85
    ||| n == 0xa0
    ||| n == 0x1680
    ||| 0x2000 <= n <= 0x200a
    ||| n == 0x2028
    ||| n == 0x2029
    ||| n == 0x202f
    ||| n == 0x205f
    ||| n == 0x3000
}

/// How many whitespace characters `s` begins with.
pub open spec fn leading_whitespace(s: Seq<char>) -> nat
    decreases s.len(),
{
    if s.len() > 0 && is_whitespace(s[0]) {
        1 + leading_whitespace(s.drop_first())
    } else {
        0
    }
}

/// How many whitespace characters `s` ends with.
pub open spec fn trailing_whitespace(s: Seq<char>) -> nat
    decreases s.len(),
{
    if s.len() > 0 && is_whitespace(s.last()) {
        1 + trailing_whitespace(s.drop_last())
    } else {
        0
    }
}

/// `s` without its leading whitespace.
pub open spec fn trim_start(s: Seq<char>) -> Seq<char> {
    s.skip(leading_whitespace(s) as int)
}

/// `s` without its trailing whitespace.
pub open spec fn trim_end(s: Seq<char>) -> Seq<char> {
    s.take(s.len() - trailing_whitespace(s))
}

/// `s` without leading and trailing whitespace.
pub open spec fn trim(s: Seq<char>) -> Seq<char> {
    trim_end(trim_start(s))
}

/// Whether `s` begins with `prefix`.
pub open spec fn starts_with(s: Seq<char>, prefix: Seq<char>) -> bool {
    prefix.len() <= s.len() && s.take(prefix.len() as int) == prefix
}

/// Whether `pattern` stands in `s` at index `at`.
pub open spec fn occurs_at(s: Seq<char>, pattern: Seq<char>, at: int) -> bool {
    0 <= at && at + pattern.len() <= s.len() && s.subrange(at, at + pattern.len()) == pattern
}

/// The first index at or after `from` where `pattern` stands in `s`.
pub open spec fn find_from(s: Seq<char>, pattern: Seq<char>, from: int) -> Option<int>
    decreases s.len() - from + 1,
{
    if from < 0 || from + pattern.len() > s.len() {
        None
    } else if occurs_at(s, pattern, from) {
        Some(from)
    } else {
        find_from(s, pattern, from + 1)
    }
}

/// The first index where `pattern` stands in `s`.
pub open spec fn find(s: Seq<char>, pattern: Seq<char>) -> Option<int> {
    find_from(s, pattern, 0)
}

/// An ASCII capital letter as its small letter; any other character unchanged.
pub open spec fn ascii_lower(c: char) -> char {
    if 'A' <= c <= 'Z' {
        ((c as u8) + 32) as char
    } else {
        c
    }
}

/// An ASCII small letter as its capital letter; any other character unchanged.
pub open spec fn ascii_upper(c: char) -> char {
    if 'a' <= c <= 'z' {
        ((c as u8) - 32) as char
    } else {
        c
    }
}

/// `s` with every ASCII small letter made a capital.
pub open spec fn to_ascii_upper(s: Seq<char>) -> Seq<char> {
    Seq::new(s.len(), |i: int| ascii_upper(s[i]))
}

/// Whether `a` and `b` are equal once ASCII letters are compared without case.
pub open spec fn eq_ignore_ascii_case(a: Seq<char>, b: Seq<char>) -> bool {
    a.len() == b.len() && forall|i: int| 0 <= i < a.len() ==> ascii_lower(a[i]) == ascii_lower(b[i])
}

/// The length of the longest prefix of `s` that holds no `separator`.
pub open spec fn run_length(s: Seq<char>, separator: char) -> nat
    decreases s.len(),
{
    if s.len() > 0 && s[0] != separator {
        1 + run_length(s.drop_first(), separator)
    } else {
        0
    }
}

/// The non-empty pieces of `s` between occurrences of `separator`, in order.
pub open spec fn tokens(s: Seq<char>, separator: char) -> Seq<Seq<char>>
    decreases s.len(),
{
    if s.len() == 0 {
        Seq::empty()
    } else if s[0] == separator {
        tokens(s.drop_first(), separator)
    } else {
        let n = run_length(s, separator) as int;
        proof {
            lemma_run_length(s, separator);
        }
        seq![s.take(n)] + tokens(s.skip(n), separator)
    }
}

/// The length of a run never exceeds the text, and the run holds no separator.
pub proof fn lemma_run_length(s: Seq<char>, separator: char)
    ensures
        run_length(s, separator) <= s.len(),
        forall|i: int| 0 <= i < run_length(s, separator) ==> s[i] != separator,
        run_length(s, separator) < s.len() ==> s[run_length(s, separator) as int] == separator,
    decreases s.len(),
{
    if s.len() > 0 && s[0] != separator {
        let rest = s.drop_first();
        lemma_run_length(rest, separator);
        assert forall|i: int| 0 <= i < run_length(s, separator) implies s[i] != separator by {
            if i > 0 {
                assert(s[i] == rest[i - 1]);
            }
        }
        if run_length(s, separator) < s.len() {
            assert(s[run_length(s, separator) as int] == rest[run_length(rest, separator) as int]);
        }
    }
}

/// Every token is non-empty and holds no separator.
pub proof fn lemma_tokens_are_clean(s: Seq<char>, separator: char)
    ensures
        forall|k: int|
            0 <= k < tokens(s, separator).len() ==> {
                &&& (#[trigger] tokens(s, separator)[k]).len() > 0
                &&& !tokens(s, separator)[k].contains(separator)
            },
    decreases s.len(),
{
    if s.len() == 0 {
        assert(tokens(s, separator).len() == 0);
    } else if s[0] == separator {
        lemma_tokens_are_clean(s.drop_first(), separator);
        assert(tokens(s, separator) == tokens(s.drop_first(), separator));
    } else {
        let n = run_length(s, separator) as int;
        lemma_run_length(s, separator);
        lemma_tokens_are_clean(s.skip(n), separator);
        let first = s.take(n);
        let rest = tokens(s.skip(n), separator);
        assert forall|k: int| 0 <= k < tokens(s, separator).len() implies {
            &&& (#[trigger] tokens(s, separator)[k]).len() > 0
            &&& !tokens(s, separator)[k].contains(separator)
        } by {
            if k == 0 {
                assert(tokens(s, separator)[0] == first);
                assert(first.len() == n);
                assert forall|i: int| 0 <= i < first.len() implies first[i] != separator by {
                    assert(first[i] == s[i]);
                }
            } else {
                assert(tokens(s, separator)[k] == rest[k - 1]);
            }
        }
    }
}

/// The first occurrence: `find_from` returns an index where the pattern
/// stands, no earlier index from `from` on holds it, and `None` means that no
/// index from `from` on does.
pub proof fn lemma_find_from(s: Seq<char>, pattern: Seq<char>, from: int)
    requires
        0 <= from,
    ensures
        match find_from(s, pattern, from) {
            Some(at) => {
                &&& from <= at
                &&& occurs_at(s, pattern, at)
                &&& forall|j: int| from <= j < at ==> !occurs_at(s, pattern, j)
            },
            None => forall|j: int| from <= j ==> !occurs_at(s, pattern, j),
        },
    decreases s.len() - from + 1,
{
    if from + pattern.len() > s.len() {
    } else if occurs_at(s, pattern, from) {
    } else {
        lemma_find_from(s, pattern, from + 1);
    }
}

/// Where `pattern` stands at `at` and nowhere from `from` up to `at`, the
/// search from `from` finds it at `at`.
pub proof fn lemma_find_from_hits(s: Seq<char>, pattern: Seq<char>, from: int, at: int)
    requires
        0 <= from <= at,
        occurs_at(s, pattern, at),
        forall|j: int| from <= j < at ==> !occurs_at(s, pattern, j),
    ensures
        find_from(s, pattern, from) == Some(at),
    decreases at - from,
{
    if from < at {
        assert(!occurs_at(s, pattern, from));
        lemma_find_from_hits(s, pattern, from + 1, at);
    }
}

/// The model of a result: the model of what it holds, on either side.
pub open spec fn result_view<T: DeepView, E: DeepView>(r: Result<T, E>) -> Result<T::V, E::V> {
    match r {
        Ok(value) => Ok(value.deep_view()),
        Err(error) => Err(error.deep_view()),
    }
}

/// The model of a result that may be missing.
pub open spec fn optional_result_view<T: DeepView, E: DeepView>(r: Option<Result<T, E>>) -> Option<
    Result<T::V, E::V>,
> {
    match r {
        Some(inner) => Some(result_view(inner)),
        None => None,
    }
}

/// The texts that a vector of character vectors holds.
pub open spec fn texts(v: Seq<Vec<char>>) -> Seq<Seq<char>> {
    v.map_values(|t: Vec<char>| t@)
}

/// The characters of `s`, in order.
pub fn chars_of(s: &str) -> (v: Vec<char>)
    ensures
        v@ == s@,
{
    let mut v: Vec<char> = Vec::new();
    for c in it: s.chars()
        invariant
            v@ == it.seq().take(it.index() as int),
            it.seq() == s@,
    {
        v.push(c);
    }
    v
}

/// `Iterator::collect` of std, into a `String`: the string that holds the
/// given characters, in their order.
#[verifier::external_body]
pub(crate) fn string_of(chars: &Vec<char>) -> (s: String)
    ensures
        s@ == chars@,
{
    chars.iter().collect()
}

/// Whether `c` is a whitespace character.
pub fn char_is_whitespace(c: char) -> (r: bool)
    ensures
        r == is_whitespace(c),
{
    let n: u32 = c as u32;
    (0x09 <= n && n <= 0x0d) || n == 0x20 || n == 0x85 || n == 0xa0 || n == 0x1680 || (0x2000 <= n
        && n <= 0x200a) || n == 0x2028 || n == 0x2029 || n == 0x202f || n == 0x205f || n == 0x3000
}

/// A copy of `v[from..to]`.
pub fn slice_of(v: &Vec<char>, from: usize, to: usize) -> (r: Vec<char>)
    requires
        from <= to <= v.len(),
    ensures
        r@ == v@.subrange(from as int, to as int),
{
    let mut r: Vec<char> = Vec::new();
    let mut i: usize = from;
    while i < to
        invariant
            from <= i <= to <= v.len(),
            r@ == v@.subrange(from as int, i as int),
        decreases to - i,
    {
        r.push(v[i]);
        i += 1;
    }
    r
}

/// The index of the first character of `v` that is no whitespace, or its
/// length where there is none.
pub fn skip_leading_whitespace(v: &Vec<char>) -> (i: usize)
    ensures
        i == leading_whitespace(v@),
        i <= v.len(),
{
    let mut i: usize = 0;
    assert(v@.skip(0) == v@);
    while i < v.len() && char_is_whitespace(v[i])
        invariant
            i <= v.len(),
            leading_whitespace(v@) == i + leading_whitespace(v@.skip(i as int)),
        decreases v.len() - i,
    {
        proof {
            let rest = v@.skip(i as int);
            assert(rest[0] == v@[i as int]);
            assert(rest.drop_first() == v@.skip(i + 1));
        }
        i += 1;
    }
    proof {
        let rest = v@.skip(i as int);
        if i < v.len() {
            assert(rest[0] == v@[i as int]);
        }
    }
    i
}

/// The length of `v` without its trailing whitespace.
pub fn skip_trailing_whitespace(v: &Vec<char>) -> (n: usize)
    ensures
        n == v.len() - trailing_whitespace(v@),
        n <= v.len(),
{
    let mut n: usize = v.len();
    assert(v@.take(n as int) == v@);
    while n > 0 && char_is_whitespace(v[n - 1])
        invariant
            n <= v.len(),
            trailing_whitespace(v@) == (v.len() - n) + trailing_whitespace(v@.take(n as int)),
        decreases n,
    {
        proof {
            let head = v@.take(n as int);
            assert(head.last() == v@[n - 1]);
            assert(head.drop_last() == v@.take(n - 1));
        }
        n -= 1;
    }
    proof {
        let head = v@.take(n as int);
        if n > 0 {
            assert(head.last() == v@[n - 1]);
        }
    }
    n
}

/// `v` without leading and trailing whitespace.
pub fn trimmed(v: &Vec<char>) -> (r: Vec<char>)
    ensures
        r@ == trim(v@),
{
    let start: usize = skip_leading_whitespace(v);
    let rest: Vec<char> = slice_of(v, start, v.len());
    assert(rest@ == trim_start(v@));
    let end: usize = skip_trailing_whitespace(&rest);
    let r = slice_of(&rest, 0, end);
    assert(r@ == rest@.take(end as int));
    r
}

/// Whether `pattern` stands in `v` at index `at`.
pub fn occurs_at_index(v: &Vec<char>, pattern: &Vec<char>, at: usize) -> (r: bool)
    ensures
        r == occurs_at(v@, pattern@, at as int),
{
    if pattern.len() > v.len() || at > v.len() - pattern.len() {
        return false;
    }
    let mut k: usize = 0;
    while k < pattern.len()
        invariant
            k <= pattern.len(),
            at + pattern.len() <= v.len(),
            forall|j: int| 0 <= j < k ==> v@[at + j] == pattern@[j],
        decreases pattern.len() - k,
    {
        if v[at + k] != pattern[k] {
            proof {
                let window = v@.subrange(at as int, at + pattern.len());
                assert(window[k as int] == v@[at + k]);
            }
            return false;
        }
        k += 1;
    }
    assert(v@.subrange(at as int, at + pattern.len()) =~= pattern@);
    true
}

/// The first index where `pattern` stands in `v`.
pub fn find_in(v: &Vec<char>, pattern: &Vec<char>) -> (r: Option<usize>)
    ensures
        match r {
            Some(at) => find(v@, pattern@) == Some(at as int),
            None => find(v@, pattern@) is None,
        },
{
    if pattern.len() > v.len() {
        return None;
    }
    let last: usize = v.len() - pattern.len();
    let mut i: usize = 0;
    loop
        invariant
            i <= last,
            last == v.len() - pattern.len(),
            find(v@, pattern@) == find_from(v@, pattern@, i as int),
        decreases last - i,
    {
        if occurs_at_index(v, pattern, i) {
            return Some(i);
        }
        if i == last {
            assert(find_from(v@, pattern@, i + 1) is None);
            return None;
        }
        i += 1;
    }
}

/// Whether `v` begins with `prefix`.
pub fn begins_with(v: &Vec<char>, prefix: &Vec<char>) -> (r: bool)
    ensures
        r == starts_with(v@, prefix@),
{
    let r = occurs_at_index(v, prefix, 0);
    proof {
        if prefix.len() <= v.len() {
            assert(v@.take(prefix.len() as int) == v@.subrange(0, 0 + prefix.len()));
        }
    }
    r
}

/// The small letter of an ASCII capital; any other character unchanged.
pub fn lower_char(c: char) -> (r: char)
    ensures
        r == ascii_lower(c),
{
    if 'A' <= c && c <= 'Z' {
        ((c as u8) + 32) as char
    } else {
        c
    }
}

/// The capital of an ASCII small letter; any other character unchanged.
pub fn upper_char(c: char) -> (r: char)
    ensures
        r == ascii_upper(c),
{
    if 'a' <= c && c <= 'z' {
        ((c as u8) - 32) as char
    } else {
        c
    }
}

/// `v` with every ASCII small letter made a capital.
pub fn upper_chars(v: &Vec<char>) -> (r: Vec<char>)
    ensures
        r@ == to_ascii_upper(v@),
{
    let mut r: Vec<char> = Vec::new();
    let mut i: usize = 0;
    while i < v.len()
        invariant
            i <= v.len(),
            r@.len() == i,
            forall|j: int| 0 <= j < i ==> r@[j] == ascii_upper(v@[j]),
        decreases v.len() - i,
    {
        r.push(upper_char(v[i]));
        i += 1;
    }
    assert(r@ =~= to_ascii_upper(v@));
    r
}

/// Whether `a` and `b` are equal once ASCII letters are compared without case.
pub fn same_ignoring_ascii_case(a: &Vec<char>, b: &Vec<char>) -> (r: bool)
    ensures
        r == eq_ignore_ascii_case(a@, b@),
{
    if a.len() != b.len() {
        return false;
    }
    let mut i: usize = 0;
    while i < a.len()
        invariant
            i <= a.len(),
            a.len() == b.len(),
            forall|j: int| 0 <= j < i ==> ascii_lower(a@[j]) == ascii_lower(b@[j]),
        decreases a.len() - i,
    {
        if lower_char(a[i]) != lower_char(b[i]) {
            return false;
        }
        i += 1;
    }
    true
}

/// Whether `a` and `b` hold the same characters.
pub fn same_chars(a: &Vec<char>, b: &Vec<char>) -> (r: bool)
    ensures
        r == (a@ == b@),
{
    if a.len() != b.len() {
        return false;
    }
    let mut i: usize = 0;
    while i < a.len()
        invariant
            i <= a.len(),
            a.len() == b.len(),
            forall|j: int| 0 <= j < i ==> a@[j] == b@[j],
        decreases a.len() - i,
    {
        if a[i] != b[i] {
            return false;
        }
        i += 1;
    }
    assert(a@ =~= b@);
    true
}

/// The non-empty pieces of `v` between occurrences of `separator`, in order.
pub fn split_tokens(v: &Vec<char>, separator: char) -> (r: Vec<Vec<char>>)
    ensures
        texts(r@) == tokens(v@, separator),
{
    let mut r: Vec<Vec<char>> = Vec::new();
    let mut i: usize = 0;
    assert(v@.skip(0) == v@);
    assert(texts(r@) =~= Seq::<Seq<char>>::empty());
    while i < v.len()
        invariant
            i <= v.len(),
            tokens(v@, separator) == texts(r@) + tokens(v@.skip(i as int), separator),
        decreases v.len() - i,
    {
        let ghost rest = v@.skip(i as int);
        if v[i] == separator {
            proof {
                assert(rest[0] == v@[i as int]);
                assert(rest.drop_first() == v@.skip(i + 1));
            }
            i += 1;
        } else {
            let start: usize = i;
            while i < v.len() && v[i] != separator
                invariant
                    start <= i <= v.len(),
                    rest == v@.skip(start as int),
                    run_length(rest, separator) == (i - start) + run_length(
                        v@.skip(i as int),
                        separator,
                    ),
                decreases v.len() - i,
            {
                proof {
                    let tail = v@.skip(i as int);
                    assert(tail[0] == v@[i as int]);
                    assert(tail.drop_first() == v@.skip(i + 1));
                }
                i += 1;
            }
            proof {
                let tail = v@.skip(i as int);
                if i < v.len() {
                    assert(tail[0] == v@[i as int]);
                }
                assert(run_length(rest, separator) == i - start);
                assert(rest[0] == v@[start as int]);
            }
            let token: Vec<char> = slice_of(v, start, i);
            proof {
                let n = (i - start) as int;
                assert(token@ == rest.take(n));
                assert(rest.skip(n) == v@.skip(i as int));
                assert(tokens(rest, separator) == seq![token@] + tokens(
                    v@.skip(i as int),
                    separator,
                ));
                let before = texts(r@);
                assert(before.push(token@) + tokens(v@.skip(i as int), separator) == before + (
                seq![token@] + tokens(v@.skip(i as int), separator)));
            }
            let ghost before = texts(r@);
            r.push(token);
            assert(texts(r@) =~= before.push(token@));
        }
    }
    proof {
        assert(v@.skip(i as int).len() == 0);
    }
    r
}

/// `a` followed by `b`.
pub fn concat(a: &Vec<char>, b: &Vec<char>) -> (r: Vec<char>)
    ensures
        r@ == a@ + b@,
{
    let mut r: Vec<char> = Vec::new();
    let mut i: usize = 0;
    while i < a.len()
        invariant
            i <= a.len(),
            r@ == a@.take(i as int),
        decreases a.len() - i,
    {
        r.push(a[i]);
        i += 1;
    }
    assert(a@.take(a.len() as int) == a@);
    let mut k: usize = 0;
    while k < b.len()
        invariant
            k <= b.len(),
            r@ == a@ + b@.take(k as int),
        decreases b.len() - k,
    {
        r.push(b[k]);
        k += 1;
    }
    assert(b@.take(b.len() as int) == b@);
    r
}

} // verus!
