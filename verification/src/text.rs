//! Character-level text handling shared by the command language: splitting on a
//! separator, splitting into lines and into whitespace-separated words, and the
//! object-name rules.
use vstd::prelude::*;

verus! {

/// What `char::is_alphanumeric` answers for a character (the Unicode
/// `Alphabetic` or `Numeric` property).
pub uninterp spec fn alphanumeric(c: char) -> bool;

/// What `char::is_whitespace` answers for a character: whether it has the
/// Unicode `White_Space` property, which these code points have.
pub open spec fn whitespace(c: char) -> bool {
    let n = c as u32;
    ||| 0x9 <= n && n <= 0xD
    ||| n == 0x20
    ||| n == 0x85
    ||| n == 0xA0
    ||| n == 0x1680
    ||| 0x2000 <= n && n <= 0x200A
    ||| n == 0x2028
    ||| n == 0x2029
    ||| n == 0x202F
    ||| n == 0x205F
    ||| n == 0x3000
}

/// Calls `char::is_alphanumeric`; the contract names its answer, and claims
/// of the Unicode tables behind it only that an ASCII character is
/// alphanumeric exactly when it is a letter or a digit.
#[verifier::external_body]
pub(crate) fn char_is_alphanumeric(c: char) -> (r: bool)
    ensures
        r == alphanumeric(c),
        ('a' <= c && c <= 'z') || ('A' <= c && c <= 'Z') || ('0' <= c && c <= '9') ==> r,
        (c as u32) < 128 && !(('a' <= c && c <= 'z') || ('A' <= c && c <= 'Z') || ('0' <= c && c
            <= '9')) ==> !r,
{
    c.is_alphanumeric()
}

/// Calls `char::is_whitespace`; the contract states its answer by the
/// code points of the `White_Space` property.
#[verifier::external_body]
pub(crate) fn char_is_whitespace(c: char) -> (r: bool)
    ensures
        r == whitespace(c),
{
    c.is_whitespace()
}

/// Index of the first `c` in `s`, or `s.len()` when there is none.
pub open spec fn first_index(s: Seq<char>, c: char) -> int
    decreases s.len(),
{
    if s.len() == 0 {
        0
    } else if s[0] == c {
        0
    } else {
        1 + first_index(s.drop_first(), c)
    }
}

pub proof fn lemma_first_index(s: Seq<char>, c: char)
    ensures
        0 <= first_index(s, c) <= s.len(),
        first_index(s, c) < s.len() ==> s[first_index(s, c)] == c,
        forall|j: int| 0 <= j < first_index(s, c) ==> s[j] != c,
    decreases s.len(),
{
    if s.len() > 0 && s[0] != c {
        lemma_first_index(s.drop_first(), c);
        assert forall|j: int| 0 <= j < first_index(s, c) implies s[j] != c by {
            if j > 0 {
                assert(s[j] == s.drop_first()[j - 1]);
            }
        }
    }
}

/// The pieces of `s` between occurrences of `c`, as `str::split` yields them.
pub open spec fn split_on(s: Seq<char>, c: char) -> Seq<Seq<char>>
    decreases s.len(),
{
    let i = first_index(s, c);
    if i >= s.len() {
        seq![s]
    } else {
        proof {
            lemma_first_index(s, c);
        }
        seq![s.take(i)] + split_on(s.skip(i + 1), c)
    }
}

proof fn lemma_split_step(s: Seq<char>, c: char, start: int, k: int)
    requires
        0 <= start <= k <= s.len(),
        forall|j: int| start <= j < k ==> s[j] != c,
        k < s.len() ==> s[k] == c,
    ensures
        k == s.len() ==> split_on(s.skip(start), c) == seq![s.subrange(start, k)],
        k < s.len() ==> split_on(s.skip(start), c) == seq![s.subrange(start, k)] + split_on(
            s.skip(k + 1),
            c,
        ),
{
    let t = s.skip(start);
    lemma_first_index(t, c);
    let i = first_index(t, c);
    if i < k - start {
        assert(t[i] == s[start + i]);
    }
    if k < s.len() {
        assert(t[k - start] == s[k]);
        assert(i == k - start);
        assert(t.take(i) =~= s.subrange(start, k));
        assert(t.skip(i + 1) =~= s.skip(k + 1));
    } else {
        assert(i == t.len());
        assert(t =~= s.subrange(start, k));
    }
}

/// Reads the characters of `s` into a vector.
pub fn chars_of(s: &str) -> (r: Vec<char>)
    ensures
        r@ == s@,
{
    let n = s.unicode_len();
    let mut r: Vec<char> = Vec::new();
    let mut k: usize = 0;
    while k < n
        invariant
            n == s@.len(),
            k <= n,
            r@ == s@.take(k as int),
        decreases n - k,
    {
        let ch = s.get_char(k);
        r.push(ch);
        k = k + 1;
        assert(r@ =~= s@.take(k as int));
    }
    assert(r@ =~= s@);
    r
}

/// Splits `s` at every `c`, as `str::split` with a character pattern does.
pub fn split_char(s: &str, c: char) -> (r: Vec<String>)
    ensures
        r.deep_view() == split_on(s@, c),
{
    let n = s.unicode_len();
    let mut r: Vec<String> = Vec::new();
    let mut start: usize = 0;
    let mut k: usize = 0;
    assert(s@.skip(0) =~= s@);
    assert(r.deep_view() + split_on(s@, c) =~= split_on(s@, c));
    while k < n
        invariant
            n == s@.len(),
            start <= k <= n,
            forall|j: int| start <= j < k ==> s@[j] != c,
            r.deep_view() + split_on(s@.skip(start as int), c) == split_on(s@, c),
        decreases n - k,
    {
        let ch = s.get_char(k);
        if ch == c {
            proof {
                lemma_split_step(s@, c, start as int, k as int);
            }
            let piece = s.substring_char(start, k).to_owned();
            let ghost before = r.deep_view();
            r.push(piece);
            assert(r.deep_view() =~= before.push(s@.subrange(start as int, k as int)));
            assert(r.deep_view() + split_on(s@.skip(k + 1), c) =~= before + (seq![
                s@.subrange(start as int, k as int),
            ] + split_on(s@.skip(k + 1), c)));
            start = k + 1;
        }
        k = k + 1;
    }
    proof {
        lemma_split_step(s@, c, start as int, k as int);
    }
    let piece = s.substring_char(start, n).to_owned();
    let ghost before = r.deep_view();
    r.push(piece);
    assert(r.deep_view() =~= before + seq![s@.subrange(start as int, n as int)]);
    r
}


/// Whether two strings hold the same characters.
pub fn str_eq(a: &str, b: &str) -> (r: bool)
    ensures
        r == (a@ == b@),
{
    let n = a.unicode_len();
    let m = b.unicode_len();
    if n != m {
        return false;
    }
    let mut k: usize = 0;
    while k < n
        invariant
            n == a@.len(),
            m == b@.len(),
            n == m,
            k <= n,
            a@.take(k as int) == b@.take(k as int),
        decreases n - k,
    {
        if a.get_char(k) != b.get_char(k) {
            assert(a@[k as int] != b@[k as int]);
            return false;
        }
        assert(a@.take(k + 1) =~= a@.take(k as int).push(a@[k as int]));
        assert(b@.take(k + 1) =~= b@.take(k as int).push(b@[k as int]));
        k = k + 1;
    }
    assert(a@ =~= a@.take(n as int));
    assert(b@ =~= b@.take(n as int));
    true
}

/// `a`, a dot, then `b`: the name of `b` inside the object named `a`.
pub fn join_dot(a: &str, b: &str) -> (r: String)
    ensures
        r@ == a@ + seq!['.'] + b@,
{
    proof {
        reveal_strlit(".");
    }
    let r = String::from_str(a).concat(".").concat(b);
    r
}

/// Whether every character is alphanumeric, `_` or `.`: the characters an
/// object name may hold.
pub open spec fn name_chars_ok(s: Seq<char>) -> bool {
    forall|i: int| 0 <= i < s.len() ==> alphanumeric(#[trigger] s[i]) || s[i] == '_' || s[i] == '.'
}

/// Whether every piece is non-empty.
pub open spec fn all_nonempty(ps: Seq<Seq<char>>) -> bool {
    forall|i: int| 0 <= i < ps.len() ==> (#[trigger] ps[i]).len() > 0
}

/// The rule both command parsers apply to an object name: only allowed
/// characters, and no empty piece between dots.
pub open spec fn valid_object_name(s: Seq<char>) -> bool {
    name_chars_ok(s) && all_nonempty(split_on(s, '.'))
}

/// Checks that every character of `s` is alphanumeric, `_` or `.`.
pub fn check_name_chars(s: &str) -> (r: bool)
    ensures
        r == name_chars_ok(s@),
{
    let n = s.unicode_len();
    let mut k: usize = 0;
    while k < n
        invariant
            n == s@.len(),
            k <= n,
            forall|i: int| 0 <= i < k ==> alphanumeric(#[trigger] s@[i]) || s@[i] == '_' || s@[i]
                == '.',
        decreases n - k,
    {
        let ch = s.get_char(k);
        if !(char_is_alphanumeric(ch) || ch == '_' || ch == '.') {
            return false;
        }
        k = k + 1;
    }
    true
}

/// Whether every string in `v` is non-empty.
pub fn all_pieces_nonempty(v: &Vec<String>) -> (r: bool)
    ensures
        r == all_nonempty(v.deep_view()),
{
    let mut k: usize = 0;
    while k < v.len()
        invariant
            k <= v.len(),
            forall|i: int| 0 <= i < k ==> (#[trigger] v.deep_view()[i]).len() > 0,
        decreases v.len() - k,
    {
        if v[k].as_str().unicode_len() == 0 {
            assert(v.deep_view()[k as int] == v@[k as int]@);
            return false;
        }
        assert(v.deep_view()[k as int] == v@[k as int]@);
        k = k + 1;
    }
    true
}

/// Index of the last `c` in `s`, or -1 when there is none.
pub open spec fn last_index(s: Seq<char>, c: char) -> int
    decreases s.len(),
{
    if s.len() == 0 {
        -1
    } else if s.last() == c {
        s.len() - 1
    } else {
        last_index(s.drop_last(), c)
    }
}

pub proof fn lemma_last_index(s: Seq<char>, c: char)
    ensures
        -1 <= last_index(s, c) < s.len(),
        last_index(s, c) >= 0 ==> s[last_index(s, c)] == c,
        forall|j: int| last_index(s, c) < j < s.len() ==> s[j] != c,
    decreases s.len(),
{
    if s.len() > 0 && s.last() != c {
        lemma_last_index(s.drop_last(), c);
        assert forall|j: int| last_index(s, c) < j < s.len() implies s[j] != c by {
            if j < s.len() - 1 {
                assert(s[j] == s.drop_last()[j]);
            }
        }
    }
}

/// What `str::rsplit_once` with a character gives: the text before and after
/// the last `c`, or nothing when `c` does not occur.
pub open spec fn rsplit_once_spec(s: Seq<char>, c: char) -> Option<(Seq<char>, Seq<char>)> {
    let i = last_index(s, c);
    if i < 0 {
        None
    } else {
        Some((s.take(i), s.skip(i + 1)))
    }
}

/// Splits `s` at its last `c`.
pub fn rsplit_once(s: &str, c: char) -> (r: Option<(String, String)>)
    ensures
        match r {
            Some((a, b)) => rsplit_once_spec(s@, c) == Some((a@, b@)),
            None => rsplit_once_spec(s@, c) is None,
        },
{
    let n = s.unicode_len();
    let mut k: usize = n;
    proof {
        lemma_last_index(s@, c);
    }
    while k > 0
        invariant
            n == s@.len(),
            k <= n,
            forall|j: int| k <= j < n ==> s@[j] != c,
        decreases k,
    {
        if s.get_char(k - 1) == c {
            let i = k - 1;
            proof {
                lemma_last_index(s@, c);
                let li = last_index(s@, c);
                assert(li == i) by {
                    if li > i {
                        assert(s@[li] == c);
                    }
                    if li < i {
                        assert(s@[i as int] == c);
                    }
                }
            }
            let a = s.substring_char(0, i).to_owned();
            let b = s.substring_char(i + 1, n).to_owned();
            assert(a@ =~= s@.take(i as int));
            assert(b@ =~= s@.skip(i + 1));
            return Some((a, b));
        }
        k = k - 1;
    }
    proof {
        let li = last_index(s@, c);
        if li >= 0 {
            assert(s@[li] == c);
        }
    }
    None
}

/// Index of the first whitespace character of `s`, or `s.len()`.
pub open spec fn first_space(s: Seq<char>) -> int
    decreases s.len(),
{
    if s.len() == 0 {
        0
    } else if whitespace(s[0]) {
        0
    } else {
        1 + first_space(s.drop_first())
    }
}

pub proof fn lemma_first_space(s: Seq<char>)
    ensures
        0 <= first_space(s) <= s.len(),
        first_space(s) < s.len() ==> whitespace(s[first_space(s)]),
        forall|j: int| 0 <= j < first_space(s) ==> !whitespace(#[trigger] s[j]),
    decreases s.len(),
{
    if s.len() > 0 && !whitespace(s[0]) {
        lemma_first_space(s.drop_first());
        assert forall|j: int| 0 <= j < first_space(s) implies !whitespace(#[trigger] s[j]) by {
            if j > 0 {
                assert(s[j] == s.drop_first()[j - 1]);
            }
        }
    }
}

/// The whitespace-separated words of `s`, as `str::split_whitespace` yields them.
pub open spec fn words(s: Seq<char>) -> Seq<Seq<char>>
    decreases s.len(),
{
    if s.len() == 0 {
        seq![]
    } else {
        let i = first_space(s);
        proof {
            lemma_first_space(s);
        }
        let rest = if i < s.len() {
            words(s.skip(i + 1))
        } else {
            seq![]
        };
        if i == 0 {
            rest
        } else {
            seq![s.take(i)] + rest
        }
    }
}

proof fn lemma_words_step(s: Seq<char>, start: int, k: int)
    requires
        0 <= start <= k <= s.len(),
        forall|j: int| start <= j < k ==> !whitespace(#[trigger] s[j]),
        k < s.len() ==> whitespace(s[k]),
    ensures
        k == s.len() && k > start ==> words(s.skip(start)) == seq![s.subrange(start, k)],
        k == s.len() && k == start ==> words(s.skip(start)) == Seq::<Seq<char>>::empty(),
        k < s.len() && k > start ==> words(s.skip(start)) == seq![s.subrange(start, k)] + words(
            s.skip(k + 1),
        ),
        k < s.len() && k == start ==> words(s.skip(start)) == words(s.skip(k + 1)),
{
    let t = s.skip(start);
    lemma_first_space(t);
    let i = first_space(t);
    if i < k - start {
        assert(t[i] == s[start + i]);
    }
    if k < s.len() {
        assert(t[k - start] == s[k]);
        assert(i == k - start);
        assert(t.take(i) =~= s.subrange(start, k));
        assert(t.skip(i + 1) =~= s.skip(k + 1));
    } else {
        assert(i == t.len());
        assert(t =~= s.subrange(start, k));
        assert(t.take(i) =~= t);
        if k > start {
            assert(words(t) =~= seq![t.take(i)] + Seq::<Seq<char>>::empty());
        }
    }
}

/// Splits `s` into its whitespace-separated words.
pub fn split_words(s: &str) -> (r: Vec<String>)
    ensures
        r.deep_view() == words(s@),
{
    let n = s.unicode_len();
    let mut r: Vec<String> = Vec::new();
    let mut start: usize = 0;
    let mut k: usize = 0;
    assert(s@.skip(0) =~= s@);
    assert(r.deep_view() + words(s@) =~= words(s@));
    while k < n
        invariant
            n == s@.len(),
            start <= k <= n,
            forall|j: int| start <= j < k ==> !whitespace(#[trigger] s@[j]),
            r.deep_view() + words(s@.skip(start as int)) == words(s@),
        decreases n - k,
    {
        let ch = s.get_char(k);
        if char_is_whitespace(ch) {
            proof {
                lemma_words_step(s@, start as int, k as int);
            }
            if k > start {
                let piece = s.substring_char(start, k).to_owned();
                let ghost before = r.deep_view();
                r.push(piece);
                assert(r.deep_view() =~= before.push(s@.subrange(start as int, k as int)));
                assert(r.deep_view() + words(s@.skip(k + 1)) =~= before + (seq![
                    s@.subrange(start as int, k as int),
                ] + words(s@.skip(k + 1))));
            }
            start = k + 1;
        }
        k = k + 1;
    }
    proof {
        lemma_words_step(s@, start as int, k as int);
    }
    if n > start {
        let piece = s.substring_char(start, n).to_owned();
        let ghost before = r.deep_view();
        r.push(piece);
        assert(r.deep_view() =~= before + seq![s@.subrange(start as int, n as int)]);
    } else {
        assert(r.deep_view() =~= r.deep_view() + Seq::<Seq<char>>::empty());
    }
    r
}

/// A line without the carriage return that ended it.
pub open spec fn strip_cr(t: Seq<char>) -> Seq<char> {
    if t.len() > 0 && t.last() == '\r' {
        t.drop_last()
    } else {
        t
    }
}

/// The lines of `s`, as `str::lines` yields them: split at `\n`, a `\r` before
/// the `\n` dropped, no line after a final `\n`, none at all for empty text.
pub open spec fn lines(s: Seq<char>) -> Seq<Seq<char>>
    decreases s.len(),
{
    if s.len() == 0 {
        seq![]
    } else {
        let i = first_index(s, '\n');
        proof {
            lemma_first_index(s, '\n');
        }
        if i >= s.len() {
            seq![s]
        } else {
            seq![strip_cr(s.take(i))] + lines(s.skip(i + 1))
        }
    }
}

proof fn lemma_lines_step(s: Seq<char>, start: int, k: int)
    requires
        0 <= start <= k <= s.len(),
        forall|j: int| start <= j < k ==> s[j] != '\n',
        k < s.len() ==> s[k] == '\n',
    ensures
        k == s.len() && k > start ==> lines(s.skip(start)) == seq![s.subrange(start, k)],
        k == s.len() && k == start ==> lines(s.skip(start)) == Seq::<Seq<char>>::empty(),
        k < s.len() ==> lines(s.skip(start)) == seq![strip_cr(s.subrange(start, k))] + lines(
            s.skip(k + 1),
        ),
{
    let t = s.skip(start);
    lemma_first_index(t, '\n');
    let i = first_index(t, '\n');
    if i < k - start {
        assert(t[i] == s[start + i]);
    }
    if k < s.len() {
        assert(t[k - start] == s[k]);
        assert(i == k - start);
        assert(t.take(i) =~= s.subrange(start, k));
        assert(t.skip(i + 1) =~= s.skip(k + 1));
    } else {
        assert(i == t.len());
        assert(t =~= s.subrange(start, k));
    }
}

/// Removes a final `\r` from `t`.
fn strip_cr_exec(t: &str) -> (r: String)
    ensures
        r@ == strip_cr(t@),
{
    let n = t.unicode_len();
    if n > 0 && t.get_char(n - 1) == '\r' {
        let r = t.substring_char(0, n - 1).to_owned();
        assert(r@ =~= t@.drop_last());
        r
    } else {
        t.to_owned()
    }
}

/// Splits `s` into lines.
pub fn split_lines(s: &str) -> (r: Vec<String>)
    ensures
        r.deep_view() == lines(s@),
{
    let n = s.unicode_len();
    let mut r: Vec<String> = Vec::new();
    let mut start: usize = 0;
    let mut k: usize = 0;
    assert(s@.skip(0) =~= s@);
    assert(r.deep_view() + lines(s@) =~= lines(s@));
    while k < n
        invariant
            n == s@.len(),
            start <= k <= n,
            forall|j: int| start <= j < k ==> s@[j] != '\n',
            r.deep_view() + lines(s@.skip(start as int)) == lines(s@),
        decreases n - k,
    {
        let ch = s.get_char(k);
        if ch == '\n' {
            proof {
                lemma_lines_step(s@, start as int, k as int);
            }
            let piece = strip_cr_exec(s.substring_char(start, k));
            let ghost before = r.deep_view();
            r.push(piece);
            assert(r.deep_view() =~= before.push(strip_cr(s@.subrange(start as int, k as int))));
            assert(r.deep_view() + lines(s@.skip(k + 1)) =~= before + (seq![
                strip_cr(s@.subrange(start as int, k as int)),
            ] + lines(s@.skip(k + 1))));
            start = k + 1;
        }
        k = k + 1;
    }
    proof {
        lemma_lines_step(s@, start as int, k as int);
    }
    if n > start {
        let piece = s.substring_char(start, n).to_owned();
        let ghost before = r.deep_view();
        r.push(piece);
        assert(r.deep_view() =~= before + seq![s@.subrange(start as int, n as int)]);
    } else {
        assert(r.deep_view() =~= r.deep_view() + Seq::<Seq<char>>::empty());
    }
    r
}

/// The token lists of a command text: its lines, each cut at `;`, each piece
/// split into words.
pub open spec fn command_tokens(s: Seq<char>) -> Seq<Seq<Seq<char>>> {
    lines(s).map_values(|l: Seq<char>| split_on(l, ';')).flatten().map_values(
        |p: Seq<char>| words(p),
    )
}


/// Splits a command text into token lists: lines, then `;`-separated pieces,
/// then words.
pub fn command_token_lists(s: &str) -> (r: Vec<Vec<String>>)
    ensures
        r.deep_view() == command_tokens(s@),
{
    let ls = split_lines(s);
    let ghost lsv = lines(s@).map_values(|l: Seq<char>| split_on(l, ';'));
    let mut pieces: Vec<String> = Vec::new();
    let mut i: usize = 0;
    assert(lsv.take(0) =~= Seq::<Seq<Seq<char>>>::empty());
    assert(pieces.deep_view() =~= lsv.take(0).flatten());
    while i < ls.len()
        invariant
            i <= ls.len(),
            ls.deep_view() == lines(s@),
            lsv == lines(s@).map_values(|l: Seq<char>| split_on(l, ';')),
            pieces.deep_view() == lsv.take(i as int).flatten(),
        decreases ls.len() - i,
    {
        let ps = split_char(ls[i].as_str(), ';');
        assert(ls.deep_view()[i as int] == ls@[i as int]@);
        let ghost before = pieces.deep_view();
        let mut j: usize = 0;
        while j < ps.len()
            invariant
                j <= ps.len(),
                pieces.deep_view() == before + ps.deep_view().take(j as int),
            decreases ps.len() - j,
        {
            let p = ps[j].clone();
            let ghost prev = pieces.deep_view();
            pieces.push(p);
            assert(pieces.deep_view() =~= prev.push(ps@[j as int]@));
            assert(ps.deep_view().take(j + 1) =~= ps.deep_view().take(j as int).push(ps@[j as int]@));
            assert(pieces.deep_view() =~= before + ps.deep_view().take(j + 1));
            j = j + 1;
        }
        assert(ps.deep_view().take(j as int) =~= ps.deep_view());
        proof {
            lsv.take(i as int).lemma_flatten_push(lsv[i as int]);
            assert(lsv.take(i + 1) =~= lsv.take(i as int).push(lsv[i as int]));
        }
        i = i + 1;
    }
    assert(lsv.take(i as int) =~= lsv);
    let mut r: Vec<Vec<String>> = Vec::new();
    let mut k: usize = 0;
    while k < pieces.len()
        invariant
            k <= pieces.len(),
            pieces.deep_view() == lsv.flatten(),
            r.deep_view() == pieces.deep_view().take(k as int).map_values(|p: Seq<char>| words(p)),
        decreases pieces.len() - k,
    {
        let w = split_words(pieces[k].as_str());
        assert(pieces.deep_view()[k as int] == pieces@[k as int]@);
        let ghost before = r.deep_view();
        r.push(w);
        assert(r.deep_view() =~= before.push(words(pieces.deep_view()[k as int])));
        assert(r.deep_view() =~= pieces.deep_view().take(k + 1).map_values(|p: Seq<char>| words(p)));
        k = k + 1;
    }
    assert(pieces.deep_view().take(k as int) =~= pieces.deep_view());
    r
}


/// A copy of a list of strings.
pub fn clone_strings(v: &Vec<String>) -> (r: Vec<String>)
    ensures
        r.deep_view() == v.deep_view(),
        r@.len() == v@.len(),
{
    let mut r: Vec<String> = Vec::new();
    let mut i: usize = 0;
    while i < v.len()
        invariant
            i <= v.len(),
            r.deep_view() == v.deep_view().take(i as int),
        decreases v.len() - i,
    {
        let s = v[i].clone();
        let ghost prev = r.deep_view();
        r.push(s);
        assert(r.deep_view() =~= prev.push(v@[i as int]@));
        assert(v.deep_view().take(i + 1) =~= v.deep_view().take(i as int).push(v@[i as int]@));
        i = i + 1;
    }
    assert(v.deep_view().take(i as int) =~= v.deep_view());
    r
}

/// The last dot-separated piece of a name.
pub open spec fn last_piece(s: Seq<char>) -> Seq<char> {
    split_on(s, '.').last()
}

/// A split on a dot always gives at least one piece.
pub proof fn lemma_split_nonempty(s: Seq<char>)
    ensures
        split_on(s, '.').len() >= 1,
    decreases s.len(),
{
    lemma_first_index(s, '.');
}

/// The last dot-separated piece of a name.
pub fn last_piece_exec(s: &str) -> (r: String)
    ensures
        r@ == last_piece(s@),
{
    let pieces = split_char(s, '.');
    proof {
        lemma_split_nonempty(s@);
    }
    let n = pieces.len();
    assert(pieces.deep_view()[n - 1] == pieces@[n - 1]@);
    pieces[n - 1].clone()
}

/// Three texts one after the other.
pub fn concat3(a: &str, b: &str, c: &str) -> (r: String)
    ensures
        r@ == a@ + b@ + c@,
{
    String::from_str(a).concat(b).concat(c)
}

/// Texts joined with one space between each two.
pub open spec fn join_space(s: Seq<Seq<char>>) -> Seq<char>
    decreases s.len(),
{
    if s.len() == 0 {
        Seq::empty()
    } else if s.len() == 1 {
        s[0]
    } else {
        join_space(s.drop_last()) + seq![' '] + s.last()
    }
}

/// The strings of `v` from position `from` on, joined with one space
/// between each two.
pub fn join_space_from(v: &Vec<String>, from: usize) -> (r: String)
    requires
        from <= v@.len(),
    ensures
        r@ == join_space(v.deep_view().skip(from as int)),
{
    let ghost all = v.deep_view().skip(from as int);
    proof {
        reveal_strlit(" ");
    }
    let mut r = String::new();
    let mut i: usize = from;
    assert(all.take(0) =~= Seq::<Seq<char>>::empty());
    while i < v.len()
        invariant
            from <= i <= v@.len(),
            all == v.deep_view().skip(from as int),
            r@ == join_space(all.take(i - from)),
        decreases v@.len() - i,
    {
        let ghost before = all.take(i - from);
        assert(all.take(i - from + 1) =~= before.push(v@[i as int]@));
        assert(all.take(i - from + 1).drop_last() =~= before);
        let ghost x = v@[i as int]@;
        if i > from {
            proof {
                reveal_strlit(" ");
            }
            r = r.concat(" ");
            r = r.concat(v[i].as_str());
            assert(join_space(before.push(x)) == join_space(before) + seq![' '] + x);
        } else {
            r = r.concat(v[i].as_str());
            assert(before.push(x) =~= seq![x]);
            assert(r@ =~= x);
            assert(join_space(seq![x]) == x);
        }
        assert(r@ == join_space(all.take(i - from + 1)));
        i = i + 1;
    }
    assert(all.take(i - from) =~= all);
    r
}

/// Whether every character is alphanumeric or `_`: the characters of a
/// command's name.
pub open spec fn command_name_ok(s: Seq<char>) -> bool {
    forall|i: int| 0 <= i < s.len() ==> alphanumeric(#[trigger] s[i]) || s[i] == '_'
}

/// Checks that every character of `s` is alphanumeric or `_`.
pub fn check_command_chars(s: &str) -> (r: bool)
    ensures
        r == command_name_ok(s@),
{
    let n = s.unicode_len();
    let mut k: usize = 0;
    while k < n
        invariant
            n == s@.len(),
            k <= n,
            forall|i: int| 0 <= i < k ==> alphanumeric(#[trigger] s@[i]) || s@[i] == '_',
        decreases n - k,
    {
        let ch = s.get_char(k);
        if !(char_is_alphanumeric(ch) || ch == '_') {
            return false;
        }
        k = k + 1;
    }
    true
}

/// Texts joined with a separator between each two.
pub open spec fn join_with(s: Seq<Seq<char>>, sep: Seq<char>) -> Seq<char>
    decreases s.len(),
{
    if s.len() == 0 {
        Seq::empty()
    } else if s.len() == 1 {
        s[0]
    } else {
        join_with(s.drop_last(), sep) + sep + s.last()
    }
}

/// The strings of `v` joined with `sep` between each two.
pub fn join_strings(v: &Vec<String>, sep: &str) -> (r: String)
    ensures
        r@ == join_with(v.deep_view(), sep@),
{
    let ghost all = v.deep_view();
    let mut r = String::new();
    let mut i: usize = 0;
    assert(all.take(0) =~= Seq::<Seq<char>>::empty());
    while i < v.len()
        invariant
            i <= v@.len(),
            all == v.deep_view(),
            r@ == join_with(all.take(i as int), sep@),
        decreases v@.len() - i,
    {
        let ghost before = all.take(i as int);
        let ghost x = v@[i as int]@;
        assert(all.take(i + 1) =~= before.push(x));
        assert(all.take(i + 1).drop_last() =~= before);
        if i > 0 {
            r = r.concat(sep);
            r = r.concat(v[i].as_str());
            assert(join_with(before.push(x), sep@) == join_with(before, sep@) + sep@ + x);
        } else {
            r = r.concat(v[i].as_str());
            assert(before.push(x) =~= seq![x]);
            assert(r@ =~= x);
            assert(join_with(seq![x], sep@) == x);
        }
        i = i + 1;
    }
    assert(all.take(i as int) =~= all);
    r
}

/// Calls `String::push`, which appends one character.
#[verifier::external_body]
pub fn push_char(s: &mut String, c: char)
    ensures
        final(s)@ == old(s)@.push(c),
{
    s.push(c)
}

/// Whether a name is among the names.
pub fn contains_name(v: &Vec<String>, x: &str) -> (r: bool)
    ensures
        r == v.deep_view().contains(x@),
{
    let mut i: usize = 0;
    while i < v.len()
        invariant
            i <= v@.len(),
            forall|j: int| 0 <= j < i ==> v.deep_view()[j] != x@,
        decreases v@.len() - i,
    {
        assert(v.deep_view()[i as int] == v@[i as int]@);
        if str_eq(v[i].as_str(), x) {
            return true;
        }
        i = i + 1;
    }
    proof {
        if v.deep_view().contains(x@) {
            let k = choose|k: int| 0 <= k < v.deep_view().len() && v.deep_view()[k] == x@;
            assert(v.deep_view()[k] != x@);
        }
    }
    false
}

} // verus!
