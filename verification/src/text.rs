//! Character-level text handling shared by every parser of tool output:
//! line splitting, whitespace trimming, word splitting, pattern search.

use vstd::prelude::*;

verus! {

/// Unicode `White_Space` property, the predicate behind `char::is_whitespace`.
pub open spec fn is_ws(c: char) -> bool {
    let u = c as u32;
    ||| 0x09 <= u <= 0x0D
    ||| u == 0x20
    ||| u == 0x85
    ||| u == 0xA0
    ||| u == 0x1680
    ||| 0x2000 <= u <= 0x200A
    ||| u == 0x2028
    ||| u == 0x2029
    ||| u == 0x202F
    ||| u == 0x205F
    ||| u == 0x3000
}

/// Whether `c` is whitespace in the sense of `char::is_whitespace`.
pub fn is_whitespace(c: char) -> (r: bool)
    ensures
        r == is_ws(c),
{
    let u = c as u32;
    (0x09 <= u && u <= 0x0D) || u == 0x20 || u == 0x85 || u == 0xA0 || u == 0x1680 || (0x2000
        <= u && u <= 0x200A) || u == 0x2028 || u == 0x2029 || u == 0x202F || u == 0x205F || u
        == 0x3000
}

/// `String::push`: the string grows by exactly the pushed character.
#[verifier::external_body]
fn push_char(s: &mut String, c: char)
    ensures
        final(s)@ == old(s)@.push(c),
{
    s.push(c);
}

/// The characters of `s`, in order.
pub fn chars_of(s: &str) -> (r: Vec<char>)
    ensures
        r@ == s@,
{
    let n = s.unicode_len();
    let mut r: Vec<char> = Vec::new();
    let mut i: usize = 0;
    while i < n
        invariant
            n == s@.len(),
            i <= n,
            r@ == s@.take(i as int),
        decreases n - i,
    {
        r.push(s.get_char(i));
        assert(r@ =~= s@.take(i + 1));
        i = i + 1;
    }
    assert(r@ =~= s@);
    r
}

/// The string made of the characters `cs[from..to]`.
pub fn string_of_range(cs: &Vec<char>, from: usize, to: usize) -> (r: String)
    requires
        from <= to <= cs@.len(),
    ensures
        r@ == cs@.subrange(from as int, to as int),
{
    let mut r = String::new();
    let mut i: usize = from;
    while i < to
        invariant
            from <= i <= to <= cs@.len(),
            r@ == cs@.subrange(from as int, i as int),
        decreases to - i,
    {
        push_char(&mut r, cs[i]);
        assert(r@ =~= cs@.subrange(from as int, i + 1));
        i = i + 1;
    }
    r
}

/// The string made of all the characters of `cs`.
pub fn string_of(cs: &Vec<char>) -> (r: String)
    ensures
        r@ == cs@,
{
    let r = string_of_range(cs, 0, cs.len());
    assert(cs@.subrange(0, cs@.len() as int) =~= cs@);
    r
}


/// `s` without its leading whitespace (`str::trim_start`).
pub open spec fn trim_start(s: Seq<char>) -> Seq<char>
    decreases s.len(),
{
    if s.len() > 0 && is_ws(s[0]) {
        trim_start(s.drop_first())
    } else {
        s
    }
}

/// `s` without its trailing whitespace (`str::trim_end`).
pub open spec fn trim_end(s: Seq<char>) -> Seq<char>
    decreases s.len(),
{
    if s.len() > 0 && is_ws(s.last()) {
        trim_end(s.drop_last())
    } else {
        s
    }
}

/// `s` without leading and trailing whitespace (`str::trim`).
pub open spec fn trim(s: Seq<char>) -> Seq<char> {
    trim_end(trim_start(s))
}

/// Stripping leading whitespace keeps a suffix of the input.
pub proof fn lemma_trim_start_suffix(s: Seq<char>)
    ensures
        trim_start(s).len() <= s.len(),
        trim_start(s) == s.skip(s.len() - trim_start(s).len()),
        trim_start(s).len() > 0 ==> !is_ws(trim_start(s)[0]),
    decreases s.len(),
{
    if s.len() > 0 && is_ws(s[0]) {
        lemma_trim_start_suffix(s.drop_first());
        assert(s.drop_first().skip(s.drop_first().len() - trim_start(s).len()) =~= s.skip(
            s.len() - trim_start(s).len(),
        ));
    } else {
        assert(s.skip(0) =~= s);
    }
}

/// Stripping trailing whitespace keeps a prefix of the input.
pub proof fn lemma_trim_end_prefix(s: Seq<char>)
    ensures
        trim_end(s).len() <= s.len(),
        trim_end(s) == s.take(trim_end(s).len() as int),
        trim_end(s).len() > 0 ==> !is_ws(trim_end(s).last()),
    decreases s.len(),
{
    if s.len() > 0 && is_ws(s.last()) {
        lemma_trim_end_prefix(s.drop_last());
        assert(s.drop_last().take(trim_end(s).len() as int) =~= s.take(
            trim_end(s).len() as int,
        ));
    } else {
        assert(s.take(s.len() as int) =~= s);
    }
}

/// A trimmed sequence has no whitespace at either end, and trimming it again
/// changes nothing.
pub proof fn lemma_trim_idempotent(s: Seq<char>)
    ensures
        trim(trim(s)) == trim(s),
        trim(s).len() > 0 ==> !is_ws(trim(s)[0]) && !is_ws(trim(s).last()),
{
    let t = trim_start(s);
    lemma_trim_start_suffix(s);
    lemma_trim_end_prefix(t);
    let u = trim_end(t);
    if u.len() > 0 {
        assert(u[0] == t[0]);
    }
    assert(trim_start(u) == u);
    assert(trim_end(u) == u);
}

/// Index of the first `'\n'` in `s`, or `s.len()` when there is none.
pub open spec fn line_end(s: Seq<char>) -> nat
    decreases s.len(),
{
    if s.len() == 0 {
        0
    } else if s[0] == '\n' {
        0
    } else {
        1 + line_end(s.drop_first())
    }
}

/// A line without its final `'\r'`, if it has one.
pub open spec fn strip_cr(l: Seq<char>) -> Seq<char> {
    if l.len() > 0 && l.last() == '\r' {
        l.drop_last()
    } else {
        l
    }
}

pub proof fn lemma_line_end_bound(s: Seq<char>)
    ensures
        line_end(s) <= s.len(),
        line_end(s) < s.len() ==> s[line_end(s) as int] == '\n',
        forall|i: int| 0 <= i < line_end(s) ==> s[i] != '\n',
    decreases s.len(),
{
    if s.len() > 0 && s[0] != '\n' {
        lemma_line_end_bound(s.drop_first());
        assert forall|i: int| 0 <= i < line_end(s) implies s[i] != '\n' by {
            if i > 0 {
                assert(s[i] == s.drop_first()[i - 1]);
            }
        }
    }
}

/// The lines of `s` as `str::lines` yields them: split at `'\n'`, a `'\r'`
/// just before the `'\n'` dropped, and no empty line after a final `'\n'`.
pub open spec fn lines(s: Seq<char>) -> Seq<Seq<char>>
    decreases s.len(),
{
    if s.len() == 0 {
        seq![]
    } else {
        let e = line_end(s);
        if e >= s.len() {
            seq![s]
        } else {
            proof {
                lemma_line_end_bound(s);
            }
            seq![strip_cr(s.take(e as int))] + lines(s.skip(e + 1 as int))
        }
    }
}

pub proof fn lemma_line_end_prefix(p: Seq<char>, r: Seq<char>)
    requires
        !p.contains('\n'),
    ensures
        line_end(p + r) == p.len() + line_end(r),
    decreases p.len(),
{
    if p.len() > 0 {
        assert(p[0] != '\n');
        assert((p + r)[0] == p[0]);
        assert((p + r).drop_first() =~= p.drop_first() + r);
        assert(!p.drop_first().contains('\n')) by {
            if p.drop_first().contains('\n') {
                let i = choose|i: int| 0 <= i < p.drop_first().len() && p.drop_first()[i] == '\n';
                assert(p[i + 1] == '\n');
            }
        }
        lemma_line_end_prefix(p.drop_first(), r);
    } else {
        assert(p + r =~= r);
    }
}

/// Splitting before a `'\n'`: the part before it is the first line.
pub proof fn lemma_lines_newline(p: Seq<char>, r: Seq<char>)
    requires
        !p.contains('\n'),
    ensures
        lines(p + seq!['\n'] + r) == seq![strip_cr(p)] + lines(r),
{
    let s = p + seq!['\n'] + r;
    assert(s =~= p + (seq!['\n'] + r));
    lemma_line_end_prefix(p, seq!['\n'] + r);
    assert((seq!['\n'] + r)[0] == '\n');
    assert(line_end(seq!['\n'] + r) == 0);
    assert(line_end(s) == p.len());
    assert(s.take(p.len() as int) =~= p);
    assert(s.skip(p.len() + 1 as int) =~= r);
}

/// Text without a `'\n'` is at most one line.
pub proof fn lemma_lines_last(p: Seq<char>)
    requires
        !p.contains('\n'),
    ensures
        lines(p) == (if p.len() == 0 {
            Seq::<Seq<char>>::empty()
        } else {
            seq![p]
        }),
{
    lemma_line_end_prefix(p, Seq::<char>::empty());
    assert(p + Seq::<char>::empty() =~= p);
}


/// Bounds `(from, to)` such that `cs[from..to]` is `cs` trimmed.
pub fn trim_bounds(cs: &Vec<char>) -> (r: (usize, usize))
    ensures
        r.0 <= r.1 <= cs@.len(),
        cs@.subrange(r.0 as int, r.1 as int) == trim(cs@),
{
    let n = cs.len();
    let mut i: usize = 0;
    assert(cs@.skip(0) =~= cs@);
    while i < n && is_whitespace(cs[i])
        invariant
            i <= n == cs@.len(),
            trim_start(cs@) == trim_start(cs@.skip(i as int)),
        decreases n - i,
    {
        assert(cs@.skip(i as int).drop_first() =~= cs@.skip(i + 1));
        i = i + 1;
    }
    let ghost t = cs@.skip(i as int);
    assert(trim_start(t) == t);
    let mut j: usize = n;
    while j > i && is_whitespace(cs[j - 1])
        invariant
            i <= j <= n == cs@.len(),
            t == cs@.skip(i as int),
            trim_end(t) == trim_end(cs@.subrange(i as int, j as int)),
        decreases j,
    {
        assert(cs@.subrange(i as int, j as int).drop_last() =~= cs@.subrange(
            i as int,
            j - 1,
        ));
        j = j - 1;
    }
    assert(cs@.subrange(i as int, n as int) =~= t);
    (i, j)
}

/// `str::trim`.
pub fn trim_str(s: &str) -> (r: String)
    ensures
        r@ == trim(s@),
{
    let cs = chars_of(s);
    let (a, b) = trim_bounds(&cs);
    string_of_range(&cs, a, b)
}

/// `str::lines`.
pub fn split_lines(s: &str) -> (r: Vec<String>)
    ensures
        r.deep_view() == lines(s@),
{
    let cs = chars_of(s);
    let n = cs.len();
    let mut out: Vec<String> = Vec::new();
    let mut cur: Vec<char> = Vec::new();
    let mut i: usize = 0;
    assert(cur@ + s@.skip(0) =~= s@);
    assert(out.deep_view() + lines(s@) =~= lines(s@));
    while i < n
        invariant
            i <= n == cs@.len(),
            cs@ == s@,
            !cur@.contains('\n'),
            lines(s@) == out.deep_view() + lines(cur@ + s@.skip(i as int)),
        decreases n - i,
    {
        let c = cs[i];
        if c == '\n' {
            assert(cur@ + s@.skip(i as int) =~= cur@ + seq!['\n'] + s@.skip(i + 1));
            proof {
                lemma_lines_newline(cur@, s@.skip(i + 1));
            }
            let k = cur.len();
            let line = if k > 0 && cur[k - 1] == '\r' {
                string_of_range(&cur, 0, k - 1)
            } else {
                string_of(&cur)
            };
            assert(line@ == strip_cr(cur@));
            let ghost old_out = out.deep_view();
            out.push(line);
            assert(out.deep_view() =~= old_out.push(strip_cr(cur@)));
            cur = Vec::new();
            assert(cur@ + s@.skip(i + 1) =~= s@.skip(i + 1));
        } else {
            let ghost old_cur = cur@;
            cur.push(c);
            assert(old_cur + s@.skip(i as int) =~= cur@ + s@.skip(i + 1));
            assert(!cur@.contains('\n')) by {
                if cur@.contains('\n') {
                    let j = choose|j: int| 0 <= j < cur@.len() && cur@[j] == '\n';
                    if j < old_cur.len() {
                        assert(old_cur[j] == '\n');
                    }
                }
            }
        }
        i = i + 1;
    }
    assert(cur@ + s@.skip(n as int) =~= cur@);
    proof {
        lemma_lines_last(cur@);
    }
    if cur.len() > 0 {
        let ghost old_out = out.deep_view();
        out.push(string_of(&cur));
        assert(out.deep_view() =~= old_out.push(cur@));
    } else {
        assert(out.deep_view() + Seq::<Seq<char>>::empty() =~= out.deep_view());
    }
    out
}


/// Index of the first whitespace character of `s`, or `s.len()`.
pub open spec fn word_end(s: Seq<char>) -> nat
    decreases s.len(),
{
    if s.len() == 0 || is_ws(s[0]) {
        0
    } else {
        1 + word_end(s.drop_first())
    }
}

pub proof fn lemma_word_end_bound(s: Seq<char>)
    ensures
        word_end(s) <= s.len(),
        s.len() > 0 && !is_ws(s[0]) ==> word_end(s) >= 1,
    decreases s.len(),
{
    if s.len() > 0 && !is_ws(s[0]) {
        lemma_word_end_bound(s.drop_first());
    }
}

/// The whitespace-separated words of `s` (`str::split_whitespace`): maximal
/// runs of non-whitespace characters, in order.
pub open spec fn words(s: Seq<char>) -> Seq<Seq<char>>
    decreases s.len(),
{
    let t = trim_start(s);
    if t.len() == 0 {
        seq![]
    } else {
        proof {
            lemma_trim_start_suffix(s);
            lemma_word_end_bound(t);
        }
        let e = word_end(t) as int;
        seq![t.take(e)] + words(t.skip(e))
    }
}

/// No character of `w` is whitespace.
pub open spec fn no_ws(w: Seq<char>) -> bool {
    forall|i: int| 0 <= i < w.len() ==> !is_ws(#[trigger] w[i])
}

pub proof fn lemma_word_end_prefix(p: Seq<char>, r: Seq<char>)
    requires
        no_ws(p),
    ensures
        word_end(p + r) == p.len() + word_end(r),
    decreases p.len(),
{
    if p.len() > 0 {
        assert((p + r)[0] == p[0]);
        assert((p + r).drop_first() =~= p.drop_first() + r);
        assert(no_ws(p.drop_first())) by {
            assert forall|i: int| 0 <= i < p.drop_first().len() implies !is_ws(
                #[trigger] p.drop_first()[i],
            ) by {
                assert(p.drop_first()[i] == p[i + 1]);
            }
        }
        lemma_word_end_prefix(p.drop_first(), r);
    } else {
        assert(p + r =~= r);
    }
}

/// A leading whitespace character does not change the words.
pub proof fn lemma_words_skip_ws(c: char, r: Seq<char>)
    requires
        is_ws(c),
    ensures
        words(seq![c] + r) == words(r),
{
    assert((seq![c] + r).drop_first() =~= r);
    assert(trim_start(seq![c] + r) == trim_start(r));
}

/// A run of non-whitespace followed by whitespace is the first word.
pub proof fn lemma_words_word(p: Seq<char>, c: char, r: Seq<char>)
    requires
        p.len() > 0,
        no_ws(p),
        is_ws(c),
    ensures
        words(p + seq![c] + r) == seq![p] + words(r),
{
    let s = p + seq![c] + r;
    assert(s[0] == p[0]);
    assert(trim_start(s) == s);
    assert(s =~= p + (seq![c] + r));
    lemma_word_end_prefix(p, seq![c] + r);
    assert((seq![c] + r)[0] == c);
    assert(word_end(seq![c] + r) == 0);
    assert(s.take(p.len() as int) =~= p);
    assert(s.skip(p.len() as int) =~= seq![c] + r);
    lemma_words_skip_ws(c, r);
}

/// A run of non-whitespace alone is at most one word.
pub proof fn lemma_words_last(p: Seq<char>)
    requires
        no_ws(p),
    ensures
        words(p) == (if p.len() == 0 {
            Seq::<Seq<char>>::empty()
        } else {
            seq![p]
        }),
{
    if p.len() > 0 {
        assert(trim_start(p) == p);
        lemma_word_end_prefix(p, Seq::<char>::empty());
        assert(p + Seq::<char>::empty() =~= p);
        assert(p.take(p.len() as int) =~= p);
        assert(p.skip(p.len() as int) =~= Seq::<char>::empty());
        assert(word_end(p) == p.len());
        assert(words(Seq::<char>::empty()) =~= Seq::<Seq<char>>::empty());
    } else {
        assert(words(p) =~= Seq::<Seq<char>>::empty());
    }
}

/// `str::split_whitespace`.
pub fn split_words(s: &str) -> (r: Vec<String>)
    ensures
        r.deep_view() == words(s@),
{
    let cs = chars_of(s);
    let n = cs.len();
    let mut out: Vec<String> = Vec::new();
    let mut cur: Vec<char> = Vec::new();
    let mut i: usize = 0;
    assert(cur@ + s@.skip(0) =~= s@);
    assert(out.deep_view() + words(s@) =~= words(s@));
    while i < n
        invariant
            i <= n == cs@.len(),
            cs@ == s@,
            no_ws(cur@),
            words(s@) == out.deep_view() + words(cur@ + s@.skip(i as int)),
        decreases n - i,
    {
        let c = cs[i];
        if is_whitespace(c) {
            assert(cur@ + s@.skip(i as int) =~= cur@ + seq![c] + s@.skip(i + 1));
            if cur.len() > 0 {
                proof {
                    lemma_words_word(cur@, c, s@.skip(i + 1));
                }
                let ghost old_out = out.deep_view();
                out.push(string_of(&cur));
                assert(out.deep_view() =~= old_out.push(cur@));
                cur = Vec::new();
            } else {
                assert(cur@ + seq![c] + s@.skip(i + 1) =~= seq![c] + s@.skip(i + 1));
                proof {
                    lemma_words_skip_ws(c, s@.skip(i + 1));
                }
            }
            assert(cur@ + s@.skip(i + 1) =~= s@.skip(i + 1));
        } else {
            let ghost old_cur = cur@;
            cur.push(c);
            assert(old_cur + s@.skip(i as int) =~= cur@ + s@.skip(i + 1));
            assert(no_ws(cur@)) by {
                assert forall|j: int| 0 <= j < cur@.len() implies !is_ws(#[trigger] cur@[j]) by {
                    if j < old_cur.len() {
                        assert(cur@[j] == old_cur[j]);
                    }
                }
            }
        }
        i = i + 1;
    }
    assert(cur@ + s@.skip(n as int) =~= cur@);
    proof {
        lemma_words_last(cur@);
    }
    if cur.len() > 0 {
        let ghost old_out = out.deep_view();
        out.push(string_of(&cur));
        assert(out.deep_view() =~= old_out.push(cur@));
    } else {
        assert(out.deep_view() + Seq::<Seq<char>>::empty() =~= out.deep_view());
    }
    out
}


/// `p` occurs in `s` starting at index `i`.
pub open spec fn occurs_at(s: Seq<char>, p: Seq<char>, i: int) -> bool {
    0 <= i && i + p.len() <= s.len() && s.subrange(i, i + p.len()) == p
}

/// `p` occurs somewhere in `s` (`str::contains` with a string pattern).
pub open spec fn contains_seq(s: Seq<char>, p: Seq<char>) -> bool {
    exists|i: int| occurs_at(s, p, i)
}

/// The first index at or after `from` where `p` occurs in `s`.
pub open spec fn find_from(s: Seq<char>, p: Seq<char>, from: int) -> Option<int>
    decreases s.len() + 1 - from,
{
    if from < 0 || from + p.len() > s.len() {
        None
    } else if occurs_at(s, p, from) {
        Some(from)
    } else {
        find_from(s, p, from + 1)
    }
}

pub proof fn lemma_find_from(s: Seq<char>, p: Seq<char>, from: int)
    requires
        0 <= from,
    ensures
        find_from(s, p, from) matches Some(k) ==> from <= k && occurs_at(s, p, k) && forall|j: int|
            from <= j < k ==> !occurs_at(s, p, j),
        find_from(s, p, from) is None ==> forall|j: int| from <= j ==> !occurs_at(s, p, j),
    decreases s.len() + 1 - from,
{
    if from + p.len() > s.len() {
    } else if occurs_at(s, p, from) {
    } else {
        lemma_find_from(s, p, from + 1);
    }
}

/// `p` occurs in `cs` at index `i`.
pub fn matches_at(cs: &Vec<char>, p: &Vec<char>, i: usize) -> (r: bool)
    ensures
        r == occurs_at(cs@, p@, i as int),
{
    if i > cs.len() || p.len() > cs.len() - i {
        return false;
    }
    let n = cs.len();
    let mut k: usize = 0;
    while k < p.len()
        invariant
            n == cs@.len(),
            i + p@.len() <= cs@.len(),
            k <= p@.len(),
            forall|j: int| 0 <= j < k ==> cs@[i + j] == p@[j],
        decreases p@.len() - k,
    {
        assert(i + k < cs@.len());
        if cs[i + k] != p[k] {
            assert(cs@.subrange(i as int, i + p@.len())[k as int] != p@[k as int]);
            return false;
        }
        k = k + 1;
    }
    assert(cs@.subrange(i as int, i + p@.len()) =~= p@);
    true
}

/// The first occurrence of `p` in `cs` at or after `from`.
pub fn find_chars(cs: &Vec<char>, p: &Vec<char>, from: usize) -> (r: Option<usize>)
    ensures
        r matches Some(k) ==> find_from(cs@, p@, from as int) == Some(k as int),
        r is None ==> find_from(cs@, p@, from as int) is None,
{
    if p.len() == 0 {
        if from <= cs.len() {
            assert(cs@.subrange(from as int, from as int) =~= p@);
            return Some(from);
        }
        return None;
    }
    let mut i: usize = from;
    while i < cs.len() && p.len() <= cs.len() - i
        invariant
            from <= i,
            p@.len() > 0,
            find_from(cs@, p@, from as int) == find_from(cs@, p@, i as int),
        decreases cs@.len() - i,
    {
        if matches_at(cs, p, i) {
            return Some(i);
        }
        i = i + 1;
    }
    None
}

/// `str::contains` with a string pattern.
pub fn contains_str(s: &str, p: &str) -> (r: bool)
    ensures
        r == contains_seq(s@, p@),
{
    let cs = chars_of(s);
    let ps = chars_of(p);
    let r = find_chars(&cs, &ps, 0);
    proof {
        lemma_find_from(s@, p@, 0);
    }
    r.is_some()
}

/// `p` is a prefix of `s` (`str::starts_with` with a string pattern).
pub fn starts_with_str(s: &str, p: &str) -> (r: bool)
    ensures
        r == p@.is_prefix_of(s@),
{
    let cs = chars_of(s);
    let ps = chars_of(p);
    let r = matches_at(&cs, &ps, 0);
    assert(r == occurs_at(s@, p@, 0));
    assert(occurs_at(s@, p@, 0) ==> s@.subrange(0, p@.len() as int) == p@);
    assert(p@.is_prefix_of(s@) ==> s@.subrange(0, p@.len() as int) =~= p@);
    r
}

/// The two strings hold the same characters.
pub fn str_eq(a: &str, b: &str) -> (r: bool)
    ensures
        r == (a@ == b@),
{
    let x = chars_of(a);
    let y = chars_of(b);
    if x.len() != y.len() {
        return false;
    }
    let r = matches_at(&x, &y, 0);
    assert(x@.subrange(0, x@.len() as int) =~= x@);
    r
}

/// `s` with every occurrence of `p` removed, scanning left to right
/// (`str::replace(p, "")` for a non-empty `p`).
pub open spec fn remove_all(s: Seq<char>, p: Seq<char>) -> Seq<char>
    decreases s.len(),
{
    if s.len() == 0 {
        s
    } else if p.len() > 0 && p.is_prefix_of(s) {
        remove_all(s.skip(p.len() as int), p)
    } else {
        seq![s[0]] + remove_all(s.drop_first(), p)
    }
}

/// Removing the empty pattern changes nothing.
pub proof fn lemma_remove_empty(s: Seq<char>, p: Seq<char>)
    requires
        p.len() == 0,
    ensures
        remove_all(s, p) == s,
    decreases s.len(),
{
    if s.len() > 0 {
        lemma_remove_empty(s.drop_first(), p);
        assert(s =~= seq![s[0]] + s.drop_first());
    }
}

/// `str::replace(p, "")`; an empty `p` leaves `s` as it is.
pub fn remove_all_str(s: &str, p: &str) -> (r: String)
    ensures
        r@ == remove_all(s@, p@),
{
    let cs = chars_of(s);
    let ps = chars_of(p);
    if ps.len() == 0 {
        proof {
            lemma_remove_empty(s@, p@);
        }
        return string_of(&cs);
    }
    let n = cs.len();
    let mut out: Vec<char> = Vec::new();
    let mut i: usize = 0;
    assert(cs@.skip(0) =~= cs@);
    while i < n
        invariant
            i <= n == cs@.len(),
            cs@ == s@,
            ps@ == p@,
            p@.len() > 0,
            remove_all(s@, p@) == out@ + remove_all(s@.skip(i as int), p@),
        decreases n - i,
    {
        let ghost t = cs@.skip(i as int);
        if matches_at(&cs, &ps, i) {
            assert(p@.is_prefix_of(t)) by {
                assert(t.subrange(0, p@.len() as int) =~= cs@.subrange(i as int, i + p@.len()));
            }
            assert(t.skip(p@.len() as int) =~= cs@.skip(i + p@.len()));
            i = i + ps.len();
        } else {
            assert(!p@.is_prefix_of(t)) by {
                if p@.is_prefix_of(t) {
                    assert(t.subrange(0, p@.len() as int) =~= cs@.subrange(
                        i as int,
                        i + p@.len(),
                    ));
                }
            }
            let ghost old_out = out@;
            out.push(cs[i]);
            assert(t.drop_first() =~= cs@.skip(i + 1));
            assert(out@ + remove_all(cs@.skip(i + 1), p@) =~= old_out + (seq![t[0]]
                + remove_all(t.drop_first(), p@)));
            i = i + 1;
        }
    }
    assert(remove_all(s@.skip(n as int), p@) =~= Seq::<char>::empty());
    assert(out@ + Seq::<char>::empty() =~= out@);
    string_of(&out)
}


/// An ASCII decimal digit (`char::is_ascii_digit`).
pub open spec fn is_digit(c: char) -> bool {
    0x30 <= (c as u32) <= 0x39
}

/// The value of an ASCII decimal digit.
pub open spec fn digit_val(c: char) -> nat {
    ((c as u32) - 0x30) as nat
}

/// The ASCII decimal digit of value `d < 10`.
pub open spec fn digit_char(d: nat) -> char {
    ((d + 0x30) as u32) as char
}

/// Length of the run of ASCII digits that starts `s`.
pub open spec fn digit_run(s: Seq<char>) -> nat
    decreases s.len(),
{
    if s.len() > 0 && is_digit(s[0]) {
        1 + digit_run(s.drop_first())
    } else {
        0
    }
}

/// The number written by the decimal digits `d`.
pub open spec fn decimal_value(d: Seq<char>) -> nat
    decreases d.len(),
{
    if d.len() == 0 {
        0
    } else {
        decimal_value(d.drop_last()) * 10 + digit_val(d.last())
    }
}

/// What `str::parse::<u64>` gives for the run of digits that starts `s`
/// (`take_while(is_ascii_digit)` then `parse`): the number, or `None` when
/// the run is empty or the number does not fit in a `u64`.
pub open spec fn leading_number(s: Seq<char>) -> Option<nat> {
    let d = s.take(digit_run(s) as int);
    if d.len() > 0 && decimal_value(d) <= u64::MAX {
        Some(decimal_value(d))
    } else {
        None
    }
}

/// The decimal representation of `n`, without leading zeros.
pub open spec fn decimal(n: nat) -> Seq<char>
    decreases n,
{
    if n < 10 {
        seq![digit_char(n)]
    } else {
        decimal(n / 10).push(digit_char(n % 10))
    }
}

pub proof fn lemma_digit_run(s: Seq<char>)
    ensures
        digit_run(s) <= s.len(),
        forall|i: int| 0 <= i < digit_run(s) ==> is_digit(#[trigger] s[i]),
        digit_run(s) < s.len() ==> !is_digit(s[digit_run(s) as int]),
    decreases s.len(),
{
    if s.len() > 0 && is_digit(s[0]) {
        lemma_digit_run(s.drop_first());
        assert forall|i: int| 0 <= i < digit_run(s) implies is_digit(#[trigger] s[i]) by {
            if i > 0 {
                assert(s[i] == s.drop_first()[i - 1]);
            }
        }
    }
}

/// The digit character of a value below ten.
fn digit_to_char(d: u64) -> (c: char)
    requires
        d < 10,
    ensures
        c == digit_char(d as nat),
{
    match d {
        0 => '0',
        1 => '1',
        2 => '2',
        3 => '3',
        4 => '4',
        5 => '5',
        6 => '6',
        7 => '7',
        8 => '8',
        _ => '9',
    }
}

/// `n.to_string()` for an unsigned integer.
pub fn to_decimal(n: u64) -> (r: String)
    ensures
        r@ == decimal(n as nat),
    decreases n,
{
    if n < 10 {
        let mut r = String::new();
        push_char(&mut r, digit_to_char(n));
        r
    } else {
        let mut r = to_decimal(n / 10);
        push_char(&mut r, digit_to_char(n % 10));
        r
    }
}

/// The number written by the run of digits that starts at `cs[from..]`,
/// as `str::parse::<u64>` reads it.
pub fn leading_u64(cs: &Vec<char>, from: usize) -> (r: Option<u64>)
    requires
        from <= cs@.len(),
    ensures
        r matches Some(v) ==> leading_number(cs@.skip(from as int)) == Some(v as nat),
        r is None ==> leading_number(cs@.skip(from as int)) is None,
{
    let ghost s = cs@.skip(from as int);
    proof {
        lemma_digit_run(s);
    }
    let ghost run = digit_run(s);
    let ghost d = s.take(run as int);
    let n = cs.len();
    let mut i: usize = from;
    let mut acc: u64 = 0;
    let mut overflow = false;
    while i < n && is_digit_char(cs[i])
        invariant
            n == cs@.len(),
            from <= i <= n,
            s == cs@.skip(from as int),
            i - from <= run,
            run == digit_run(s),
            run <= s.len(),
            d == s.take(run as int),
            forall|j: int| 0 <= j < run ==> is_digit(#[trigger] s[j]),
            run < s.len() ==> !is_digit(s[run as int]),
            !overflow ==> acc == decimal_value(d.take(i - from)),
            overflow ==> decimal_value(d.take(i - from)) > u64::MAX,
        decreases n - i,
    {
        let k: usize = i - from;
        assert(s.len() == n - from);
        assert(s[k as int] == cs@[i as int]);
        assert(k < run);
        assert(d.len() == run);
        assert(d.take(k + 1).drop_last() =~= d.take(k as int));
        assert(d[k as int] == s[k as int]);
        assert(d.take(k + 1).last() == cs@[i as int]);
        if !overflow {
            let dv = (cs[i] as u32 - 0x30) as u64;
            match acc.checked_mul(10) {
                Some(m) => match m.checked_add(dv) {
                    Some(v) => {
                        acc = v;
                    },
                    None => {
                        overflow = true;
                    },
                },
                None => {
                    overflow = true;
                },
            }
        }
        i = i + 1;
    }
    assert(s.len() == n - from);
    assert(i - from < run ==> s[i - from] == cs@[i as int]);
    assert(i - from == run);
    assert(d.take(run as int) =~= d);
    if i == from || overflow {
        None
    } else {
        Some(acc)
    }
}

/// Whether `c` is an ASCII decimal digit (`char::is_ascii_digit`).
pub fn is_digit_char(c: char) -> (r: bool)
    ensures
        r == is_digit(c),
{
    let u = c as u32;
    0x30 <= u && u <= 0x39
}


/// Index of the first `c` in `s`, or `s.len()`.
pub open spec fn char_end(s: Seq<char>, c: char) -> nat
    decreases s.len(),
{
    if s.len() == 0 || s[0] == c {
        0
    } else {
        1 + char_end(s.drop_first(), c)
    }
}

pub proof fn lemma_char_end(s: Seq<char>, c: char)
    ensures
        char_end(s, c) <= s.len(),
        char_end(s, c) < s.len() ==> s[char_end(s, c) as int] == c,
        forall|i: int| 0 <= i < char_end(s, c) ==> s[i] != c,
    decreases s.len(),
{
    if s.len() > 0 && s[0] != c {
        lemma_char_end(s.drop_first(), c);
        assert forall|i: int| 0 <= i < char_end(s, c) implies s[i] != c by {
            if i > 0 {
                assert(s[i] == s.drop_first()[i - 1]);
            }
        }
    }
}

/// The pieces of `s` between occurrences of `c`, empty pieces included
/// (`str::split` with a `char`): always at least one piece.
pub open spec fn split_on(s: Seq<char>, c: char) -> Seq<Seq<char>>
    decreases s.len(),
{
    let e = char_end(s, c);
    if e >= s.len() {
        seq![s]
    } else {
        proof {
            lemma_char_end(s, c);
        }
        seq![s.take(e as int)] + split_on(s.skip(e + 1 as int), c)
    }
}

pub proof fn lemma_char_end_prefix(p: Seq<char>, c: char, r: Seq<char>)
    requires
        !p.contains(c),
    ensures
        char_end(p + r, c) == p.len() + char_end(r, c),
    decreases p.len(),
{
    if p.len() > 0 {
        assert((p + r)[0] == p[0]);
        assert((p + r).drop_first() =~= p.drop_first() + r);
        assert(!p.drop_first().contains(c)) by {
            if p.drop_first().contains(c) {
                let i = choose|i: int| 0 <= i < p.drop_first().len() && p.drop_first()[i] == c;
                assert(p[i + 1] == c);
            }
        }
        lemma_char_end_prefix(p.drop_first(), c, r);
    } else {
        assert(p + r =~= r);
    }
}

/// `str::split` on a single character.
pub fn split_char(s: &str, c: char) -> (r: Vec<String>)
    ensures
        r.deep_view() == split_on(s@, c),
{
    let cs = chars_of(s);
    let n = cs.len();
    let mut out: Vec<String> = Vec::new();
    let mut cur: Vec<char> = Vec::new();
    let mut i: usize = 0;
    assert(cur@ + s@.skip(0) =~= s@);
    assert(out.deep_view() + split_on(s@, c) =~= split_on(s@, c));
    while i < n
        invariant
            i <= n == cs@.len(),
            cs@ == s@,
            !cur@.contains(c),
            split_on(s@, c) == out.deep_view() + split_on(cur@ + s@.skip(i as int), c),
        decreases n - i,
    {
        let x = cs[i];
        if x == c {
            let ghost t = cur@ + s@.skip(i as int);
            assert(t =~= cur@ + (seq![c] + s@.skip(i + 1)));
            proof {
                lemma_char_end_prefix(cur@, c, seq![c] + s@.skip(i + 1));
            }
            assert((seq![c] + s@.skip(i + 1))[0] == c);
            assert(char_end(seq![c] + s@.skip(i + 1), c) == 0);
            assert(t.take(cur@.len() as int) =~= cur@);
            assert(t.skip(cur@.len() + 1 as int) =~= s@.skip(i + 1));
            let ghost before = out.deep_view();
            out.push(string_of(&cur));
            assert(out.deep_view() =~= before.push(cur@));
            cur = Vec::new();
            assert(cur@ + s@.skip(i + 1) =~= s@.skip(i + 1));
        } else {
            let ghost old_cur = cur@;
            cur.push(x);
            assert(old_cur + s@.skip(i as int) =~= cur@ + s@.skip(i + 1));
            assert(!cur@.contains(c)) by {
                if cur@.contains(c) {
                    let j = choose|j: int| 0 <= j < cur@.len() && cur@[j] == c;
                    if j < old_cur.len() {
                        assert(old_cur[j] == c);
                    }
                }
            }
        }
        i = i + 1;
    }
    assert(cur@ + s@.skip(n as int) =~= cur@);
    proof {
        lemma_char_end_prefix(cur@, c, Seq::<char>::empty());
        assert(cur@ + Seq::<char>::empty() =~= cur@);
    }
    let ghost before = out.deep_view();
    out.push(string_of(&cur));
    assert(out.deep_view() =~= before.push(cur@));
    out
}

} // verus!
