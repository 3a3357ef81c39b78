//! Character-level string utilities shared by the parsers: separator removal,
//! trimming, splitting, and joining, each verified against a spec function
//! over the string's view.

use vstd::prelude::*;

verus! {

/// The whitespace characters that trimming and tokenization recognize: the
/// Unicode `White_Space` class, the same set `char::is_whitespace` accepts.
pub open spec fn is_space(c: char) -> bool {
    c == ' ' || c == '\t' || c == '\n' || c == '\u{000B}' || c == '\u{000C}' || c == '\r'
        || c == '\u{0085}' || c == '\u{00A0}' || c == '\u{1680}' || c == '\u{2000}'
        || c == '\u{2001}' || c == '\u{2002}' || c == '\u{2003}' || c == '\u{2004}'
        || c == '\u{2005}' || c == '\u{2006}' || c == '\u{2007}' || c == '\u{2008}'
        || c == '\u{2009}' || c == '\u{200A}' || c == '\u{2028}' || c == '\u{2029}'
        || c == '\u{202F}' || c == '\u{205F}' || c == '\u{3000}'
}

fn is_space_char(c: char) -> (r: bool)
    ensures
        r == is_space(c),
{
    c == ' ' || c == '\t' || c == '\n' || c == '\u{000B}' || c == '\u{000C}' || c == '\r'
        || c == '\u{0085}' || c == '\u{00A0}' || c == '\u{1680}' || c == '\u{2000}'
        || c == '\u{2001}' || c == '\u{2002}' || c == '\u{2003}' || c == '\u{2004}'
        || c == '\u{2005}' || c == '\u{2006}' || c == '\u{2007}' || c == '\u{2008}'
        || c == '\u{2009}' || c == '\u{200A}' || c == '\u{2028}' || c == '\u{2029}'
        || c == '\u{202F}' || c == '\u{205F}' || c == '\u{3000}'
}

/// `s` with every occurrence of `c` removed, order of the rest kept.
pub open spec fn without_char(s: Seq<char>, c: char) -> Seq<char>
    decreases s.len(),
{
    if s.len() == 0 {
        Seq::empty()
    } else if s.last() == c {
        without_char(s.drop_last(), c)
    } else {
        without_char(s.drop_last(), c).push(s.last())
    }
}

/// No character removed by `without_char` survives in its result.
pub proof fn lemma_without_char_absent(s: Seq<char>, c: char)
    ensures
        forall|i: int| 0 <= i < without_char(s, c).len() ==> without_char(s, c)[i] != c,
    decreases s.len(),
{
    if s.len() > 0 {
        lemma_without_char_absent(s.drop_last(), c);
        let w = without_char(s.drop_last(), c);
        if s.last() == c {
            assert(without_char(s, c) == w);
        } else {
            assert(without_char(s, c) == w.push(s.last()));
            assert forall|i: int| 0 <= i < w.push(s.last()).len() implies w.push(s.last())[i]
                != c by {
                if i == w.len() {
                    assert(w.push(s.last())[i] == s.last());
                } else {
                    assert(w.push(s.last())[i] == w[i]);
                }
            }
        }
    }
}

/// A string that holds no occurrence of `c` is left unchanged by `without_char`.
pub proof fn lemma_without_char_noop(s: Seq<char>, c: char)
    requires
        forall|i: int| 0 <= i < s.len() ==> s[i] != c,
    ensures
        without_char(s, c) == s,
    decreases s.len(),
{
    if s.len() > 0 {
        assert(forall|i: int| 0 <= i < s.drop_last().len() ==> s.drop_last()[i] != c);
        lemma_without_char_noop(s.drop_last(), c);
        assert(without_char(s, c) =~= s);
    } else {
        assert(without_char(s, c) =~= s);
    }
}

/// Removing a character is idempotent: a second pass changes nothing.
pub proof fn lemma_without_char_idempotent(s: Seq<char>, c: char)
    ensures
        without_char(without_char(s, c), c) == without_char(s, c),
{
    lemma_without_char_absent(s, c);
    lemma_without_char_noop(without_char(s, c), c);
}

/// Relies on `String::push`: appends the given character to the end of the string.
#[verifier::external_body]
pub(crate) fn push_char(s: &mut String, c: char)
    ensures
        final(s)@ == old(s)@.push(c),
{
    s.push(c);
}

/// Returns `s` with every occurrence of `c` removed.
pub fn remove_all(s: &str, c: char) -> (r: String)
    ensures
        r@ == without_char(s@, c),
{
    let n = s.unicode_len();
    let mut r = String::new();
    let mut i: usize = 0;
    while i < n
        invariant
            i <= n,
            n == s@.len(),
            r@ == without_char(s@.take(i as int), c),
        decreases n - i,
    {
        let ch = s.get_char(i);
        proof {
            assert(s@.take(i + 1).drop_last() =~= s@.take(i as int));
            assert(s@.take(i + 1).last() == s@[i as int]);
        }
        if ch != c {
            push_char(&mut r, ch);
        }
        i += 1;
    }
    proof {
        assert(s@.take(n as int) =~= s@);
    }
    r
}

/// `s` without its leading whitespace.
pub open spec fn trim_front(s: Seq<char>) -> Seq<char>
    decreases s.len(),
{
    if s.len() > 0 && is_space(s[0]) {
        trim_front(s.skip(1))
    } else {
        s
    }
}

/// `s` without its trailing whitespace.
pub open spec fn trim_back(s: Seq<char>) -> Seq<char>
    decreases s.len(),
{
    if s.len() > 0 && is_space(s.last()) {
        trim_back(s.drop_last())
    } else {
        s
    }
}

/// `s` without surrounding whitespace.
pub open spec fn trimmed(s: Seq<char>) -> Seq<char> {
    trim_back(trim_front(s))
}

proof fn lemma_trim_front_skip(s: Seq<char>, a: int)
    requires
        0 <= a <= s.len(),
        forall|j: int| 0 <= j < a ==> is_space(s[j]),
        a == s.len() || !is_space(s[a]),
    ensures
        trim_front(s) == s.skip(a),
    decreases a,
{
    if a == 0 {
        assert(s.skip(0) =~= s);
    } else {
        assert(is_space(s[0]));
        let t = s.skip(1);
        assert forall|j: int| 0 <= j < a - 1 implies is_space(t[j]) by {
            assert(t[j] == s[j + 1]);
        }
        assert(a - 1 == t.len() || !is_space(t[a - 1]));
        lemma_trim_front_skip(t, a - 1);
        assert(t.skip(a - 1) =~= s.skip(a));
    }
}

proof fn lemma_trim_back_take(s: Seq<char>, b: int)
    requires
        0 <= b <= s.len(),
        forall|j: int| b <= j < s.len() ==> is_space(s[j]),
        b == 0 || !is_space(s[b - 1]),
    ensures
        trim_back(s) == s.take(b),
    decreases s.len(),
{
    if b == s.len() {
        if s.len() > 0 {
            assert(!is_space(s.last()));
        }
        assert(s.take(b) =~= s);
    } else {
        assert(is_space(s.last()));
        let t = s.drop_last();
        lemma_trim_back_take(t, b);
        assert(t.take(b) =~= s.take(b));
    }
}

/// Returns `s` with surrounding whitespace removed.
pub fn trim_str(s: &str) -> (r: String)
    ensures
        r@ == trimmed(s@),
{
    let n = s.unicode_len();
    let mut a: usize = 0;
    loop
        invariant
            a <= n,
            n == s@.len(),
            forall|j: int| 0 <= j < a ==> is_space(s@[j]),
        ensures
            a <= n,
            n == s@.len(),
            forall|j: int| 0 <= j < a ==> is_space(s@[j]),
            a == n || !is_space(s@[a as int]),
        decreases n - a,
    {
        if a >= n {
            break ;
        }
        if !is_space_char(s.get_char(a)) {
            break ;
        }
        a += 1;
    }
    let mut b: usize = n;
    loop
        invariant
            a <= b <= n,
            n == s@.len(),
            forall|j: int| b <= j < n ==> is_space(s@[j]),
        ensures
            a <= b <= n,
            forall|j: int| b <= j < n ==> is_space(s@[j]),
            b == a || !is_space(s@[b - 1]),
        decreases b,
    {
        if b <= a {
            break ;
        }
        if !is_space_char(s.get_char(b - 1)) {
            break ;
        }
        b -= 1;
    }
    let piece = s.substring_char(a, b);
    proof {
        lemma_trim_front_skip(s@, a as int);
        let f = s@.skip(a as int);
        assert forall|j: int| b - a <= j < f.len() implies is_space(f[j]) by {
            assert(f[j] == s@[j + a]);
        }
        if b - a > 0 {
            assert(f[b - a - 1] == s@[b - 1]);
        }
        lemma_trim_back_take(f, b - a);
        assert(f.take(b - a) =~= s@.subrange(a as int, b as int));
    }
    String::from_str(piece)
}

/// The pieces of `s` between occurrences of the separator `sep`, in order.
/// Every occurrence is a boundary, so the result always holds one piece more
/// than `s` holds separators; an empty `s` yields one empty piece.
pub open spec fn split_on(s: Seq<char>, sep: char) -> Seq<Seq<char>>
    decreases s.len(),
{
    if s.len() == 0 {
        seq![Seq::empty()]
    } else {
        let rest = split_on(s.drop_last(), sep);
        if s.last() == sep {
            rest.push(Seq::empty())
        } else {
            rest.update(rest.len() - 1, rest.last().push(s.last()))
        }
    }
}

/// Splitting yields at least one piece.
pub proof fn lemma_split_on_nonempty(s: Seq<char>, sep: char)
    ensures
        split_on(s, sep).len() >= 1,
    decreases s.len(),
{
    if s.len() > 0 {
        lemma_split_on_nonempty(s.drop_last(), sep);
    }
}

/// Returns the pieces of `s` between occurrences of `sep`, in order.
pub fn split_str(s: &str, sep: char) -> (r: Vec<String>)
    ensures
        r@.map_values(|p: String| p@) == split_on(s@, sep),
        r@.len() >= 1,
{
    let n = s.unicode_len();
    let mut out: Vec<String> = Vec::new();
    let mut cur = String::new();
    let mut i: usize = 0;
    while i < n
        invariant
            i <= n,
            n == s@.len(),
            out@.map_values(|p: String| p@).push(cur@) == split_on(s@.take(i as int), sep),
        decreases n - i,
    {
        let c = s.get_char(i);
        proof {
            assert(s@.take(i + 1).drop_last() =~= s@.take(i as int));
            assert(s@.take(i + 1).last() == s@[i as int]);
        }
        let ghost prev_out = out@.map_values(|p: String| p@);
        let ghost prev_cur = cur@;
        if c == sep {
            out.push(cur);
            cur = String::new();
            proof {
                assert(out@.map_values(|p: String| p@) =~= prev_out.push(prev_cur));
                assert(out@.map_values(|p: String| p@).push(cur@) =~= split_on(
                    s@.take(i + 1),
                    sep,
                ));
            }
        } else {
            push_char(&mut cur, c);
            proof {
                let r0 = prev_out.push(prev_cur);
                assert(r0.update(r0.len() - 1, r0.last().push(c)) =~= prev_out.push(
                    prev_cur.push(c),
                ));
                assert(out@.map_values(|p: String| p@).push(cur@) =~= split_on(
                    s@.take(i + 1),
                    sep,
                ));
            }
        }
        i += 1;
    }
    proof {
        assert(s@.take(n as int) =~= s@);
    }
    let ghost prev_out = out@.map_values(|p: String| p@);
    out.push(cur);
    proof {
        assert(out@.map_values(|p: String| p@) =~= prev_out.push(cur@));
    }
    out
}

/// The maximal runs of non-whitespace characters of `s`, in order.
pub open spec fn ws_tokens(s: Seq<char>) -> Seq<Seq<char>>
    decreases s.len(),
{
    if s.len() == 0 {
        Seq::empty()
    } else {
        let rest = ws_tokens(s.drop_last());
        let c = s.last();
        if is_space(c) {
            rest
        } else if s.len() >= 2 && !is_space(s[s.len() - 2]) {
            rest.update(rest.len() - 1, rest.last().push(c))
        } else {
            rest.push(seq![c])
        }
    }
}

/// Returns the whitespace-delimited tokens of `s`, in order.
pub fn ws_split(s: &str) -> (r: Vec<String>)
    ensures
        r@.map_values(|p: String| p@) == ws_tokens(s@),
{
    let n = s.unicode_len();
    let mut out: Vec<String> = Vec::new();
    let mut cur = String::new();
    let mut i: usize = 0;
    while i < n
        invariant
            i <= n,
            n == s@.len(),
            cur@.len() > 0 <==> (i > 0 && !is_space(s@[i - 1])),
            cur@.len() == 0 ==> out@.map_values(|p: String| p@) == ws_tokens(s@.take(i as int)),
            cur@.len() > 0 ==> out@.map_values(|p: String| p@).push(cur@) == ws_tokens(
                s@.take(i as int),
            ),
        decreases n - i,
    {
        let c = s.get_char(i);
        proof {
            assert(s@.take(i + 1).drop_last() =~= s@.take(i as int));
            assert(s@.take(i + 1).last() == s@[i as int]);
            if i > 0 {
                assert(s@.take(i + 1)[i - 1] == s@[i - 1]);
            }
        }
        let ghost prev_out = out@.map_values(|p: String| p@);
        let ghost prev_cur = cur@;
        if is_space_char(c) {
            if !cur.as_str().is_empty() {
                out.push(cur);
                cur = String::new();
                proof {
                    assert(out@.map_values(|p: String| p@) =~= prev_out.push(prev_cur));
                }
            }
        } else {
            push_char(&mut cur, c);
            proof {
                if i > 0 && !is_space(s@[i - 1]) {
                    let r0 = prev_out.push(prev_cur);
                    assert(r0.update(r0.len() - 1, r0.last().push(c)) =~= prev_out.push(
                        prev_cur.push(c),
                    ));
                } else {
                    assert(prev_cur =~= Seq::<char>::empty());
                    assert(prev_cur.push(c) =~= seq![c]);
                }
            }
        }
        i += 1;
    }
    proof {
        assert(s@.take(n as int) =~= s@);
    }
    if !cur.as_str().is_empty() {
        let ghost prev_out = out@.map_values(|p: String| p@);
        let ghost prev_cur = cur@;
        out.push(cur);
        proof {
            assert(out@.map_values(|p: String| p@) =~= prev_out.push(prev_cur));
        }
    }
    out
}

/// The pieces of `parts` joined with the separator `sep` between neighbours.
pub open spec fn join_with(parts: Seq<Seq<char>>, sep: Seq<char>) -> Seq<char>
    decreases parts.len(),
{
    if parts.len() == 0 {
        Seq::empty()
    } else if parts.len() == 1 {
        parts[0]
    } else {
        join_with(parts.drop_last(), sep) + sep + parts.last()
    }
}

/// Returns the elements of `parts` joined with `sep` between neighbours.
pub fn join_str(parts: &Vec<String>, sep: &str) -> (r: String)
    ensures
        r@ == join_with(parts@.map_values(|p: String| p@), sep@),
{
    let mut r = String::new();
    let mut i: usize = 0;
    while i < parts.len()
        invariant
            i <= parts@.len(),
            r@ == join_with(parts@.take(i as int).map_values(|p: String| p@), sep@),
        decreases parts@.len() - i,
    {
        proof {
            let mapped = parts@.map_values(|p: String| p@);
            assert(parts@.take(i + 1).map_values(|p: String| p@) =~= mapped.take(i + 1));
            assert(parts@.take(i as int).map_values(|p: String| p@) =~= mapped.take(i as int));
            assert(mapped.take(i + 1).drop_last() =~= mapped.take(i as int));
            assert(mapped.take(i + 1).last() == parts@[i as int]@);
        }
        if i > 0 {
            r.append(sep);
        } else {
            proof {
                assert(join_with(
                    parts@.take(0int).map_values(|p: String| p@),
                    sep@,
                ) =~= Seq::<char>::empty());
            }
        }
        r.append(parts[i].as_str());
        i += 1;
    }
    proof {
        assert(parts@.take(parts@.len() as int) =~= parts@);
    }
    r
}

} // verus!
