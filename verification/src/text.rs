//! Character-level text operations: searching, replacing, splitting and
//! trimming, each specified over sequences of characters.

use vstd::prelude::*;
use vstd::utf8::encode_utf8;

verus! {

/// `String::push` appends one character to the end of the string.
pub assume_specification[ String::push ](s: &mut String, c: char)
    ensures
        final(s)@ == old(s)@.push(c),
;

/// Whether `c` is white space: one of the code points that carry the Unicode
/// `White_Space` property.
pub open spec fn is_space(c: char) -> bool {
    let u = c as u32;
    ||| 0x09 <= u <= 0x0d
    ||| u == 0x20
    ||| u == 0x85
    ||| u == 0xa0
    ||| u == 0x1680
    ||| 0x2000 <= u <= 0x200a
    ||| u == 0x2028
    ||| u == 0x2029
    ||| u == 0x202f
    ||| u == 0x205f
    ||| u == 0x3000
}

/// Whether `pat` stands in `s` at position `i`.
pub open spec fn occurs_at(s: Seq<char>, pat: Seq<char>, i: int) -> bool {
    &&& 0 <= i
    &&& i + pat.len() <= s.len()
    &&& s.subrange(i, i + pat.len()) == pat
}

/// Whether `pat` stands anywhere in `s`.
pub open spec fn contains(s: Seq<char>, pat: Seq<char>) -> bool {
    exists|i: int| occurs_at(s, pat, i)
}

/// Whether `i` is the leftmost position at which `pat` stands in `s`.
pub open spec fn is_first_match(s: Seq<char>, pat: Seq<char>, i: int) -> bool {
    &&& occurs_at(s, pat, i)
    &&& forall|j: int| 0 <= j < i ==> !occurs_at(s, pat, j)
}

/// The leftmost position at which `pat` stands in `s`, where it stands in
/// it at all.
pub open spec fn first_match(s: Seq<char>, pat: Seq<char>) -> int {
    choose|i: int| is_first_match(s, pat, i)
}

/// `s` with every occurrence of `pat` replaced by `val`. Occurrences are
/// found from left to right and do not overlap. An empty `pat` matches
/// before every character and at the end.
pub open spec fn replace_all(s: Seq<char>, pat: Seq<char>, val: Seq<char>) -> Seq<char>
    decreases s.len(),
{
    if pat.len() == 0 {
        if s.len() == 0 {
            val
        } else {
            val + seq![s[0]] + replace_all(s.skip(1), pat, val)
        }
    } else if s.len() == 0 {
        s
    } else if occurs_at(s, pat, 0) {
        val + replace_all(s.skip(pat.len() as int), pat, val)
    } else {
        seq![s[0]] + replace_all(s.skip(1), pat, val)
    }
}

/// The number of occurrences of `pat` that `replace_all` replaces in `s`.
pub open spec fn count_matches(s: Seq<char>, pat: Seq<char>) -> nat
    decreases s.len(),
{
    if pat.len() == 0 {
        s.len() + 1
    } else if s.len() == 0 {
        0
    } else if occurs_at(s, pat, 0) {
        1 + count_matches(s.skip(pat.len() as int), pat)
    } else {
        count_matches(s.skip(1), pat)
    }
}

/// The number of bytes that `s` takes in UTF-8.
pub open spec fn byte_len(s: Seq<char>) -> nat {
    encode_utf8(s).len()
}

/// The words of `s` that follow once `current` has been read as the start of
/// a word: white space ends a word, and empty words are dropped.
pub open spec fn words_after(s: Seq<char>, current: Seq<char>) -> Seq<Seq<char>>
    decreases s.len(),
{
    if s.len() == 0 {
        if current.len() > 0 {
            seq![current]
        } else {
            seq![]
        }
    } else if is_space(s[0]) {
        if current.len() > 0 {
            seq![current] + words_after(s.skip(1), seq![])
        } else {
            words_after(s.skip(1), seq![])
        }
    } else {
        words_after(s.skip(1), current.push(s[0]))
    }
}

/// The maximal runs of characters of `s` that hold no white space, in order.
pub open spec fn words(s: Seq<char>) -> Seq<Seq<char>> {
    words_after(s, seq![])
}

/// The pieces of `s` between occurrences of `sep`, once `current` has been
/// read as the start of a piece.
pub open spec fn pieces_after(s: Seq<char>, sep: char, current: Seq<char>) -> Seq<Seq<char>>
    decreases s.len(),
{
    if s.len() == 0 {
        seq![current]
    } else if s[0] == sep {
        seq![current] + pieces_after(s.skip(1), sep, seq![])
    } else {
        pieces_after(s.skip(1), sep, current.push(s[0]))
    }
}

/// The pieces of `s` between occurrences of `sep`; empty pieces are kept, so
/// there is one piece more than there are separators.
pub open spec fn pieces(s: Seq<char>, sep: char) -> Seq<Seq<char>> {
    pieces_after(s, sep, seq![])
}

/// `s` without one carriage return at its end.
pub open spec fn without_carriage_return(s: Seq<char>) -> Seq<char> {
    if s.len() > 0 && s.last() == '\r' {
        s.drop_last()
    } else {
        s
    }
}

/// The lines of `s`. A line ends with a line feed, or with a carriage return
/// and a line feed; neither belongs to the line. What follows the last line
/// feed is a line too, as it stands, unless it is empty.
pub open spec fn lines_of(s: Seq<char>) -> Seq<Seq<char>> {
    let parts = pieces(s, '\n');
    let ended = Seq::new(
        (parts.len() - 1) as nat,
        |i: int| without_carriage_return(parts[i]),
    );
    if parts.last().len() > 0 {
        ended.push(parts.last())
    } else {
        ended
    }
}

/// `s` without its leading white space.
pub open spec fn trim_start(s: Seq<char>) -> Seq<char>
    decreases s.len(),
{
    if s.len() > 0 && is_space(s[0]) {
        trim_start(s.skip(1))
    } else {
        s
    }
}

/// `s` without its trailing white space.
pub open spec fn trim_end(s: Seq<char>) -> Seq<char>
    decreases s.len(),
{
    if s.len() > 0 && is_space(s.last()) {
        trim_end(s.drop_last())
    } else {
        s
    }
}

/// `s` without leading and trailing white space.
pub open spec fn trim(s: Seq<char>) -> Seq<char> {
    trim_end(trim_start(s))
}

/// `parts` joined by single spaces.
pub open spec fn join_spaced(parts: Seq<Seq<char>>) -> Seq<char>
    decreases parts.len(),
{
    if parts.len() == 0 {
        seq![]
    } else if parts.len() == 1 {
        parts[0]
    } else {
        parts[0] + seq![' '] + join_spaced(parts.skip(1))
    }
}

/// There is one leftmost match at most.
pub proof fn lemma_first_match(s: Seq<char>, pat: Seq<char>, i: int)
    requires
        is_first_match(s, pat, i),
    ensures
        first_match(s, pat) == i,
{
    let j = first_match(s, pat);
    assert(is_first_match(s, pat, j));
    assert(!(j < i) && !(i < j));
}

/// Whether `c` is one of the characters of `s`.
pub open spec fn has_char(s: Seq<char>, c: char) -> bool {
    exists|i: int| 0 <= i < s.len() && s[i] == c
}

/// Whether `a` and `b` have no character in common.
pub open spec fn share_no_char(a: Seq<char>, b: Seq<char>) -> bool {
    forall|i: int, j: int| 0 <= i < a.len() && 0 <= j < b.len() ==> a[i] != b[j]
}

/// A text in which `pat` does not stand is replaced by itself.
pub proof fn lemma_replace_without_match(s: Seq<char>, pat: Seq<char>, val: Seq<char>)
    requires
        pat.len() > 0,
        !contains(s, pat),
    ensures
        replace_all(s, pat, val) == s,
    decreases s.len(),
{
    if s.len() > 0 {
        let rest = s.skip(1);
        assert forall|i: int| !occurs_at(rest, pat, i) by {
            if occurs_at(rest, pat, i) {
                assert(rest.subrange(i, i + pat.len()) =~= s.subrange(i + 1, i + 1 + pat.len()));
                assert(occurs_at(s, pat, i + 1));
            }
        }
        lemma_replace_without_match(rest, pat, val);
    }
}

/// As long as a replacement shows no character of `val`, it shows the text
/// itself: a first occurrence of `pat` would have put `val` there.
proof fn lemma_replaced_start(s: Seq<char>, pat: Seq<char>, val: Seq<char>, m: int)
    requires
        pat.len() > 0,
        val.len() > 0,
        0 <= m <= replace_all(s, pat, val).len(),
        forall|k: int| 0 <= k < m ==> !has_char(val, #[trigger] replace_all(s, pat, val)[k]),
    ensures
        m <= s.len(),
        s.take(m) == replace_all(s, pat, val).take(m),
    decreases s.len(),
{
    let out = replace_all(s, pat, val);
    if m == 0 || s.len() == 0 {
    } else if occurs_at(s, pat, 0) {
        assert(has_char(val, out[0]));
    } else {
        let rest = s.skip(1);
        let later = replace_all(rest, pat, val);
        assert forall|k: int| 0 <= k < m - 1 implies !has_char(val, #[trigger] later[k]) by {
            assert(later[k] == out[k + 1]);
        }
        lemma_replaced_start(rest, pat, val, m - 1);
        assert(out.take(m) =~= seq![s[0]] + later.take(m - 1));
    }
}

/// Every occurrence is replaced: where `val` is not empty and shares no
/// character with `pat`, `pat` stands nowhere in the replacement.
///
/// Without these two conditions `pat` can stand in the replacement although
/// every occurrence was replaced: `val` may bring it, and what stands around
/// an occurrence may close up to it where `val` is empty.
pub proof fn lemma_replace_leaves_no_match(s: Seq<char>, pat: Seq<char>, val: Seq<char>)
    requires
        pat.len() > 0,
        val.len() > 0,
        share_no_char(pat, val),
    ensures
        !contains(replace_all(s, pat, val), pat),
    decreases s.len(),
{
    let out = replace_all(s, pat, val);
    let p = pat.len() as int;
    assert forall|j: int| !occurs_at(out, pat, j) by {
        if occurs_at(out, pat, j) {
            assert forall|k: int| 0 <= k < p implies out[j + k] == pat[k] by {
                assert(out.subrange(j, j + p)[k] == out[j + k]);
            }
            if s.len() == 0 {
            } else if occurs_at(s, pat, 0) {
                let later = replace_all(s.skip(p), pat, val);
                lemma_replace_leaves_no_match(s.skip(p), pat, val);
                if j < val.len() {
                    assert(pat[0] == val[j]);
                } else {
                    assert(later.subrange(j - val.len(), j - val.len() + p) =~= out.subrange(
                        j,
                        j + p,
                    ));
                    assert(occurs_at(later, pat, j - val.len()));
                }
            } else {
                let rest = s.skip(1);
                let later = replace_all(rest, pat, val);
                lemma_replace_leaves_no_match(rest, pat, val);
                if j > 0 {
                    assert(later.subrange(j - 1, j - 1 + p) =~= out.subrange(j, j + p));
                    assert(occurs_at(later, pat, j - 1));
                } else {
                    assert forall|k: int| 0 <= k < p - 1 implies !has_char(
                        val,
                        #[trigger] later[k],
                    ) by {
                        assert(later[k] == pat[k + 1]);
                    }
                    lemma_replaced_start(rest, pat, val, p - 1);
                    assert forall|k: int| 0 <= k < p implies s[k] == pat[k] by {
                        if k > 0 {
                            assert(rest.take(p - 1)[k - 1] == later.take(p - 1)[k - 1]);
                        }
                    }
                    assert(s.subrange(0, p) =~= pat);
                }
            }
        }
    }
}

/// Whether `w` is a word: not empty, and without white space.
pub open spec fn is_word(w: Seq<char>) -> bool {
    w.len() > 0 && forall|k: int| 0 <= k < w.len() ==> !is_space(w[k])
}

/// What follows a word under way are words, where the word under way holds
/// no white space.
proof fn lemma_words_after(s: Seq<char>, current: Seq<char>)
    requires
        forall|k: int| 0 <= k < current.len() ==> !is_space(current[k]),
    ensures
        forall|i: int|
            0 <= i < words_after(s, current).len() ==> is_word(
                #[trigger] words_after(s, current)[i],
            ),
    decreases s.len(),
{
    let all = words_after(s, current);
    if s.len() == 0 {
    } else if is_space(s[0]) {
        let later = words_after(s.skip(1), seq![]);
        lemma_words_after(s.skip(1), seq![]);
        assert forall|i: int| 0 <= i < all.len() implies is_word(#[trigger] all[i]) by {
            if current.len() > 0 && i > 0 {
                assert(all[i] == later[i - 1]);
            }
        }
    } else {
        let grown = current.push(s[0]);
        lemma_words_after(s.skip(1), grown);
        assert(all == words_after(s.skip(1), grown));
    }
}

/// The words of a text are words: none is empty, none holds white space.
pub proof fn lemma_words(s: Seq<char>)
    ensures
        forall|i: int| 0 <= i < words(s).len() ==> is_word(#[trigger] words(s)[i]),
{
    lemma_words_after(s, seq![]);
}

/// Reading on through characters that are no white space only makes the
/// word under way longer.
proof fn lemma_words_after_run(run: Seq<char>, rest: Seq<char>, current: Seq<char>)
    requires
        forall|k: int| 0 <= k < run.len() ==> !is_space(run[k]),
    ensures
        words_after(run + rest, current) == words_after(rest, current + run),
    decreases run.len(),
{
    if run.len() == 0 {
        assert(run + rest =~= rest);
        assert(current + run =~= current);
    } else {
        let text = run + rest;
        assert(text[0] == run[0]);
        assert(text.skip(1) =~= run.skip(1) + rest);
        assert forall|k: int| 0 <= k < run.skip(1).len() implies !is_space(run.skip(1)[k]) by {
            assert(run.skip(1)[k] == run[k + 1]);
        }
        lemma_words_after_run(run.skip(1), rest, current.push(run[0]));
        assert(current.push(run[0]) + run.skip(1) =~= current + run);
    }
}

/// Words that are joined by single spaces are read back as they were.
pub proof fn lemma_words_of_joined(parts: Seq<Seq<char>>)
    requires
        forall|i: int| 0 <= i < parts.len() ==> is_word(#[trigger] parts[i]),
    ensures
        words(join_spaced(parts)) == parts,
    decreases parts.len(),
{
    let none = Seq::<char>::empty();
    if parts.len() == 0 {
        assert(words(join_spaced(parts)) =~= parts);
    } else {
        let first = parts[0];
        let rest = parts.skip(1);
        assert(is_word(first));
        assert(none + first =~= first);
        if parts.len() == 1 {
            lemma_words_after_run(first, none, none);
            assert(first + none =~= first);
            assert(words(join_spaced(parts)) =~= parts);
        } else {
            let tail = seq![' '] + join_spaced(rest);
            assert forall|i: int| 0 <= i < rest.len() implies is_word(#[trigger] rest[i]) by {
                assert(rest[i] == parts[i + 1]);
            }
            lemma_words_of_joined(rest);
            lemma_words_after_run(first, tail, none);
            assert(join_spaced(parts) =~= first + tail);
            assert(tail[0] == ' ');
            assert(tail.skip(1) =~= join_spaced(rest));
            assert(words_after(tail, first) == seq![first] + words(join_spaced(rest)));
            assert(seq![first] + rest =~= parts);
        }
    }
}

/// The UTF-8 length of a concatenation is the sum of the parts' lengths.
pub proof fn lemma_byte_len_concat(a: Seq<char>, b: Seq<char>)
    ensures
        byte_len(a + b) == byte_len(a) + byte_len(b),
    decreases a.len(),
{
    if a.len() == 0 {
        assert(a + b =~= b);
    } else {
        assert((a + b).drop_first() =~= a.drop_first() + b);
        lemma_byte_len_concat(a.drop_first(), b);
    }
}

/// A space takes one byte.
pub proof fn lemma_byte_len_space()
    ensures
        byte_len(seq![' ']) == 1,
{
    let s = seq![' '];
    assert(encode_utf8(s.drop_first()).len() == 0);
}

/// The length of a replacement, in bytes: each replaced occurrence of a
/// non-empty `pat` gives up the bytes of `pat` and takes those of `val`.
pub proof fn lemma_replaced_len(s: Seq<char>, pat: Seq<char>, val: Seq<char>)
    requires
        pat.len() > 0,
    ensures
        byte_len(replace_all(s, pat, val)) + count_matches(s, pat) * byte_len(pat) == byte_len(s)
            + count_matches(s, pat) * byte_len(val),
    decreases s.len(),
{
    let p = byte_len(pat) as int;
    let v = byte_len(val) as int;
    if s.len() == 0 {
        let k = count_matches(s, pat) as int;
        assert(k * p == 0 && k * v == 0) by (nonlinear_arith)
            requires
                k == 0,
        ;
    } else if occurs_at(s, pat, 0) {
        let rest = s.skip(pat.len() as int);
        let k = count_matches(rest, pat) as int;
        lemma_replaced_len(rest, pat, val);
        assert(s.subrange(0, pat.len() as int) + rest =~= s);
        lemma_byte_len_concat(pat, rest);
        lemma_byte_len_concat(val, replace_all(rest, pat, val));
        assert((1 + k) * p == p + k * p) by (nonlinear_arith);
        assert((1 + k) * v == v + k * v) by (nonlinear_arith);
    } else {
        let rest = s.skip(1);
        lemma_replaced_len(rest, pat, val);
        assert(seq![s[0]] + rest =~= s);
        lemma_byte_len_concat(seq![s[0]], rest);
        lemma_byte_len_concat(seq![s[0]], replace_all(rest, pat, val));
    }
}

/// Whether `c` is white space.
pub fn is_whitespace(c: char) -> (b: bool)
    ensures
        b == is_space(c),
{
    let u: u32 = c as u32;
    (0x09 <= u && u <= 0x0d) || u == 0x20 || u == 0x85 || u == 0xa0 || u == 0x1680 || (0x2000 <= u
        && u <= 0x200a) || u == 0x2028 || u == 0x2029 || u == 0x202f || u == 0x205f || u == 0x3000
}

/// The characters of `s`, in order.
pub fn to_chars(s: &str) -> (v: Vec<char>)
    ensures
        v@ == s@,
{
    broadcast use vstd::string::axiom_spec_iter;

    let mut v: Vec<char> = Vec::new();
    let chars = s.chars();
    for c in it: chars
        invariant
            it.seq() == s@,
            v@ == s@.take(it.index()),
    {
        v.push(c);
    }
    v
}

/// The string made of the characters `v[from..to]`.
pub fn from_chars(v: &Vec<char>, from: usize, to: usize) -> (s: String)
    requires
        from <= to <= v.len(),
    ensures
        s@ == v@.subrange(from as int, to as int),
{
    let mut s = String::new();
    let mut i: usize = from;
    while i < to
        invariant
            from <= i <= to <= v.len(),
            s@ == v@.subrange(from as int, i as int),
        decreases to - i,
    {
        s.push(v[i]);
        i += 1;
    }
    s
}

/// Whether `pat` stands in `s` at position `i`.
pub fn matches_at(s: &Vec<char>, pat: &Vec<char>, i: usize) -> (b: bool)
    ensures
        b == occurs_at(s@, pat@, i as int),
{
    if pat.len() > s.len() || i > s.len() - pat.len() {
        return false;
    }
    let mut k: usize = 0;
    while k < pat.len()
        invariant
            k <= pat.len(),
            i + pat.len() <= s.len(),
            forall|j: int| 0 <= j < k ==> s@[i + j] == pat@[j],
        decreases pat.len() - k,
    {
        if s[i + k] != pat[k] {
            return false;
        }
        k += 1;
    }
    assert(s@.subrange(i as int, i + pat.len()) =~= pat@);
    true
}

/// The leftmost position at which `pat` stands in `s`, if there is one.
pub fn find(s: &Vec<char>, pat: &Vec<char>) -> (at: Option<usize>)
    ensures
        at is Some <==> contains(s@, pat@),
        at matches Some(i) ==> is_first_match(s@, pat@, i as int) && i == first_match(s@, pat@),
{
    let mut i: usize = 0;
    while i < s.len()
        invariant
            i <= s.len(),
            forall|j: int| 0 <= j < i ==> !occurs_at(s@, pat@, j),
        decreases s.len() - i,
    {
        if matches_at(s, pat, i) {
            proof {
                lemma_first_match(s@, pat@, i as int);
            }
            return Some(i);
        }
        i += 1;
    }
    if matches_at(s, pat, i) {
        proof {
            lemma_first_match(s@, pat@, i as int);
        }
        return Some(i);
    }
    None
}

/// `s` with every occurrence of `pat` replaced by `val`, on character vectors.
pub fn replace_chars(s: &Vec<char>, pat: &Vec<char>, val: &Vec<char>) -> (out: Vec<char>)
    ensures
        out@ == replace_all(s@, pat@, val@),
{
    let mut out: Vec<char> = Vec::new();
    let mut i: usize = 0;
    assert(s@.skip(0) =~= s@);
    while i < s.len()
        invariant
            i <= s.len(),
            replace_all(s@, pat@, val@) == out@ + replace_all(s@.skip(i as int), pat@, val@),
        decreases s.len() - i,
    {
        let ghost rest = s@.skip(i as int);
        if pat.len() == 0 {
            append(&mut out, val);
            out.push(s[i]);
            assert(rest.skip(1) =~= s@.skip(i + 1));
            i += 1;
        } else if matches_at(s, pat, i) {
            assert(rest.subrange(0, pat@.len() as int) =~= s@.subrange(
                i as int,
                i + pat@.len(),
            ));
            append(&mut out, val);
            assert(rest.skip(pat@.len() as int) =~= s@.skip(i + pat@.len()));
            i += pat.len();
        } else {
            proof {
                if i + pat@.len() <= s@.len() {
                    assert(rest.subrange(0, pat@.len() as int) =~= s@.subrange(
                        i as int,
                        i + pat@.len(),
                    ));
                }
            }
            out.push(s[i]);
            assert(rest.skip(1) =~= s@.skip(i + 1));
            i += 1;
        }
    }
    if pat.len() == 0 {
        append(&mut out, val);
    }
    out
}

/// Appends the characters of `more` to `out`.
pub fn append(out: &mut Vec<char>, more: &Vec<char>)
    ensures
        final(out)@ == old(out)@ + more@,
{
    let mut k: usize = 0;
    while k < more.len()
        invariant
            k <= more.len(),
            out@ == old(out)@ + more@.take(k as int),
        decreases more.len() - k,
    {
        out.push(more[k]);
        k += 1;
    }
}

/// `s` with every occurrence of `pat` replaced by `val`.
pub fn replace(s: &str, pat: &str, val: &str) -> (out: String)
    ensures
        out@ == replace_all(s@, pat@, val@),
{
    let chars = to_chars(s);
    let pat_chars = to_chars(pat);
    let val_chars = to_chars(val);
    let replaced = replace_chars(&chars, &pat_chars, &val_chars);
    let out = from_chars(&replaced, 0, replaced.len());
    out
}

/// Whether `pat` stands anywhere in `s`.
pub fn has_match(s: &str, pat: &str) -> (b: bool)
    ensures
        b == contains(s@, pat@),
{
    let chars = to_chars(s);
    let pat_chars = to_chars(pat);
    find(&chars, &pat_chars).is_some()
}

/// The words of `s`: its maximal runs of characters that are not white space.
pub fn split_whitespace(s: &str) -> (out: Vec<String>)
    ensures
        out.deep_view() == words(s@),
{
    let chars = to_chars(s);
    let mut out: Vec<String> = Vec::new();
    let mut start: usize = 0;
    let mut i: usize = 0;
    assert(s@.skip(0) =~= s@);
    assert(s@.subrange(0, 0) =~= Seq::<char>::empty());
    while i < chars.len()
        invariant
            start <= i <= chars.len(),
            chars@ == s@,
            words(s@) == out.deep_view() + words_after(
                s@.skip(i as int),
                s@.subrange(start as int, i as int),
            ),
        decreases chars.len() - i,
    {
        let ghost rest = s@.skip(i as int);
        let ghost current = s@.subrange(start as int, i as int);
        let ghost before = out.deep_view();
        assert(rest.skip(1) =~= s@.skip(i + 1));
        if is_whitespace(chars[i]) {
            if start < i {
                let word = from_chars(&chars, start, i);
                out.push(word);
            }
            start = i + 1;
            assert(s@.subrange(start as int, i + 1) =~= Seq::<char>::empty());
        } else {
            assert(s@.subrange(start as int, i + 1) =~= current.push(rest[0]));
        }
        i += 1;
    }
    if start < i {
        let ghost before = out.deep_view();
        let word = from_chars(&chars, start, i);
        out.push(word);
    }
    out
}

/// The pieces of `s` between occurrences of `sep`.
pub fn split(s: &str, sep: char) -> (out: Vec<String>)
    ensures
        out.deep_view() == pieces(s@, sep),
        out.len() >= 1,
{
    let chars = to_chars(s);
    let mut out: Vec<String> = Vec::new();
    let mut start: usize = 0;
    let mut i: usize = 0;
    assert(s@.skip(0) =~= s@);
    assert(s@.subrange(0, 0) =~= Seq::<char>::empty());
    while i < chars.len()
        invariant
            start <= i <= chars.len(),
            chars@ == s@,
            pieces(s@, sep) == out.deep_view() + pieces_after(
                s@.skip(i as int),
                sep,
                s@.subrange(start as int, i as int),
            ),
        decreases chars.len() - i,
    {
        let ghost rest = s@.skip(i as int);
        let ghost current = s@.subrange(start as int, i as int);
        let ghost before = out.deep_view();
        assert(rest.skip(1) =~= s@.skip(i + 1));
        if chars[i] == sep {
            let piece = from_chars(&chars, start, i);
            out.push(piece);
            start = i + 1;
            assert(s@.subrange(start as int, i + 1) =~= Seq::<char>::empty());
        } else {
            assert(s@.subrange(start as int, i + 1) =~= current.push(rest[0]));
        }
        i += 1;
    }
    let ghost before = out.deep_view();
    let piece = from_chars(&chars, start, i);
    out.push(piece);
    out
}

/// The lines of `s`, without their line ends.
pub fn lines(s: &str) -> (out: Vec<String>)
    ensures
        out.deep_view() == lines_of(s@),
{
    let parts = split(s, '\n');
    let ghost all = parts.deep_view();
    let mut out: Vec<String> = Vec::new();
    let mut i: usize = 0;
    while i + 1 < parts.len()
        invariant
            parts.len() >= 1,
            i + 1 <= parts.len(),
            all == parts.deep_view(),
            out.len() == i,
            forall|k: int| 0 <= k < i ==> (#[trigger] out[k])@ == without_carriage_return(all[k]),
        decreases parts.len() - i,
    {
        let chars = to_chars(parts[i].as_str());
        let end: usize = if chars.len() > 0 && chars[chars.len() - 1] == '\r' {
            chars.len() - 1
        } else {
            chars.len()
        };
        let line = from_chars(&chars, 0, end);
        out.push(line);
        i += 1;
    }
    if !parts[i].as_str().is_empty() {
        let last = parts[i].clone();
        out.push(last);
    }
    out
}

/// The bounds of `s` without its leading and trailing white space.
pub fn trim_bounds(s: &Vec<char>) -> (bounds: (usize, usize))
    ensures
        bounds.0 <= bounds.1 <= s.len(),
        s@.subrange(bounds.0 as int, bounds.1 as int) == trim(s@),
{
    let mut a: usize = 0;
    assert(s@.skip(0) =~= s@);
    while a < s.len() && is_whitespace(s[a])
        invariant
            a <= s.len(),
            trim_start(s@) == trim_start(s@.skip(a as int)),
        decreases s.len() - a,
    {
        assert(s@.skip(a as int).skip(1) =~= s@.skip(a + 1));
        a += 1;
    }
    let mut b: usize = s.len();
    while b > a && is_whitespace(s[b - 1])
        invariant
            a <= b <= s.len(),
            trim(s@) == trim_end(s@.subrange(a as int, b as int)),
        decreases b,
    {
        assert(s@.subrange(a as int, b as int).drop_last() =~= s@.subrange(a as int, b - 1));
        b -= 1;
    }
    (a, b)
}

/// `s` without leading and trailing white space.
pub fn trimmed(s: &str) -> (out: Vec<char>)
    ensures
        out@ == trim(s@),
{
    let chars = to_chars(s);
    let (a, b) = trim_bounds(&chars);
    let mut out: Vec<char> = Vec::new();
    let mut i: usize = a;
    while i < b
        invariant
            a <= i <= b <= chars.len(),
            out@ == chars@.subrange(a as int, i as int),
        decreases b - i,
    {
        out.push(chars[i]);
        i += 1;
    }
    out
}

} // verus!
