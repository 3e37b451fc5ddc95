//! Character-level rules of the command line: what counts as whitespace, what
//! trimming removes and how a trimmed line falls apart into arguments.
//!
//! Every rule is stated over `Seq<char>`, the view of a string, and the
//! executable functions are proved against those statements.

use vstd::prelude::*;
use vstd::string::*;

verus! {

/// Whether `c` carries the Unicode `White_Space` property.
pub open spec fn is_whitespace(c: char) -> bool {
    let n = c as u32;
    (0x09 <= n <= 0x0D) || n == 0x20 || n == 0x85 || n == 0xA0 || n == 0x1680 || (0x2000 <= n
        <= 0x200A) || n == 0x2028 || n == 0x2029 || n == 0x202F || n == 0x205F || n == 0x3000
}

/// Whether every character of `s` is whitespace.
pub open spec fn all_whitespace(s: Seq<char>) -> bool {
    forall|i: int| 0 <= i < s.len() ==> is_whitespace(#[trigger] s[i])
}

/// `s` without its leading whitespace.
pub open spec fn trim_start(s: Seq<char>) -> Seq<char>
    decreases s.len(),
{
    if s.len() > 0 && is_whitespace(s.first()) {
        trim_start(s.drop_first())
    } else {
        s
    }
}

/// `s` without its trailing whitespace.
pub open spec fn trim_end(s: Seq<char>) -> Seq<char>
    decreases s.len(),
{
    if s.len() > 0 && is_whitespace(s.last()) {
        trim_end(s.drop_last())
    } else {
        s
    }
}

/// `s` without its leading and trailing whitespace.
pub open spec fn trim(s: Seq<char>) -> Seq<char> {
    trim_end(trim_start(s))
}

/// Whether `s` neither starts nor ends with whitespace.
pub open spec fn is_trimmed(s: Seq<char>) -> bool {
    s.len() > 0 ==> !is_whitespace(s.first()) && !is_whitespace(s.last())
}

/// Length of the longest prefix of `s` that holds no space.
pub open spec fn token_len(s: Seq<char>) -> nat
    decreases s.len(),
{
    if s.len() == 0 || s.first() == ' ' {
        0
    } else {
        1 + token_len(s.drop_first())
    }
}

/// The pieces of `s` between its spaces, in order. Each single space separates
/// two pieces, so two spaces in a row enclose an empty piece, and a sequence
/// without any space is its own single piece.
pub open spec fn split_on_space(s: Seq<char>) -> Seq<Seq<char>>
    decreases s.len(),
{
    let n = token_len(s) as int;
    if n >= s.len() {
        seq![s]
    } else {
        seq![s.take(n)] + split_on_space(s.skip(n + 1))
    }
}

/// Whether `s` holds a null character.
pub open spec fn has_nul(s: Seq<char>) -> bool {
    s.contains('\0')
}

/// Whether some element of `parts` holds a null character.
pub open spec fn any_has_nul(parts: Seq<Seq<char>>) -> bool {
    exists|k: int| 0 <= k < parts.len() && has_nul(#[trigger] parts[k])
}

/// `trim_start` removes exactly the first `a` characters when those are
/// whitespace and the next one, if any, is not.
pub proof fn lemma_trim_start_at(s: Seq<char>, a: int)
    requires
        0 <= a <= s.len(),
        all_whitespace(s.take(a)),
        a < s.len() ==> !is_whitespace(s[a]),
    ensures
        trim_start(s) == s.skip(a),
    decreases a,
{
    if a == 0 {
        assert(s.skip(0) =~= s);
    } else {
        assert(s.take(a)[0] == s[0]);
        let rest = s.drop_first();
        assert forall|i: int| 0 <= i < rest.take(a - 1).len() implies is_whitespace(
            #[trigger] rest.take(a - 1)[i],
        ) by {
            assert(rest.take(a - 1)[i] == s.take(a)[i + 1]);
        }
        lemma_trim_start_at(rest, a - 1);
        assert(rest.skip(a - 1) =~= s.skip(a));
    }
}

/// `trim_end` keeps exactly the first `b` characters when all after them are
/// whitespace and the one before, if any, is not.
pub proof fn lemma_trim_end_at(s: Seq<char>, b: int)
    requires
        0 <= b <= s.len(),
        all_whitespace(s.skip(b)),
        b > 0 ==> !is_whitespace(s[b - 1]),
    ensures
        trim_end(s) == s.take(b),
    decreases s.len() - b,
{
    if b == s.len() {
        assert(s.take(b) =~= s);
    } else {
        assert(s.skip(b)[s.len() - 1 - b] == s.last());
        let rest = s.drop_last();
        assert forall|i: int| 0 <= i < rest.skip(b).len() implies is_whitespace(
            #[trigger] rest.skip(b)[i],
        ) by {
            assert(rest.skip(b)[i] == s.skip(b)[i]);
        }
        lemma_trim_end_at(rest, b);
        assert(rest.take(b) =~= s.take(b));
    }
}

/// `trim_start(s)` is a suffix of `s`, preceded by whitespace only, and does
/// not start with whitespace.
pub proof fn lemma_trim_start_range(s: Seq<char>) -> (a: int)
    ensures
        0 <= a <= s.len(),
        trim_start(s) == s.skip(a),
        all_whitespace(s.take(a)),
        a < s.len() ==> !is_whitespace(s[a]),
    decreases s.len(),
{
    if s.len() > 0 && is_whitespace(s.first()) {
        let rest = s.drop_first();
        let a1 = lemma_trim_start_range(rest);
        assert(rest.skip(a1) =~= s.skip(a1 + 1));
        assert forall|i: int| 0 <= i < s.take(a1 + 1).len() implies is_whitespace(
            #[trigger] s.take(a1 + 1)[i],
        ) by {
            if i > 0 {
                assert(s.take(a1 + 1)[i] == rest.take(a1)[i - 1]);
            }
        }
        a1 + 1
    } else {
        assert(s.skip(0) =~= s);
        0
    }
}

/// `trim_end(s)` is a prefix of `s`, followed by whitespace only, and does not
/// end with whitespace.
pub proof fn lemma_trim_end_range(s: Seq<char>) -> (b: int)
    ensures
        0 <= b <= s.len(),
        trim_end(s) == s.take(b),
        all_whitespace(s.skip(b)),
        b > 0 ==> !is_whitespace(s[b - 1]),
    decreases s.len(),
{
    if s.len() > 0 && is_whitespace(s.last()) {
        let rest = s.drop_last();
        let b1 = lemma_trim_end_range(rest);
        assert(rest.take(b1) =~= s.take(b1));
        assert forall|i: int| 0 <= i < s.skip(b1).len() implies is_whitespace(
            #[trigger] s.skip(b1)[i],
        ) by {
            if i < rest.skip(b1).len() {
                assert(s.skip(b1)[i] == rest.skip(b1)[i]);
            }
        }
        b1
    } else {
        assert(s.take(s.len() as int) =~= s);
        s.len() as int
    }
}

/// What `trim` keeps: one range of `s`, with nothing but whitespace before and
/// after it, that neither starts nor ends with whitespace.
pub proof fn lemma_trim_range(s: Seq<char>) -> (r: (int, int))
    ensures
        0 <= r.0 <= r.1 <= s.len(),
        trim(s) == s.subrange(r.0, r.1),
        all_whitespace(s.take(r.0)),
        all_whitespace(s.skip(r.1)),
        is_trimmed(trim(s)),
{
    let a = lemma_trim_start_range(s);
    let t = s.skip(a);
    let k = lemma_trim_end_range(t);
    let b = a + k;
    assert(t.take(k) =~= s.subrange(a, b));
    assert forall|i: int| 0 <= i < s.skip(b).len() implies is_whitespace(
        #[trigger] s.skip(b)[i],
    ) by {
        assert(s.skip(b)[i] == t.skip(k)[i]);
    }
    if k > 0 {
        assert(t.take(k).first() == s[a]);
        assert(t.take(k).last() == t[k - 1]);
    }
    (a, b)
}

/// A trimmed sequence is left as it is by `trim`.
pub proof fn lemma_trim_of_trimmed(s: Seq<char>)
    requires
        is_trimmed(s),
    ensures
        trim(s) == s,
{
}

/// Trimming twice gives what trimming once gives.
pub proof fn law_trim_idempotent(s: Seq<char>)
    ensures
        trim(trim(s)) == trim(s),
{
    let _ = lemma_trim_range(s);
    lemma_trim_of_trimmed(trim(s));
}

/// Trimming removes whitespace only, so it neither adds nor removes a null
/// character.
pub proof fn lemma_trim_keeps_nul(s: Seq<char>)
    ensures
        has_nul(trim(s)) == has_nul(s),
{
    let (a, b) = lemma_trim_range(s);
    let t = s.subrange(a, b);
    if has_nul(t) {
        let i = choose|i: int| 0 <= i < t.len() && t[i] == '\0';
        assert(s[a + i] == '\0');
    }
    if has_nul(s) {
        let i = choose|i: int| 0 <= i < s.len() && s[i] == '\0';
        if i < a {
            assert(is_whitespace(s.take(a)[i]));
        } else if i >= b {
            assert(is_whitespace(s.skip(b)[i - b]));
        } else {
            assert(t[i - a] == '\0');
        }
    }
}

/// `token_len(s)` is `k` when the first `k` characters hold no space and the
/// next one, if any, is a space.
pub proof fn lemma_token_len_at(s: Seq<char>, k: int)
    requires
        0 <= k <= s.len(),
        forall|j: int| 0 <= j < k ==> s[j] != ' ',
        k < s.len() ==> s[k] == ' ',
    ensures
        token_len(s) == k,
    decreases k,
{
    if k > 0 {
        let rest = s.drop_first();
        assert forall|j: int| 0 <= j < k - 1 implies rest[j] != ' ' by {
            assert(rest[j] == s[j + 1]);
        }
        lemma_token_len_at(rest, k - 1);
    }
}

/// `token_len(s)` stops at the first space of `s`, or at its end.
pub proof fn lemma_token_len_bounds(s: Seq<char>)
    ensures
        token_len(s) <= s.len(),
        forall|j: int| 0 <= j < token_len(s) ==> s[j] != ' ',
        token_len(s) < s.len() ==> s[token_len(s) as int] == ' ',
    decreases s.len(),
{
    if s.len() == 0 || s.first() == ' ' {
    } else {
        let rest = s.drop_first();
        lemma_token_len_bounds(rest);
        assert forall|j: int| 0 <= j < token_len(s) implies s[j] != ' ' by {
            if j > 0 {
                assert(s[j] == rest[j - 1]);
            }
        }
    }
}

/// A split always yields at least one piece.
pub proof fn lemma_split_nonempty(s: Seq<char>)
    ensures
        split_on_space(s).len() >= 1,
    decreases s.len(),
{
    lemma_token_len_bounds(s);
    let n = token_len(s) as int;
    if n < s.len() {
        lemma_split_nonempty(s.skip(n + 1));
    }
}

/// No piece of a split holds a space.
pub proof fn law_split_pieces_hold_no_space(s: Seq<char>)
    ensures
        forall|k: int|
            0 <= k < split_on_space(s).len() ==> !(#[trigger] split_on_space(s)[k]).contains(' '),
    decreases s.len(),
{
    lemma_token_len_bounds(s);
    let n = token_len(s) as int;
    if n < s.len() {
        let rest = s.skip(n + 1);
        law_split_pieces_hold_no_space(rest);
        assert forall|k: int| 0 <= k < split_on_space(s).len() implies !(#[trigger] split_on_space(
            s,
        )[k]).contains(' ') by {
            if k > 0 {
                assert(split_on_space(s)[k] == split_on_space(rest)[k - 1]);
            }
        }
    }
}

/// A null character sits in some piece of a split exactly when it sits in the
/// sequence that was split.
pub proof fn lemma_split_keeps_nul(s: Seq<char>)
    ensures
        any_has_nul(split_on_space(s)) == has_nul(s),
    decreases s.len(),
{
    lemma_token_len_bounds(s);
    let n = token_len(s) as int;
    let parts = split_on_space(s);
    if n >= s.len() {
        if has_nul(s) {
            assert(has_nul(parts[0]));
        }
    } else {
        let head = s.take(n);
        let rest = s.skip(n + 1);
        let tail = split_on_space(rest);
        lemma_split_keeps_nul(rest);
        assert(parts[0] == head);
        assert forall|k: int| 0 <= k < tail.len() implies parts[k + 1] == tail[k] by {}
        if any_has_nul(parts) {
            let k = choose|k: int| 0 <= k < parts.len() && has_nul(#[trigger] parts[k]);
            if k == 0 {
                let i = choose|i: int| 0 <= i < head.len() && head[i] == '\0';
                assert(s[i] == '\0');
            } else {
                assert(parts[k] == tail[k - 1]);
                assert(has_nul(tail[k - 1]));
                assert(any_has_nul(tail));
                let i = choose|i: int| 0 <= i < rest.len() && rest[i] == '\0';
                assert(s[i + n + 1] == '\0');
            }
        }
        if has_nul(s) {
            let i = choose|i: int| 0 <= i < s.len() && s[i] == '\0';
            if i < n {
                assert(head[i] == '\0');
                assert(has_nul(parts[0]));
            } else {
                assert(rest[i - n - 1] == '\0');
                assert(has_nul(rest));
                let k = choose|k: int| 0 <= k < tail.len() && has_nul(#[trigger] tail[k]);
                assert(has_nul(parts[k + 1]));
            }
        }
    }
}

/// Decides whether `c` is a whitespace character.
pub fn char_is_whitespace(c: char) -> (b: bool)
    ensures
        b == is_whitespace(c),
{
    let n: u32 = c as u32;
    (0x09 <= n && n <= 0x0D) || n == 0x20 || n == 0x85 || n == 0xA0 || n == 0x1680 || (0x2000 <= n
        && n <= 0x200A) || n == 0x2028 || n == 0x2029 || n == 0x202F || n == 0x205F || n == 0x3000
}

/// The characters of `s`, in order.
pub fn chars_of(s: &str) -> (v: Vec<char>)
    ensures
        v@ == s@,
{
    let mut v: Vec<char> = Vec::new();
    for c in it: s.chars()
        invariant
            v@ == it.seq().take(it.index() as int),
            it.seq() == s@,
    {
        v.push(c);
    }
    v
}

/// The range of `chars` that trimming keeps.
pub fn trim_bounds(chars: &Vec<char>) -> (r: (usize, usize))
    ensures
        r.0 <= r.1 <= chars.len(),
        chars@.subrange(r.0 as int, r.1 as int) == trim(chars@),
{
    let n = chars.len();
    let mut a: usize = 0;
    while a < n && char_is_whitespace(chars[a])
        invariant
            a <= n,
            n == chars.len(),
            all_whitespace(chars@.take(a as int)),
        decreases n - a,
    {
        a = a + 1;
        assert forall|i: int| 0 <= i < chars@.take(a as int).len() implies is_whitespace(
            #[trigger] chars@.take(a as int)[i],
        ) by {
            if i < a - 1 {
                assert(chars@.take(a as int)[i] == chars@.take(a - 1)[i]);
            }
        }
    }
    let ghost rest = chars@.skip(a as int);
    let mut b: usize = n;
    while b > a && char_is_whitespace(chars[b - 1])
        invariant
            a <= b <= n,
            n == chars.len(),
            rest == chars@.skip(a as int),
            all_whitespace(rest.skip(b - a)),
        decreases b,
    {
        b = b - 1;
        assert forall|i: int| 0 <= i < rest.skip(b - a).len() implies is_whitespace(
            #[trigger] rest.skip(b - a)[i],
        ) by {
            if i > 0 {
                assert(rest.skip(b - a)[i] == rest.skip(b + 1 - a)[i - 1]);
            }
        }
    }
    proof {
        lemma_trim_start_at(chars@, a as int);
        if b > a {
            assert(rest[b - a - 1] == chars@[b - 1]);
        } else if rest.len() > 0 {
            assert(rest.skip(0)[0] == rest[0]);
        }
        if b == a {
            // Nothing but whitespace is left: trimming the end removes all of it.
            lemma_all_whitespace_trims_to_empty(rest);
            assert(chars@.subrange(a as int, b as int) =~= Seq::<char>::empty());
        } else {
            lemma_trim_end_at(rest, b - a);
            assert(rest.take(b - a) =~= chars@.subrange(a as int, b as int));
        }
    }
    (a, b)
}

/// A sequence of whitespace only has nothing left once its end is trimmed.
pub proof fn lemma_all_whitespace_trims_to_empty(s: Seq<char>)
    requires
        all_whitespace(s),
    ensures
        trim_end(s) == Seq::<char>::empty(),
{
    assert(s.skip(0) =~= s);
    lemma_trim_end_at(s, 0);
    assert(s.take(0) =~= Seq::<char>::empty());
}

/// The characters of `s` from position `from` up to, not including, `to`, as
/// a string of their own.
pub fn substring(s: &str, from: usize, to: usize) -> (r: String)
    requires
        from <= to <= s@.len(),
    ensures
        r@ == s@.subrange(from as int, to as int),
{
    s.substring_char(from, to).to_owned()
}

/// Decides whether `a` and `b` hold the same characters.
pub fn same_text(a: &str, b: &str) -> (r: bool)
    ensures
        r == (a@ == b@),
{
    let x = chars_of(a);
    let y = chars_of(b);
    if x.len() != y.len() {
        return false;
    }
    let mut i: usize = 0;
    while i < x.len()
        invariant
            i <= x.len(),
            x.len() == y.len(),
            x@ == a@,
            y@ == b@,
            forall|j: int| 0 <= j < i ==> x[j] == y[j],
        decreases x.len() - i,
    {
        if x[i] != y[i] {
            return false;
        }
        i = i + 1;
    }
    assert(x@ =~= y@);
    true
}

} // verus!
