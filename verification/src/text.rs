//! Character-level text handling used throughout the crate: whitespace,
//! tokens, trimming, decimal numbers, ASCII case folding.

use vstd::prelude::*;

verus! {

broadcast use vstd::string::group_string_axioms;

// ---------------------------------------------------------------------------
// Whitespace
// ---------------------------------------------------------------------------

/// Unicode `White_Space`, which is what `char::is_whitespace` tests.
pub open spec fn is_ws(c: char) -> bool {
    ||| c == '\t' || c == '\n' || c == '\u{0B}' || c == '\u{0C}' || c == '\r' || c == ' '
    ||| c == '\u{85}' || c == '\u{A0}' || c == '\u{1680}'
    ||| ('\u{2000}' <= c && c <= '\u{200A}')
    ||| c == '\u{2028}' || c == '\u{2029}' || c == '\u{202F}' || c == '\u{205F}' || c == '\u{3000}'
}

pub fn char_is_ws(c: char) -> (r: bool)
    ensures
        r == is_ws(c),
{
    c == '\t' || c == '\n' || c == '\u{0B}' || c == '\u{0C}' || c == '\r' || c == ' ' || c
        == '\u{85}' || c == '\u{A0}' || c == '\u{1680}' || ('\u{2000}' <= c && c <= '\u{200A}')
        || c == '\u{2028}' || c == '\u{2029}' || c == '\u{202F}' || c == '\u{205F}' || c
        == '\u{3000}'
}

// ---------------------------------------------------------------------------
// Conversions between strings and character vectors
// ---------------------------------------------------------------------------

/// The characters of a string slice, in order.
pub fn chars_of(s: &str) -> (r: Vec<char>)
    ensures
        r@ == s@,
{
    let mut v: Vec<char> = Vec::new();
    for c in it: s.chars()
        invariant
            v@ == it.seq().take(it.index() as int),
            it.seq() == s@,
    {
        v.push(c);
    }
    v
}

/// `String::push`.
#[verifier::external_body]
pub(crate) fn push_char(s: &mut String, c: char)
    ensures
        final(s)@ == old(s)@.push(c),
{
    s.push(c)
}

/// Appends a sequence of characters to a string.
pub fn push_chars(s: &mut String, v: &[char])
    ensures
        final(s)@ == old(s)@ + v@,
{
    let n = v.len();
    let mut i: usize = 0;
    while i < n
        invariant
            n == v@.len(),
            i <= n,
            s@ == old(s)@ + v@.take(i as int),
        decreases n - i,
    {
        push_char(s, v[i]);
        i = i + 1;
        assert(v@.take(i as int) =~= v@.take(i - 1).push(v@[i - 1]));
    }
    assert(v@.take(n as int) =~= v@);
}

/// A copy of a character slice.
pub fn copy_chars(v: &[char]) -> (r: Vec<char>)
    ensures
        r@ == v@,
{
    let mut r: Vec<char> = Vec::new();
    let mut i: usize = 0;
    while i < v.len()
        invariant
            i <= v@.len(),
            r@ =~= v@.take(i as int),
        decreases v@.len() - i,
    {
        r.push(v[i]);
        i = i + 1;
    }
    r
}

/// A string holding the given characters.
pub fn string_of(v: &[char]) -> (r: String)
    ensures
        r@ == v@,
{
    let mut s = String::new();
    push_chars(&mut s, v);
    s
}

/// `str::from_utf8`: the text that the bytes encode, when they are valid UTF-8.
#[verifier::external_body]
pub(crate) fn decode_utf8_bytes(b: &[u8]) -> (r: Option<String>)
    ensures
        r is Some <==> vstd::utf8::valid_utf8(b@),
        r matches Some(s) ==> s@ == vstd::utf8::decode_utf8(b@),
{
    match std::str::from_utf8(b) {
        Ok(s) => Some(s.to_string()),
        Err(_) => None,
    }
}

/// `str::to_lowercase` (full Unicode lower-casing) gives this text.
pub uninterp spec fn unicode_lowercase(s: Seq<char>) -> Seq<char>;

/// `str::to_lowercase`: Unicode lower-casing, which on ASCII text lowers the
/// letters `A`-`Z` and leaves every other character as it is.
#[verifier::external_body]
pub(crate) fn to_lowercase(s: &str) -> (r: String)
    ensures
        r@ == unicode_lowercase(s@),
        (forall|i: int| 0 <= i < s@.len() ==> (#[trigger] s@[i] as u32) < 128) ==> r@ == s@.map_values(
            |c: char| ascii_lower(c),
        ),
{
    s.to_lowercase()
}

// ---------------------------------------------------------------------------
// Whitespace-separated tokens
// ---------------------------------------------------------------------------

/// The maximal runs of non-whitespace characters of `s`, in order
/// (what `str::split_whitespace` yields).
pub open spec fn ws_tokens(s: Seq<char>) -> Seq<Seq<char>>
    decreases s.len(),
{
    if s.len() == 0 {
        seq![]
    } else {
        let p = s.drop_last();
        let c = s.last();
        let t = ws_tokens(p);
        if is_ws(c) {
            t
        } else if p.len() == 0 || is_ws(p.last()) {
            t.push(seq![c])
        } else {
            t.update(t.len() - 1, t.last().push(c))
        }
    }
}

/// A sequence of tokens joined by a separator.
pub open spec fn join(parts: Seq<Seq<char>>, sep: Seq<char>) -> Seq<char>
    decreases parts.len(),
{
    if parts.len() == 0 {
        seq![]
    } else if parts.len() == 1 {
        parts[0]
    } else {
        join(parts.drop_last(), sep) + sep + parts.last()
    }
}

pub open spec fn ws_free(t: Seq<char>) -> bool {
    forall|i: int| 0 <= i < t.len() ==> !is_ws(#[trigger] t[i])
}

pub open spec fn proper_tokens(ts: Seq<Seq<char>>) -> bool {
    forall|k: int| 0 <= k < ts.len() ==> (#[trigger] ts[k]).len() > 0 && ws_free(ts[k])
}

pub proof fn lemma_ws_tokens_nonempty(s: Seq<char>)
    requires
        s.len() > 0,
        !is_ws(s.last()),
    ensures
        ws_tokens(s).len() > 0,
    decreases s.len(),
{
    let p = s.drop_last();
    if p.len() > 0 && !is_ws(p.last()) {
        lemma_ws_tokens_nonempty(p);
    }
}

pub proof fn lemma_ws_tokens_proper(s: Seq<char>)
    ensures
        proper_tokens(ws_tokens(s)),
    decreases s.len(),
{
    if s.len() > 0 {
        let p = s.drop_last();
        lemma_ws_tokens_proper(p);
        let t = ws_tokens(p);
        if !is_ws(s.last()) && !(p.len() == 0 || is_ws(p.last())) {
            lemma_ws_tokens_nonempty(p);
            let nt = t.update(t.len() - 1, t.last().push(s.last()));
            assert forall|k: int| 0 <= k < nt.len() implies (#[trigger] nt[k]).len() > 0 && ws_free(
                nt[k],
            ) by {
                if k == t.len() - 1 {
                    assert forall|i: int| 0 <= i < nt[k].len() implies !is_ws(#[trigger] nt[k][i]) by {
                        if i < t.last().len() {
                            assert(nt[k][i] == t[k][i]);
                        }
                    }
                }
            }
        }
    }
}

/// The tokens of `s`, as `split_whitespace` gives them.
pub fn split_ws(s: &[char]) -> (r: Vec<Vec<char>>)
    ensures
        r@.len() == ws_tokens(s@).len(),
        forall|k: int| 0 <= k < r@.len() ==> (#[trigger] r@[k])@ == ws_tokens(s@)[k],
{
    let n = s.len();
    let mut toks: Vec<Vec<char>> = Vec::new();
    let mut i: usize = 0;
    while i < n
        invariant
            n == s@.len(),
            i <= n,
            toks@.len() == ws_tokens(s@.take(i as int)).len(),
            forall|k: int|
                0 <= k < toks@.len() ==> (#[trigger] toks@[k])@ == ws_tokens(s@.take(i as int))[k],
        decreases n - i,
    {
        let c = s[i];
        let ghost prev = s@.take(i as int);
        assert(s@.take(i + 1).drop_last() =~= prev);
        assert(s@.take(i + 1).last() == c);
        if char_is_ws(c) {
        } else if i == 0 || char_is_ws(s[i - 1]) {
            let mut t: Vec<char> = Vec::new();
            t.push(c);
            toks.push(t);
            assert(t@ =~= seq![c]);
        } else {
            proof {
                assert(prev.last() == s@[i - 1]);
                lemma_ws_tokens_nonempty(prev);
            }
            let last = toks.len() - 1;
            let mut t = toks.pop().unwrap();
            t.push(c);
            toks.push(t);
        }
        i = i + 1;
        proof {
            let cur = ws_tokens(s@.take(i as int));
            assert forall|k: int| 0 <= k < toks@.len() implies (#[trigger] toks@[k])@ == cur[k] by {
            }
        }
    }
    assert(s@.take(n as int) =~= s@);
    toks
}


/// Appends `parts` joined by `sep`.
pub fn push_joined(out: &mut String, parts: &[Vec<char>], sep: &[char])
    ensures
        final(out)@ == old(out)@ + join(parts@.map_values(|t: Vec<char>| t@), sep@),
{
    let n = parts.len();
    let ghost ps = parts@.map_values(|t: Vec<char>| t@);
    let mut i: usize = 0;
    while i < n
        invariant
            n == parts@.len(),
            ps == parts@.map_values(|t: Vec<char>| t@),
            i <= n,
            out@ == old(out)@ + join(ps.take(i as int), sep@),
        decreases n - i,
    {
        assert(ps.take(i + 1).drop_last() =~= ps.take(i as int));
        assert(ps.take(i + 1).last() == parts@[i as int]@);
        if i > 0 {
            push_chars(out, sep);
        }
        push_chars(out, parts[i].as_slice());
        i = i + 1;
        proof {
            if i == 1 {
                assert(join(ps.take(1), sep@) == ps.take(1)[0]);
            }
        }
    }
    assert(ps.take(n as int) =~= ps);
}

/// The first four whitespace-separated fields of a FEN, joined by single spaces
/// (board, side to move, castling rights, en-passant square).
pub open spec fn normalized_fen(fen: Seq<char>) -> Seq<char> {
    join(take_at_most(ws_tokens(fen), 4), seq![' '])
}

/// The first `n` elements, or all of them when there are fewer.
pub open spec fn take_at_most<A>(s: Seq<A>, n: nat) -> Seq<A> {
    if s.len() <= n {
        s
    } else {
        s.take(n as int)
    }
}

pub fn normalize_chars(fen: &[char]) -> (r: String)
    ensures
        r@ == normalized_fen(fen@),
{
    let toks = split_ws(fen);
    let mut first: Vec<Vec<char>> = Vec::new();
    let mut k: usize = 0;
    while k < toks.len() && k < 4
        invariant
            k <= toks@.len(),
            k <= 4,
            first@.len() == k,
            forall|j: int| 0 <= j < k ==> (#[trigger] first@[j])@ == toks@[j]@,
        decreases 4 - k,
    {
        first.push(copy_chars(toks[k].as_slice()));
        k = k + 1;
    }
    let mut out = String::new();
    let sep = vec![' '];
    push_joined(&mut out, first.as_slice(), sep.as_slice());
    proof {
        let w = ws_tokens(fen@);
        let m = first@.map_values(|t: Vec<char>| t@);
        assert(k == toks@.len() || k == 4);
        assert(m.len() == take_at_most(w, 4).len());
        assert forall|j: int| 0 <= j < m.len() implies m[j] == take_at_most(w, 4)[j] by {
            assert(first@[j]@ == toks@[j]@);
        }
        assert(m =~= take_at_most(w, 4));
        assert(sep@ =~= seq![' ']);
    }
    out
}

pub proof fn lemma_tokens_append_token(a: Seq<char>, t: Seq<char>)
    requires
        t.len() > 0,
        ws_free(t),
        a.len() == 0 || is_ws(a.last()),
    ensures
        ws_tokens(a + t) == ws_tokens(a).push(t),
    decreases t.len(),
{
    let c = t.last();
    let tp = t.drop_last();
    assert((a + t).drop_last() =~= a + tp);
    assert((a + t).last() == c);
    assert(!is_ws(t[t.len() - 1]));
    if tp.len() == 0 {
        assert(a + tp =~= a);
        assert(t =~= seq![c]);
    } else {
        assert(ws_free(tp)) by {
            assert forall|i: int| 0 <= i < tp.len() implies !is_ws(#[trigger] tp[i]) by {
                assert(tp[i] == t[i]);
            }
        }
        lemma_tokens_append_token(a, tp);
        assert((a + tp).last() == tp.last());
        assert(!is_ws(t[tp.len() - 1]));
        assert(tp.push(c) =~= t);
    }
}

pub proof fn lemma_tokens_of_join(ts: Seq<Seq<char>>)
    requires
        proper_tokens(ts),
    ensures
        ws_tokens(join(ts, seq![' '])) == ts,
    decreases ts.len(),
{
    if ts.len() == 0 {
        assert(ws_tokens(join(ts, seq![' '])) =~= ts);
    } else if ts.len() == 1 {
        assert(ts[0].len() > 0 && ws_free(ts[0]));
        lemma_tokens_append_token(seq![], ts[0]);
        assert(Seq::<char>::empty() + ts[0] =~= ts[0]);
        assert(seq![ts[0]] =~= ts);
        assert(ws_tokens(Seq::<char>::empty()) =~= Seq::<Seq<char>>::empty());
        assert(Seq::<Seq<char>>::empty().push(ts[0]) =~= ts);
    } else {
        let p = ts.drop_last();
        assert(proper_tokens(p)) by {
            assert forall|k: int| 0 <= k < p.len() implies (#[trigger] p[k]).len() > 0 && ws_free(p[k]) by {
                assert(p[k] == ts[k]);
            }
        }
        lemma_tokens_of_join(p);
        let a = join(p, seq![' ']) + seq![' '];
        assert(a.drop_last() =~= join(p, seq![' ']));
        assert(ws_tokens(a) == ws_tokens(join(p, seq![' '])));
        assert(ts.last() == ts[ts.len() - 1]);
        lemma_tokens_append_token(a, ts.last());
        assert(p.push(ts.last()) =~= ts);
    }
}

/// Normalizing a FEN twice gives what normalizing it once gives.
pub proof fn law_normalized_fen_idempotent(fen: Seq<char>)
    ensures
        normalized_fen(normalized_fen(fen)) == normalized_fen(fen),
{
    let ts = take_at_most(ws_tokens(fen), 4);
    lemma_ws_tokens_proper(fen);
    assert(proper_tokens(ts)) by {
        assert forall|k: int| 0 <= k < ts.len() implies (#[trigger] ts[k]).len() > 0 && ws_free(ts[k]) by {
            assert(ts[k] == ws_tokens(fen)[k]);
        }
    }
    lemma_tokens_of_join(ts);
}

/// Whether some characters spell out a string.
pub fn chars_eq_str(v: &[char], s: &str) -> (r: bool)
    ensures
        r == (v@ == s@),
{
    let w = chars_of(s);
    if v.len() != w.len() {
        return false;
    }
    let mut i: usize = 0;
    while i < v.len()
        invariant
            v@.len() == w@.len(),
            w@ == s@,
            i <= v@.len(),
            forall|j: int| 0 <= j < i ==> v@[j] == w@[j],
        decreases v@.len() - i,
    {
        if v[i] != w[i] {
            return false;
        }
        i = i + 1;
    }
    assert(v@ =~= w@);
    true
}

/// The position of the first token equal to `w`.
pub open spec fn first_index(ts: Seq<Seq<char>>, w: Seq<char>) -> Option<int>
    decreases ts.len(),
{
    if ts.len() == 0 {
        None
    } else if ts[0] == w {
        Some(0)
    } else {
        match first_index(ts.drop_first(), w) {
            Some(k) => Some(k + 1),
            None => None,
        }
    }
}

pub proof fn lemma_first_index_bounds(ts: Seq<Seq<char>>, w: Seq<char>)
    ensures
        first_index(ts, w) matches Some(k) ==> 0 <= k < ts.len() && ts[k] == w,
    decreases ts.len(),
{
    if ts.len() > 0 && ts[0] != w {
        lemma_first_index_bounds(ts.drop_first(), w);
    }
}

/// The position of the first token that spells `w`.
pub fn find_token(ts: &Vec<Vec<char>>, w: &str) -> (r: Option<usize>)
    ensures
        r matches Some(k) ==> first_index(ts@.map_values(|t: Vec<char>| t@), w@) == Some(k as int),
        r is None ==> first_index(ts@.map_values(|t: Vec<char>| t@), w@) is None,
{
    let ghost tv = ts@.map_values(|t: Vec<char>| t@);
    let mut i: usize = 0;
    assert(tv.skip(0) =~= tv);
    while i < ts.len()
        invariant
            i <= ts@.len(),
            tv == ts@.map_values(|t: Vec<char>| t@),
            forall|j: int| 0 <= j < i ==> tv[j] != w@,
            first_index(tv, w@) == match first_index(tv.skip(i as int), w@) {
                Some(k) => Some(k + i),
                None => None::<int>,
            },
        decreases ts@.len() - i,
    {
        assert(tv.skip(i as int)[0] == tv[i as int]);
        if chars_eq_str(ts[i].as_slice(), w) {
            return Some(i);
        }
        assert(tv.skip(i as int).drop_first() =~= tv.skip(i + 1));
        i = i + 1;
    }
    None
}

/// The pieces between occurrences of `sep` (what `str::split` with a character yields).
pub open spec fn split_on(s: Seq<char>, sep: char) -> Seq<Seq<char>>
    decreases s.len(),
{
    if s.len() == 0 {
        seq![seq![]]
    } else {
        let p = split_on(s.drop_last(), sep);
        if s.last() == sep {
            p.push(seq![])
        } else {
            p.update(p.len() - 1, p.last().push(s.last()))
        }
    }
}

pub proof fn lemma_split_on_nonempty(s: Seq<char>, sep: char)
    ensures
        split_on(s, sep).len() > 0,
    decreases s.len(),
{
    if s.len() > 0 {
        lemma_split_on_nonempty(s.drop_last(), sep);
    }
}

/// The pieces of `s` between occurrences of `sep`.
pub fn split_chars(s: &[char], sep: char) -> (r: Vec<Vec<char>>)
    ensures
        r@.map_values(|t: Vec<char>| t@) == split_on(s@, sep),
{
    let n = s.len();
    let mut parts: Vec<Vec<char>> = Vec::new();
    parts.push(Vec::new());
    let mut i: usize = 0;
    assert(parts@.map_values(|t: Vec<char>| t@) =~= split_on(s@.take(0), sep));
    while i < n
        invariant
            n == s@.len(),
            i <= n,
            parts@.len() > 0,
            parts@.map_values(|t: Vec<char>| t@) == split_on(s@.take(i as int), sep),
        decreases n - i,
    {
        let c = s[i];
        let ghost prev = parts@.map_values(|t: Vec<char>| t@);
        assert(s@.take(i + 1).drop_last() =~= s@.take(i as int));
        assert(s@.take(i + 1).last() == c);
        if c == sep {
            parts.push(Vec::new());
            assert(parts@.map_values(|t: Vec<char>| t@) =~= prev.push(seq![]));
        } else {
            let mut t = parts.pop().unwrap();
            t.push(c);
            parts.push(t);
            assert(parts@.map_values(|t: Vec<char>| t@) =~= prev.update(prev.len() - 1, prev.last().push(c)));
        }
        i = i + 1;
    }
    assert(s@.take(n as int) =~= s@);
    parts
}

// ---------------------------------------------------------------------------
// Trimming
// ---------------------------------------------------------------------------

pub open spec fn trim_start(s: Seq<char>) -> Seq<char>
    decreases s.len(),
{
    if s.len() > 0 && is_ws(s[0]) {
        trim_start(s.drop_first())
    } else {
        s
    }
}

pub open spec fn trim_end(s: Seq<char>) -> Seq<char>
    decreases s.len(),
{
    if s.len() > 0 && is_ws(s.last()) {
        trim_end(s.drop_last())
    } else {
        s
    }
}

/// `str::trim`: leading and trailing whitespace removed.
pub open spec fn trim(s: Seq<char>) -> Seq<char> {
    trim_end(trim_start(s))
}

pub fn trim_chars(s: &[char]) -> (r: Vec<char>)
    ensures
        r@ == trim(s@),
{
    let n = s.len();
    let mut a: usize = 0;
    assert(s@.skip(0) =~= s@);
    while a < n && char_is_ws(s[a])
        invariant
            n == s@.len(),
            a <= n,
            trim_start(s@) == trim_start(s@.skip(a as int)),
        decreases n - a,
    {
        assert(s@.skip(a as int).drop_first() =~= s@.skip(a + 1));
        a = a + 1;
    }
    let ghost t = s@.skip(a as int);
    assert(a == n || !is_ws(t[0]));
    assert(trim_start(t) == t);
    let mut b: usize = n;
    while b > a && char_is_ws(s[b - 1])
        invariant
            n == s@.len(),
            a <= b <= n,
            t == s@.skip(a as int),
            trim_end(t) == trim_end(s@.subrange(a as int, b as int)),
        decreases b,
    {
        assert(s@.subrange(a as int, b as int).drop_last() =~= s@.subrange(a as int, b - 1));
        b = b - 1;
    }
    let mut r: Vec<char> = Vec::new();
    let mut i: usize = a;
    while i < b
        invariant
            a <= i <= b,
            b <= n,
            n == s@.len(),
            r@ =~= s@.subrange(a as int, i as int),
        decreases b - i,
    {
        r.push(s[i]);
        i = i + 1;
    }
    assert(t =~= s@.subrange(a as int, n as int));
    r
}

// ---------------------------------------------------------------------------
// ASCII case folding
// ---------------------------------------------------------------------------

pub open spec fn ascii_lower(c: char) -> char {
    if 'A' <= c && c <= 'Z' {
        ((c as u32) + 32) as char
    } else {
        c
    }
}

/// `str::eq_ignore_ascii_case`.
pub open spec fn eq_ignore_ascii_case(a: Seq<char>, b: Seq<char>) -> bool {
    &&& a.len() == b.len()
    &&& forall|i: int| 0 <= i < a.len() ==> ascii_lower(#[trigger] a[i]) == ascii_lower(b[i])
}

pub fn char_ascii_lower(c: char) -> (r: char)
    ensures
        r == ascii_lower(c),
{
    if 'A' <= c && c <= 'Z' {
        let u: u32 = (c as u32) + 32;
        assert(0x61 <= u <= 0x7A);
        let b: u8 = u as u8;
        b as char
    } else {
        c
    }
}

pub fn chars_eq_ignore_ascii_case(a: &[char], b: &[char]) -> (r: bool)
    ensures
        r == eq_ignore_ascii_case(a@, b@),
{
    if a.len() != b.len() {
        return false;
    }
    let n = a.len();
    let mut i: usize = 0;
    while i < n
        invariant
            n == a@.len(),
            n == b@.len(),
            i <= n,
            forall|j: int| 0 <= j < i ==> ascii_lower(#[trigger] a@[j]) == ascii_lower(b@[j]),
        decreases n - i,
    {
        if char_ascii_lower(a[i]) != char_ascii_lower(b[i]) {
            return false;
        }
        i = i + 1;
    }
    true
}

pub fn str_eq_ignore_ascii_case(a: &str, b: &str) -> (r: bool)
    ensures
        r == eq_ignore_ascii_case(a@, b@),
{
    let x = chars_of(a);
    let y = chars_of(b);
    chars_eq_ignore_ascii_case(x.as_slice(), y.as_slice())
}


// ---------------------------------------------------------------------------
// Decimal numbers
// ---------------------------------------------------------------------------

pub open spec fn digit_char(d: int) -> char {
    (('0' as int) + d) as char
}

/// The decimal digits of `n`, without leading zeros (`"0"` for zero).
pub open spec fn decimal(n: nat) -> Seq<char>
    decreases n,
{
    if n < 10 {
        seq![digit_char(n as int)]
    } else {
        decimal(n / 10).push(digit_char((n % 10) as int))
    }
}

pub fn digit_to_char(d: u64) -> (c: char)
    requires
        d < 10,
    ensures
        c == digit_char(d as int),
{
    let b: u8 = 48u8 + (d as u8);
    b as char
}

/// Appends the decimal digits of `n`.
pub fn push_decimal(out: &mut String, n: u64)
    ensures
        final(out)@ == old(out)@ + decimal(n as nat),
    decreases n,
{
    if n >= 10 {
        push_decimal(out, n / 10);
    }
    push_char(out, digit_to_char(n % 10));
    proof {
        if n >= 10 {
            assert(decimal(n as nat) == decimal((n / 10) as nat).push(digit_char((n % 10) as int)));
        }
    }
}

pub open spec fn is_digit(c: char) -> bool {
    '0' <= c && c <= '9'
}

pub open spec fn digit_value(c: char) -> int {
    (c as int) - ('0' as int)
}

/// The number that a run of decimal digits denotes.
pub open spec fn digits_value(s: Seq<char>) -> int
    decreases s.len(),
{
    if s.len() == 0 {
        0
    } else {
        digits_value(s.drop_last()) * 10 + digit_value(s.last())
    }
}

pub open spec fn all_digits(s: Seq<char>) -> bool {
    forall|i: int| 0 <= i < s.len() ==> is_digit(#[trigger] s[i])
}

/// The digits after an optional leading sign character `sign`.
pub open spec fn unsigned_body(s: Seq<char>) -> Seq<char> {
    if s.len() > 0 && s[0] == '+' {
        s.drop_first()
    } else {
        s
    }
}

/// `u64::from_str`: an optional `+`, then one or more decimal digits, in range.
pub open spec fn parse_u64_spec(s: Seq<char>) -> Option<u64> {
    let b = unsigned_body(s);
    if b.len() > 0 && all_digits(b) && digits_value(b) <= u64::MAX {
        Some(digits_value(b) as u64)
    } else {
        None
    }
}

/// `u32::from_str`.
pub open spec fn parse_u32_spec(s: Seq<char>) -> Option<u32> {
    let b = unsigned_body(s);
    if b.len() > 0 && all_digits(b) && digits_value(b) <= u32::MAX {
        Some(digits_value(b) as u32)
    } else {
        None
    }
}

/// `i32::from_str`: an optional `+` or `-`, then one or more decimal digits, in range.
pub open spec fn parse_i32_spec(s: Seq<char>) -> Option<i32> {
    if s.len() > 0 && s[0] == '-' {
        let b = s.drop_first();
        if b.len() > 0 && all_digits(b) && digits_value(b) <= 2147483648 {
            Some((-digits_value(b)) as i32)
        } else {
            None
        }
    } else {
        let b = unsigned_body(s);
        if b.len() > 0 && all_digits(b) && digits_value(b) <= i32::MAX {
            Some(digits_value(b) as i32)
        } else {
            None
        }
    }
}

pub proof fn lemma_digits_value_nonneg(s: Seq<char>)
    requires
        all_digits(s),
    ensures
        digits_value(s) >= 0,
    decreases s.len(),
{
    if s.len() > 0 {
        lemma_digits_value_nonneg(s.drop_last());
    }
}

pub proof fn lemma_digits_value_prefix(s: Seq<char>, k: int)
    requires
        all_digits(s),
        0 <= k <= s.len(),
    ensures
        digits_value(s.take(k)) <= digits_value(s),
    decreases s.len(),
{
    if k < s.len() {
        assert(s.drop_last().take(k) =~= s.take(k));
        lemma_digits_value_prefix(s.drop_last(), k);
        lemma_digits_value_nonneg(s.drop_last());
    } else {
        assert(s.take(k) =~= s);
    }
}

/// The value of the digits `s[start..]` when they are all digits, there is at least
/// one, and the value is at most `bound`.
fn parse_digits_from(s: &[char], start: usize, bound: u64) -> (r: Option<u64>)
    requires
        start <= s@.len(),
        bound >= 10,
    ensures
        r is Some <==> ({
            let b = s@.skip(start as int);
            b.len() > 0 && all_digits(b) && digits_value(b) <= bound
        }),
        r matches Some(v) ==> v as int == digits_value(s@.skip(start as int)) && v <= bound,
{
    let n = s.len();
    let ghost b = s@.skip(start as int);
    if start >= n {
        return None;
    }
    let mut acc: u64 = 0;
    let mut i: usize = start;
    while i < n
        invariant
            start <= i <= n,
            n == s@.len(),
            b == s@.skip(start as int),
            all_digits(b.take(i - start)),
            acc as int == digits_value(b.take(i - start)),
            acc <= bound,
            bound >= 10,
        decreases n - i,
    {
        let c = s[i];
        if !('0' <= c && c <= '9') {
            assert(b[i - start] == c);
            return None;
        }
        let d: u64 = ((c as u32) - 48u32) as u64;
        assert(b.take(i + 1 - start).drop_last() =~= b.take(i - start));
        assert(b.take(i + 1 - start).last() == c);
        if acc > (bound - d) / 10 {
            proof {
                assert(acc * 10 + d > bound) by (nonlinear_arith)
                    requires
                        acc > (bound - d) / 10,
                        d <= bound || d > bound,
                        d < 10,
                ;
                if all_digits(b) {
                    lemma_digits_value_prefix(b, i + 1 - start);
                }
            }
            return None;
        }
        assert(acc * 10 + d <= bound) by (nonlinear_arith)
            requires
                acc <= (bound - d) / 10,
                d < 10,
        ;
        acc = acc * 10 + d;
        i = i + 1;
    }
    assert(b.take(n - start) =~= b);
    Some(acc)
}

/// `str::parse::<u64>`.
pub fn parse_u64(s: &[char]) -> (r: Option<u64>)
    ensures
        r == parse_u64_spec(s@),
{
    let start: usize = if s.len() > 0 && s[0] == '+' { 1 } else { 0 };
    assert(unsigned_body(s@) =~= s@.skip(start as int));
    parse_digits_from(s, start, u64::MAX)
}

/// `str::parse::<u32>`.
pub fn parse_u32(s: &[char]) -> (r: Option<u32>)
    ensures
        r == parse_u32_spec(s@),
{
    let start: usize = if s.len() > 0 && s[0] == '+' { 1 } else { 0 };
    assert(unsigned_body(s@) =~= s@.skip(start as int));
    match parse_digits_from(s, start, 4294967295u64) {
        Some(v) => Some(v as u32),
        None => None,
    }
}

/// `str::parse::<i32>`.
pub fn parse_i32(s: &[char]) -> (r: Option<i32>)
    ensures
        r == parse_i32_spec(s@),
{
    if s.len() > 0 && s[0] == '-' {
        assert(s@.drop_first() =~= s@.skip(1));
        match parse_digits_from(s, 1, 2147483648u64) {
            Some(v) => {
                let x: i64 = -(v as i64);
                Some(x as i32)
            },
            None => None,
        }
    } else {
        let start: usize = if s.len() > 0 && s[0] == '+' { 1 } else { 0 };
        assert(unsigned_body(s@) =~= s@.skip(start as int));
        match parse_digits_from(s, start, 2147483647u64) {
            Some(v) => Some(v as i32),
            None => None,
        }
    }
}

} // verus!
