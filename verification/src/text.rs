//! Text as sequences of characters: trimming, splitting and comparing.

use vstd::prelude::*;

verus! {

/// `String::push` of std: the character is appended at the end.
pub assume_specification[ String::push ](s: &mut String, c: char)
    ensures
        final(s)@ == old(s)@.push(c),
;

/// What `String::from_utf8_lossy` of std makes of a byte sequence.
pub uninterp spec fn utf8_lossy(bytes: Seq<u8>) -> Seq<char>;

/// Decodes `bytes`, through `String::from_utf8_lossy` of std. The text depends
/// on the bytes alone; bytes that are valid UTF-8 are decoded as they stand.
/// Where the replacement characters fall in other input is left unsaid.
#[verifier::external_body]
pub(crate) fn decode_lossy(bytes: &[u8]) -> (r: String)
    ensures
        r@ == utf8_lossy(bytes@),
        vstd::utf8::valid_utf8(bytes@) ==> r@ == vstd::utf8::decode_utf8(bytes@),
{
    String::from_utf8_lossy(bytes).into_owned()
}

/// The text of a byte sequence: what it encodes if it is valid UTF-8, and what
/// lossy decoding makes of it otherwise.
pub open spec fn decoded_of(bytes: Seq<u8>) -> Seq<char> {
    if vstd::utf8::valid_utf8(bytes) {
        vstd::utf8::decode_utf8(bytes)
    } else {
        utf8_lossy(bytes)
    }
}

/// Decodes `bytes`, through `std::str::from_utf8`, which succeeds exactly on valid
/// UTF-8 and gives the text that the bytes encode.
#[verifier::external_body]
pub(crate) fn decode_strict(bytes: &[u8]) -> (r: Option<String>)
    ensures
        match r {
            Some(t) => vstd::utf8::valid_utf8(bytes@) && t@ == vstd::utf8::decode_utf8(bytes@),
            None => !vstd::utf8::valid_utf8(bytes@),
        },
{
    match std::str::from_utf8(bytes) {
        Ok(s) => Some(s.to_owned()),
        Err(_) => None,
    }
}

/// Text that is encoded and decoded again is what it was.
pub proof fn law_text_survives_encoding(s: Seq<char>)
    ensures
        decoded_of(vstd::utf8::encode_utf8(s)) == s,
{
    vstd::utf8::encode_utf8_valid_utf8(s);
    vstd::utf8::encode_utf8_decode_utf8(s);
}

/// The characters that Unicode gives the `White_Space` property.
pub open spec fn is_white(c: char) -> bool {
    ||| '\u{9}' <= c <= '\u{d}'
    ||| c == ' '
    ||| c == '\u{85}'
    ||| c == '\u{a0}'
    ||| c == '\u{1680}'
    ||| '\u{2000}' <= c <= '\u{200a}'
    ||| c == '\u{2028}'
    ||| c == '\u{2029}'
    ||| c == '\u{202f}'
    ||| c == '\u{205f}'
    ||| c == '\u{3000}'
}

/// Tells whether `c` is white space.
pub fn white(c: char) -> (r: bool)
    ensures
        r == is_white(c),
{
    ('\u{9}' <= c && c <= '\u{d}') || c == ' ' || c == '\u{85}' || c == '\u{a0}' || c
        == '\u{1680}' || ('\u{2000}' <= c && c <= '\u{200a}') || c == '\u{2028}' || c
        == '\u{2029}' || c == '\u{202f}' || c == '\u{205f}' || c == '\u{3000}'
}

/// `s` without its leading white space.
pub open spec fn trim_start_of(s: Seq<char>) -> Seq<char>
    decreases s.len(),
{
    if s.len() > 0 && is_white(s[0]) {
        trim_start_of(s.skip(1))
    } else {
        s
    }
}

/// `s` without its trailing white space.
pub open spec fn trim_end_of(s: Seq<char>) -> Seq<char>
    decreases s.len(),
{
    if s.len() > 0 && is_white(s.last()) {
        trim_end_of(s.drop_last())
    } else {
        s
    }
}

/// `s` without the white space at either end.
pub open spec fn trim_of(s: Seq<char>) -> Seq<char> {
    trim_end_of(trim_start_of(s))
}

/// `s` without the run of `c` that it begins with.
pub open spec fn without_leading(s: Seq<char>, c: char) -> Seq<char>
    decreases s.len(),
{
    if s.len() > 0 && s[0] == c {
        without_leading(s.skip(1), c)
    } else {
        s
    }
}

/// The pieces of `s` between the occurrences of `c`; there is always at least one.
pub open spec fn split_on(s: Seq<char>, c: char) -> Seq<Seq<char>>
    decreases s.len(),
{
    let k = run_without(s, c);
    if k < s.len() {
        seq![s.take(k as int)] + split_on(s.skip(k as int + 1), c)
    } else {
        seq![s]
    }
}

/// How many characters stand in front of the first `c` of `s`.
pub open spec fn run_without(s: Seq<char>, c: char) -> nat
    decreases s.len(),
{
    if s.len() > 0 && s[0] != c {
        1 + run_without(s.skip(1), c)
    } else {
        0
    }
}

/// How many characters stand in front of the first white space of `s`.
pub open spec fn word_len(s: Seq<char>) -> nat
    decreases s.len(),
{
    if s.len() > 0 && !is_white(s[0]) {
        1 + word_len(s.skip(1))
    } else {
        0
    }
}

/// The maximal runs of characters of `s` that hold no white space.
pub open spec fn words_of(s: Seq<char>) -> Seq<Seq<char>>
    decreases s.len(),
{
    if s.len() == 0 {
        seq![]
    } else if is_white(s[0]) {
        words_of(s.skip(1))
    } else {
        let k = word_len(s);
        proof {
            lemma_word_len_bound(s);
        }
        seq![s.take(k as int)] + words_of(s.skip(k as int))
    }
}

/// A word is no longer than the text it stands in.
pub proof fn lemma_word_len_bound(s: Seq<char>)
    ensures
        word_len(s) <= s.len(),
    decreases s.len(),
{
    if s.len() > 0 && !is_white(s[0]) {
        lemma_word_len_bound(s.skip(1));
    }
}

/// The texts that a list of strings holds.
pub open spec fn texts(list: Seq<String>) -> Seq<Seq<char>> {
    list.map_values(|s: String| s@)
}

/// Trimming the start drops exactly the first `k` characters when those are
/// white and the next one, if any, is not.
proof fn lemma_trim_start(s: Seq<char>, k: int)
    requires
        0 <= k <= s.len(),
        forall|i: int| 0 <= i < k ==> is_white(#[trigger] s[i]),
        k < s.len() ==> !is_white(s[k]),
    ensures
        trim_start_of(s) == s.skip(k),
    decreases k,
{
    if k > 0 {
        let t = s.skip(1);
        assert forall|i: int| 0 <= i < k - 1 implies is_white(#[trigger] t[i]) by {
            assert(t[i] == s[i + 1]);
        }
        lemma_trim_start(t, k - 1);
        assert(t.skip(k - 1) =~= s.skip(k));
        assert(is_white(s[0]));
    } else {
        assert(s.skip(0) =~= s);
    }
}

/// Trimming the end keeps exactly the first `k` characters when those behind
/// them are white and the last of the kept, if any, is not.
proof fn lemma_trim_end(s: Seq<char>, k: int)
    requires
        0 <= k <= s.len(),
        forall|i: int| k <= i < s.len() ==> is_white(#[trigger] s[i]),
        k > 0 ==> !is_white(s[k - 1]),
    ensures
        trim_end_of(s) == s.take(k),
    decreases s.len(),
{
    if k < s.len() {
        let t = s.drop_last();
        assert forall|i: int| k <= i < t.len() implies is_white(#[trigger] t[i]) by {
            assert(t[i] == s[i]);
        }
        lemma_trim_end(t, k);
        assert(t.take(k) =~= s.take(k));
        assert(is_white(s.last()));
    } else {
        assert(s.take(k) =~= s);
    }
}

/// The start that trimming leaves is not white, and what it leaves is an end of `s`.
pub proof fn lemma_trim_start_shape(s: Seq<char>)
    ensures
        trim_start_of(s).len() <= s.len(),
        trim_start_of(s) == s.skip(s.len() - trim_start_of(s).len()),
        trim_start_of(s).len() > 0 ==> !is_white(trim_start_of(s)[0]),
    decreases s.len(),
{
    if s.len() > 0 && is_white(s[0]) {
        let t = s.skip(1);
        lemma_trim_start_shape(t);
        assert(t.skip(t.len() - trim_start_of(t).len()) =~= s.skip(
            s.len() - trim_start_of(t).len(),
        ));
    } else {
        assert(s.skip(0) =~= s);
    }
}

/// The end that trimming leaves is not white, and what it leaves is a start of `s`.
pub proof fn lemma_trim_end_shape(s: Seq<char>)
    ensures
        trim_end_of(s).len() <= s.len(),
        trim_end_of(s) == s.take(trim_end_of(s).len() as int),
        trim_end_of(s).len() > 0 ==> !is_white(trim_end_of(s).last()),
    decreases s.len(),
{
    if s.len() > 0 && is_white(s.last()) {
        let t = s.drop_last();
        lemma_trim_end_shape(t);
        assert(t.take(trim_end_of(t).len() as int) =~= s.take(trim_end_of(t).len() as int));
    } else {
        assert(s.take(s.len() as int) =~= s);
    }
}

/// What trimming leaves is a stretch of `s` that neither begins nor ends with
/// white space, and trimming it again changes nothing.
pub proof fn lemma_trim(s: Seq<char>)
    ensures
        trim_of(s).len() <= s.len(),
        exists|from: int|
            0 <= from && from + trim_of(s).len() <= s.len() && trim_of(s) == #[trigger] s.subrange(
                from,
                from + trim_of(s).len(),
            ),
        trim_of(s).len() > 0 ==> !is_white(trim_of(s)[0]) && !is_white(trim_of(s).last()),
        trim_of(trim_of(s)) == trim_of(s),
{
    let t = trim_start_of(s);
    lemma_trim_start_shape(s);
    lemma_trim_end_shape(t);
    let u = trim_of(s);
    let from = s.len() - t.len();
    assert(u =~= s.subrange(from, from + u.len()));
    lemma_trim_start(u, 0);
    assert(u.skip(0) =~= u);
    lemma_trim_end(u, u.len() as int);
    assert(u.take(u.len() as int) =~= u);
}

/// The characters of `s`, in order.
pub fn chars_of(s: &str) -> (r: Vec<char>)
    ensures
        r@ == s@,
{
    let mut out: Vec<char> = Vec::new();
    for c in it: s.chars()
        invariant
            out@ == it.seq().take(it.index() as int),
            it.seq() == s@,
    {
        out.push(c);
    }
    out
}

/// The characters of `chars` from `from` up to `to`, as a string.
pub fn text_of(chars: &Vec<char>, from: usize, to: usize) -> (r: String)
    requires
        from <= to <= chars@.len(),
    ensures
        r@ == chars@.subrange(from as int, to as int),
{
    let mut out = String::new();
    let mut i: usize = from;
    while i < to
        invariant
            from <= i <= to <= chars@.len(),
            out@ == chars@.subrange(from as int, i as int),
        decreases to - i,
    {
        out.push(chars[i]);
        assert(chars@.subrange(from as int, i + 1) =~= chars@.subrange(from as int, i as int).push(
            chars@[i as int],
        ));
        i = i + 1;
    }
    out
}

/// Tells whether two texts are the same.
pub fn same_text(a: &str, b: &str) -> (r: bool)
    ensures
        r == (a@ == b@),
{
    a.to_owned() == b.to_owned()
}

/// Trims white space off both ends.
pub fn trim(s: &str) -> (r: String)
    ensures
        r@ == trim_of(s@),
{
    let chars = chars_of(s);
    let n: usize = chars.len();
    let mut from: usize = 0;
    while from < n && white(chars[from])
        invariant
            from <= n == chars@.len(),
            forall|i: int| 0 <= i < from ==> is_white(#[trigger] chars@[i]),
        decreases n - from,
    {
        from = from + 1;
    }
    let mut to: usize = n;
    while to > from && white(chars[to - 1])
        invariant
            from <= to <= n == chars@.len(),
            forall|i: int| to <= i < n ==> is_white(#[trigger] chars@[i]),
        decreases to,
    {
        to = to - 1;
    }
    proof {
        let t = chars@.skip(from as int);
        lemma_trim_start(chars@, from as int);
        assert forall|i: int| to - from <= i < t.len() implies is_white(#[trigger] t[i]) by {
            assert(t[i] == chars@[i + from]);
        }
        lemma_trim_end(t, to - from);
        assert(t.take(to - from) =~= chars@.subrange(from as int, to as int));
    }
    text_of(&chars, from, to)
}

/// Drops the run of `c` that `s` begins with.
pub fn trim_leading(s: &str, c: char) -> (r: String)
    ensures
        r@ == without_leading(s@, c),
{
    let chars = chars_of(s);
    let n: usize = chars.len();
    let mut from: usize = 0;
    assert(chars@.skip(0) =~= chars@);
    while from < n && chars[from] == c
        invariant
            from <= n == chars@.len(),
            without_leading(chars@, c) == without_leading(chars@.skip(from as int), c),
        decreases n - from,
    {
        assert(chars@.skip(from as int).skip(1) =~= chars@.skip(from + 1));
        from = from + 1;
    }
    assert(chars@.skip(from as int) =~= chars@.subrange(from as int, n as int));
    text_of(&chars, from, n)
}

/// If `s` begins with `prefix`, what stands behind it.
pub fn strip_start(s: &str, prefix: &str) -> (r: Option<String>)
    ensures
        match r {
            Some(rest) => s@ == prefix@ + rest@,
            None => !prefix@.is_prefix_of(s@),
        },
{
    let chars = chars_of(s);
    let head = chars_of(prefix);
    if chars.len() < head.len() {
        return None;
    }
    let mut i: usize = 0;
    while i < head.len()
        invariant
            i <= head@.len() <= chars@.len(),
            chars@ == s@,
            head@ == prefix@,
            forall|j: int| 0 <= j < i ==> #[trigger] chars@[j] == head@[j],
        decreases head@.len() - i,
    {
        if chars[i] != head[i] {
            assert(prefix@[i as int] != s@[i as int]);
            return None;
        }
        i = i + 1;
    }
    let rest = text_of(&chars, head.len(), chars.len());
    assert(s@ =~= prefix@ + rest@);
    Some(rest)
}

proof fn lemma_run_without(s: Seq<char>, c: char, k: int)
    requires
        0 <= k <= s.len(),
        forall|i: int| 0 <= i < k ==> #[trigger] s[i] != c,
        k < s.len() ==> s[k] == c,
    ensures
        run_without(s, c) == k,
    decreases k,
{
    if k > 0 {
        let t = s.skip(1);
        assert forall|i: int| 0 <= i < k - 1 implies #[trigger] t[i] != c by {
            assert(t[i] == s[i + 1]);
        }
        lemma_run_without(t, c, k - 1);
        assert(s[0] != c);
    }
}

/// Splits `s` at every `c`.
pub fn split(s: &str, c: char) -> (r: Vec<String>)
    ensures
        texts(r@) == split_on(s@, c),
{
    let chars = chars_of(s);
    let n: usize = chars.len();
    let mut out: Vec<String> = Vec::new();
    let mut from: usize = 0;
    let mut i: usize = 0;
    assert(chars@.skip(0) =~= chars@);
    assert(texts(out@) + split_on(chars@, c) =~= split_on(chars@, c));
    while i < n
        invariant
            from <= i <= n == chars@.len(),
            forall|j: int| from <= j < i ==> #[trigger] chars@[j] != c,
            texts(out@) + split_on(chars@.skip(from as int), c) == split_on(chars@, c),
        decreases n - i,
    {
        if chars[i] == c {
            let piece = text_of(&chars, from, i);
            proof {
                let t = chars@.skip(from as int);
                assert forall|j: int| 0 <= j < i - from implies #[trigger] t[j] != c by {
                    assert(t[j] == chars@[j + from]);
                }
                lemma_run_without(t, c, i - from);
                assert(t.take(i - from) =~= piece@);
                assert(t.skip(i - from + 1) =~= chars@.skip(i + 1));
                assert(texts(out@.push(piece)) =~= texts(out@).push(piece@));
                assert(texts(out@) + (seq![piece@] + split_on(chars@.skip(i + 1), c)) =~= texts(
                    out@.push(piece),
                ) + split_on(chars@.skip(i + 1), c));
            }
            out.push(piece);
            from = i + 1;
        }
        i = i + 1;
    }
    let piece = text_of(&chars, from, n);
    proof {
        let t = chars@.skip(from as int);
        assert forall|j: int| 0 <= j < n - from implies #[trigger] t[j] != c by {
            assert(t[j] == chars@[j + from]);
        }
        lemma_run_without(t, c, n - from);
        assert(t =~= piece@);
        assert(texts(out@.push(piece)) =~= texts(out@) + seq![piece@]);
    }
    out.push(piece);
    out
}

proof fn lemma_word_len(s: Seq<char>, k: int)
    requires
        0 <= k <= s.len(),
        forall|i: int| 0 <= i < k ==> !is_white(#[trigger] s[i]),
        k < s.len() ==> is_white(s[k]),
    ensures
        word_len(s) == k,
    decreases k,
{
    if k > 0 {
        let t = s.skip(1);
        assert forall|i: int| 0 <= i < k - 1 implies !is_white(#[trigger] t[i]) by {
            assert(t[i] == s[i + 1]);
        }
        lemma_word_len(t, k - 1);
        assert(!is_white(s[0]));
    }
}

/// Splits `s` at its white space.
pub fn words(s: &str) -> (r: Vec<String>)
    ensures
        texts(r@) == words_of(s@),
{
    let chars = chars_of(s);
    let n: usize = chars.len();
    let mut out: Vec<String> = Vec::new();
    let mut i: usize = 0;
    assert(chars@.skip(0) =~= chars@);
    assert(texts(out@) + words_of(chars@) =~= words_of(chars@));
    while i < n
        invariant
            i <= n == chars@.len(),
            texts(out@) + words_of(chars@.skip(i as int)) == words_of(chars@),
        decreases n - i,
    {
        let ghost t = chars@.skip(i as int);
        if white(chars[i]) {
            assert(t.skip(1) =~= chars@.skip(i + 1));
            i = i + 1;
        } else {
            let from: usize = i;
            while i < n && !white(chars[i])
                invariant
                    from <= i <= n == chars@.len(),
                    forall|j: int| from <= j < i ==> !is_white(#[trigger] chars@[j]),
                decreases n - i,
            {
                i = i + 1;
            }
            let word = text_of(&chars, from, i);
            proof {
                assert forall|j: int| 0 <= j < i - from implies !is_white(#[trigger] t[j]) by {
                    assert(t[j] == chars@[j + from]);
                }
                lemma_word_len(t, i - from);
                assert(t.take(i - from) =~= word@);
                assert(t.skip(i - from) =~= chars@.skip(i as int));
                assert(!is_white(t[0]));
                assert(texts(out@.push(word)) =~= texts(out@).push(word@));
                assert(texts(out@) + (seq![word@] + words_of(chars@.skip(i as int))) =~= texts(
                    out@.push(word),
                ) + words_of(chars@.skip(i as int)));
            }
            out.push(word);
        }
    }
    assert(chars@.skip(n as int) =~= seq![]);
    assert(texts(out@) + words_of(chars@.skip(n as int)) =~= texts(out@));
    out
}

/// Appends a copy of `item` to `list`.
pub fn push_text(list: &mut Vec<String>, item: &str)
    ensures
        texts(final(list)@) == texts(old(list)@).push(item@),
{
    let copy = item.to_owned();
    assert(texts(list@.push(copy)) =~= texts(list@).push(item@));
    list.push(copy);
}

/// A text whose ends are not white is left alone by trimming.
pub proof fn lemma_trimmed(s: Seq<char>)
    requires
        s.len() > 0 ==> !is_white(s[0]) && !is_white(s.last()),
    ensures
        trim_of(s) == s,
{
}

/// Splitting takes the piece in front of the first separator off.
pub proof fn lemma_split_first(a: Seq<char>, c: char, rest: Seq<char>)
    requires
        !a.contains(c),
    ensures
        split_on(a.push(c) + rest, c) == seq![a] + split_on(rest, c),
{
    let s = a.push(c) + rest;
    let k = a.len() as int;
    assert forall|i: int| 0 <= i < k implies #[trigger] s[i] != c by {
        assert(s[i] == a[i]);
        assert(a.contains(a[i]));
    }
    lemma_run_without(s, c, k);
    assert(s.take(k) =~= a);
    assert(s.skip(k + 1) =~= rest);
}

/// A text without the separator is one piece.
pub proof fn lemma_split_none(a: Seq<char>, c: char)
    requires
        !a.contains(c),
    ensures
        split_on(a, c) == seq![a],
{
    assert forall|i: int| 0 <= i < a.len() implies #[trigger] a[i] != c by {
        assert(a.contains(a[i]));
    }
    lemma_run_without(a, c, a.len() as int);
}

/// A word in front of white space is taken off as it is.
pub proof fn lemma_first_word(w: Seq<char>, gap: char, rest: Seq<char>)
    requires
        w.len() > 0,
        forall|i: int| 0 <= i < w.len() ==> !is_white(#[trigger] w[i]),
        is_white(gap),
    ensures
        words_of(w.push(gap) + rest) == seq![w] + words_of(rest),
{
    let s = w.push(gap) + rest;
    let k = w.len() as int;
    assert forall|i: int| 0 <= i < k implies !is_white(#[trigger] s[i]) by {
        assert(s[i] == w[i]);
    }
    lemma_word_len(s, k);
    assert(s.take(k) =~= w);
    assert(!is_white(s[0]));
    let t = s.skip(k);
    assert(t[0] == gap);
    assert(t.skip(1) =~= rest);
    assert(words_of(t) == words_of(rest));
}

/// No `c` stands in `s`.
pub open spec fn free_of(s: Seq<char>, c: char) -> bool {
    forall|i: int| 0 <= i < s.len() ==> #[trigger] s[i] != c
}

/// No `c` stands in `s` from `from` up to `to`, looked up one by one.
pub open spec fn clear_between(s: Seq<char>, c: char, from: int, to: int) -> bool
    decreases to - from,
{
    from >= to || (s[from] != c && clear_between(s, c, from + 1, to))
}

/// Two stretches without `c` that meet make one.
pub proof fn lemma_clear_join(s: Seq<char>, c: char, from: int, mid: int, to: int)
    requires
        from <= mid <= to,
        clear_between(s, c, from, mid),
        clear_between(s, c, mid, to),
    ensures
        clear_between(s, c, from, to),
    decreases mid - from,
{
    if from < mid {
        lemma_clear_join(s, c, from + 1, mid, to);
    }
}

/// What was looked up one by one holds of the whole stretch.
pub proof fn lemma_clear_between(s: Seq<char>, c: char, from: int, to: int)
    requires
        0 <= from <= to <= s.len(),
        clear_between(s, c, from, to),
    ensures
        free_of(s.subrange(from, to), c),
    decreases to - from,
{
    if from < to {
        lemma_clear_between(s, c, from + 1, to);
        let rest = s.subrange(from + 1, to);
        let all = s.subrange(from, to);
        assert forall|i: int| 0 <= i < all.len() implies #[trigger] all[i] != c by {
            if i > 0 {
                assert(all[i] == rest[i - 1]);
            }
        }
    }
}

/// The first separator stands behind a stretch without one.
proof fn lemma_run_shape(s: Seq<char>, c: char)
    ensures
        run_without(s, c) <= s.len(),
        free_of(s.take(run_without(s, c) as int), c),
        run_without(s, c) < s.len() ==> s[run_without(s, c) as int] == c,
    decreases s.len(),
{
    if s.len() > 0 && s[0] != c {
        let t = s.skip(1);
        lemma_run_shape(t, c);
        let k = run_without(s, c) as int;
        let a = s.take(k);
        let b = t.take(k - 1);
        assert forall|i: int| 0 <= i < a.len() implies #[trigger] a[i] != c by {
            if i > 0 {
                assert(a[i] == b[i - 1]);
            }
        }
    }
}

/// The pieces of two texts put together: those of either, with the last of the
/// one and the first of the other joined.
pub proof fn lemma_split_join(s: Seq<char>, t: Seq<char>, c: char)
    ensures
        split_on(s, c).len() > 0,
        split_on(t, c).len() > 0,
        split_on(s + t, c) == split_on(s, c).drop_last() + seq![
            split_on(s, c).last() + split_on(t, c)[0],
        ] + split_on(t, c).skip(1),
    decreases s.len(),
{
    let u = s + t;
    let k = run_without(s, c) as int;
    lemma_run_shape(s, c);
    let front = s.take(k);
    if k < s.len() {
        let rest = s.skip(k + 1);
        assert forall|i: int| 0 <= i < k implies #[trigger] u[i] != c by {
            assert(u[i] == front[i]);
        }
        lemma_run_without(u, c, k);
        assert(u.take(k) =~= front);
        assert(u.skip(k + 1) =~= rest + t);
        lemma_split_join(rest, t, c);
        assert(split_on(s, c) =~= seq![front] + split_on(rest, c));
        assert(split_on(s, c).drop_last() =~= seq![front] + split_on(rest, c).drop_last());
        assert(split_on(s, c).last() == split_on(rest, c).last());
    } else {
        assert(front =~= s);
        let m = run_without(t, c) as int;
        lemma_run_shape(t, c);
        let first = t.take(m);
        assert forall|i: int| 0 <= i < k + m implies #[trigger] u[i] != c by {
            if i < k {
                assert(u[i] == front[i]);
            } else {
                assert(u[i] == first[i - k]);
            }
        }
        lemma_run_without(u, c, k + m);
        assert(split_on(s, c).drop_last() =~= Seq::<Seq<char>>::empty());
        if m < t.len() {
            assert(u.take(k + m) =~= s + first);
            assert(u.skip(k + m + 1) =~= t.skip(m + 1));
            assert(split_on(t, c).skip(1) =~= split_on(t.skip(m + 1), c));
        } else {
            assert(split_on(t, c) =~= seq![t]);
            assert(split_on(t, c).skip(1) =~= Seq::<Seq<char>>::empty());
        }
    }
}

/// From position `from` up to `to`, `t` is what stands in `s` from `at` on, looked
/// up one by one.
pub open spec fn same_between(s: Seq<char>, at: int, t: Seq<char>, from: int, to: int) -> bool
    decreases to - from,
{
    from >= to || (s[at + from] == t[from] && same_between(s, at, t, from + 1, to))
}

/// What was looked up one by one holds of the whole stretch.
pub proof fn lemma_same_between(s: Seq<char>, at: int, t: Seq<char>, from: int, to: int)
    requires
        0 <= from <= to <= t.len(),
        0 <= at,
        at + to <= s.len(),
        same_between(s, at, t, from, to),
    ensures
        s.subrange(at + from, at + to) == t.subrange(from, to),
    decreases to - from,
{
    if from < to {
        lemma_same_between(s, at, t, from + 1, to);
        let a = s.subrange(at + from, at + to);
        let b = t.subrange(from, to);
        assert(a =~= seq![s[at + from]] + s.subrange(at + from + 1, at + to));
        assert(b =~= seq![t[from]] + t.subrange(from + 1, to));
    } else {
        assert(s.subrange(at + from, at + to) =~= t.subrange(from, to));
    }
}

/// Two stretches that agree and meet make one.
pub proof fn lemma_same_join(s: Seq<char>, at: int, t: Seq<char>, from: int, mid: int, to: int)
    requires
        from <= mid <= to,
        same_between(s, at, t, from, mid),
        same_between(s, at, t, mid, to),
    ensures
        same_between(s, at, t, from, to),
    decreases mid - from,
{
    if from < mid {
        lemma_same_join(s, at, t, from + 1, mid, to);
    }
}

/// Trimming takes the white space off both ends and nothing else.
pub proof fn law_trim_takes_white_only(before: Seq<char>, s: Seq<char>, after: Seq<char>)
    requires
        forall|i: int| 0 <= i < before.len() ==> is_white(#[trigger] before[i]),
        forall|i: int| 0 <= i < after.len() ==> is_white(#[trigger] after[i]),
        s.len() > 0,
        !is_white(s[0]),
        !is_white(s.last()),
    ensures
        trim_of(before + s + after) == s,
{
    let all = before + s + after;
    let k = before.len() as int;
    assert forall|i: int| 0 <= i < k implies is_white(#[trigger] all[i]) by {
        assert(all[i] == before[i]);
    }
    assert(all[k] == s[0]);
    lemma_trim_start(all, k);
    let rest = all.skip(k);
    assert(rest =~= s + after);
    let m = s.len() as int;
    assert forall|i: int| m <= i < rest.len() implies is_white(#[trigger] rest[i]) by {
        assert(rest[i] == after[i - m]);
    }
    assert(rest[m - 1] == s.last());
    lemma_trim_end(rest, m);
    assert(rest.take(m) =~= s);
}

/// Nothing is left of white space.
pub proof fn law_trim_of_white_is_empty(s: Seq<char>)
    requires
        forall|i: int| 0 <= i < s.len() ==> is_white(#[trigger] s[i]),
    ensures
        trim_of(s).len() == 0,
{
    lemma_trim(s);
    let t = trim_of(s);
    if t.len() > 0 {
        let from = choose|from: int|
            0 <= from && from + t.len() <= s.len() && t == #[trigger] s.subrange(
                from,
                from + t.len(),
            );
        assert(t[0] == s[from]);
    }
}

/// Signs in front are taken off, all of them, and nothing behind them.
pub proof fn law_leading_signs_are_taken(c: char, n: nat, s: Seq<char>)
    requires
        s.len() > 0 ==> s[0] != c,
    ensures
        without_leading(Seq::new(n, |i: int| c) + s, c) == s,
    decreases n,
{
    let all = Seq::new(n, |i: int| c) + s;
    if n == 0 {
        assert(all =~= s);
    } else {
        let m = (n - 1) as nat;
        law_leading_signs_are_taken(c, m, s);
        assert(all.skip(1) =~= Seq::new(m, |i: int| c) + s);
        assert(all[0] == c);
    }
}

/// Pieces that hold no separator, put together with separators, are what the text
/// is split into.
pub proof fn law_split_undoes_joining(a: Seq<char>, c: char, rest: Seq<char>)
    requires
        !a.contains(c),
    ensures
        split_on(a, c) == seq![a],
        split_on(a.push(c) + rest, c) == seq![a] + split_on(rest, c),
{
    lemma_split_none(a, c);
    lemma_split_first(a, c, rest);
}

/// Words are what stands between white space: a word in front of white space is the
/// first, and white space in front of a text adds none.
pub proof fn law_words_stand_between_white_space(w: Seq<char>, gap: char, rest: Seq<char>)
    requires
        w.len() > 0,
        forall|i: int| 0 <= i < w.len() ==> !is_white(#[trigger] w[i]),
        is_white(gap),
    ensures
        words_of(w.push(gap) + rest) == seq![w] + words_of(rest),
        words_of(seq![gap] + rest) == words_of(rest),
        words_of(seq![]) == Seq::<Seq<char>>::empty(),
{
    lemma_first_word(w, gap, rest);
    assert((seq![gap] + rest).skip(1) =~= rest);
}

} // verus!
