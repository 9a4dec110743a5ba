//! Captions: what a user may write on a record, and the date that stands in.

use vstd::prelude::*;

use crate::number;
use crate::text;

verus! {

/// How many characters a caption may have.
pub const CAPTION_LIMIT: usize = 40;

/// The characters that would break out of a quoted `drawtext` argument.
pub open spec fn breaks_drawtext(c: char) -> bool {
    c == '\'' || c == '\\' || c == ':' || c == '%' || c == '{' || c == '}' || c == '\n' || c
        == '\r'
}

/// The first `n` items of `s`, or all of them if there are fewer.
pub open spec fn first_of(s: Seq<char>, n: nat) -> Seq<char> {
    if s.len() <= n {
        s
    } else {
        s.take(n as int)
    }
}

/// The characters of `s` that do no harm.
pub open spec fn harmless_of(s: Seq<char>) -> Seq<char> {
    s.filter(|c: char| !breaks_drawtext(c))
}

/// A caption made safe: without the characters that break `drawtext`, cut to
/// the limit, and trimmed.
pub open spec fn safe_caption_of(s: Seq<char>) -> Seq<char> {
    text::trim_of(first_of(harmless_of(s), CAPTION_LIMIT as nat))
}

/// Strips the characters that would break a `drawtext` expression, and caps the
/// length.
pub fn safe_caption(s: &str) -> (r: String)
    ensures
        r@ == safe_caption_of(s@),
{
    let chars = text::chars_of(s);
    let n: usize = chars.len();
    let mut kept: Vec<char> = Vec::new();
    let mut i: usize = 0;
    assert(harmless_of(chars@.take(0)) =~= seq![]) by {
        reveal_with_fuel(Seq::filter, 1);
    }
    while i < n
        invariant
            i <= n == chars@.len(),
            kept@ == first_of(harmless_of(chars@.take(i as int)), CAPTION_LIMIT as nat),
        decreases n - i,
    {
        let c = chars[i];
        let harm = c == '\'' || c == '\\' || c == ':' || c == '%' || c == '{' || c == '}' || c
            == '\n' || c == '\r';
        proof {
            let now = chars@.take(i as int);
            let next = chars@.take(i + 1);
            assert(next.drop_last() =~= now);
            assert(next.last() == c);
            reveal_with_fuel(Seq::filter, 1);
            assert(harmless_of(next) == if breaks_drawtext(c) {
                harmless_of(now)
            } else {
                harmless_of(now).push(c)
            });
        }
        if !harm && kept.len() < CAPTION_LIMIT {
            kept.push(c);
        }
        assert(kept@ =~= first_of(harmless_of(chars@.take(i + 1)), CAPTION_LIMIT as nat));
        i = i + 1;
    }
    assert(chars@.take(n as int) =~= s@);
    let short = text::text_of(&kept, 0, kept.len());
    assert(short@ =~= kept@);
    text::trim(short.as_str())
}

/// Two decimal digits.
pub open spec fn two_digits(n: nat) -> Seq<char> {
    seq![number::digit(n / 10), number::digit(n % 10)]
}

/// A year from 1000 on, with a plus sign in front once it has five digits.
pub open spec fn year_text(y: nat) -> Seq<char> {
    if y <= 9999 {
        number::decimal(y)
    } else {
        seq!['+'] + number::decimal(y)
    }
}

/// A date as day, month and year.
pub open spec fn date_text(d: nat, m: nat, y: nat) -> Seq<char> {
    two_digits(d).push('.') + two_digits(m).push('.') + year_text(y)
}

/// How many days month `m` of year `y` has.
pub open spec fn days_in(m: nat, y: nat) -> nat {
    if m == 2 {
        if y % 4 == 0 && (y % 100 != 0 || y % 400 == 0) {
            29
        } else {
            28
        }
    } else if m == 4 || m == 6 || m == 9 || m == 11 {
        30
    } else {
        31
    }
}

/// Tells whether there is such a day in the time that computer clocks count.
pub open spec fn is_day(d: nat, m: nat, y: nat) -> bool {
    1 <= m <= 12 && 1 <= d <= days_in(m, y) && 1969 <= y <= 262143
}

/// Tells whether `s` is a date.
pub open spec fn is_date_text(s: Seq<char>) -> bool {
    exists|d: nat, m: nat, y: nat| is_day(d, m, y) && s == #[trigger] date_text(d, m, y)
}

/// Today's date where the program runs, through `chrono::Local::now` and
/// `DateTime::format` of chrono with `%d.%m.%Y`. The clock decides which date it
/// is: all that is said is that it is a day of the calendar, with two digits for
/// day and month and at least four for the year. chrono's clock starts at 1970 in
/// UTC, so the local year is 1969 or later; it ends with 262143. With the clock
/// set to a time before 1970 chrono panics.
#[verifier::external_body]
fn today() -> (r: String)
    ensures
        is_date_text(r@),
{
    chrono::Local::now().format("%d.%m.%Y").to_string()
}

/// Tells whether `date` is what a look at the clock gave: `today` returned it.
/// Nothing but such a look shows this of a text.
pub closed spec fn read_off_the_clock(date: Seq<char>) -> bool {
    exists|s: String| #[trigger] call_ensures(today, (), s) && s@ == date
}

/// What was read off the clock is what a call of `today` returned, and nothing
/// else: no text that was made up passes for it.
proof fn law_only_the_clock_gives_dates(date: Seq<char>)
    ensures
        read_off_the_clock(date) <==> exists|s: String|
            #[trigger] call_ensures(today, (), s) && s@ == date,
{
}

/// What was read off the clock is a day of the calendar.
pub proof fn law_clock_gives_dates(date: Seq<char>)
    requires
        read_off_the_clock(date),
    ensures
        is_date_text(date),
{
}

/// The caption for what the user wrote: made safe, or `date` if nothing is left.
pub open spec fn caption_or_of(written: Seq<char>, date: Seq<char>) -> Seq<char> {
    if safe_caption_of(written).len() == 0 {
        date
    } else {
        safe_caption_of(written)
    }
}

/// The caption for what the user wrote: made safe, or `date` if nothing is left.
pub fn caption_or(written: &str, date: &str) -> (r: String)
    ensures
        r@ == caption_or_of(written@, date@),
{
    let safe = safe_caption(written);
    if safe.as_str().is_empty() {
        date.to_owned()
    } else {
        safe
    }
}

/// The caption for what the user wrote: made safe, or the date that the clock gave
/// in this call if nothing is left.
pub fn caption_for(written: &str) -> (r: String)
    ensures
        safe_caption_of(written@).len() > 0 ==> r@ == safe_caption_of(written@),
        safe_caption_of(written@).len() == 0 ==> is_date_text(r@),
        safe_caption_of(written@).len() == 0 ==> read_off_the_clock(r@),
{
    let safe = safe_caption(written);
    if safe.as_str().is_empty() {
        let date = today();
        caption_or(written, date.as_str())
    } else {
        safe
    }
}

/// Filtering a sequence whose items all pass leaves it as it is.
proof fn lemma_harmless_kept(s: Seq<char>)
    requires
        forall|i: int| 0 <= i < s.len() ==> !breaks_drawtext(#[trigger] s[i]),
    ensures
        harmless_of(s) == s,
    decreases s.len(),
{
    reveal_with_fuel(Seq::filter, 1);
    if s.len() > 0 {
        let t = s.drop_last();
        assert forall|i: int| 0 <= i < t.len() implies !breaks_drawtext(#[trigger] t[i]) by {
            assert(t[i] == s[i]);
        }
        lemma_harmless_kept(t);
        assert(!breaks_drawtext(s.last()));
        assert(t.push(s.last()) =~= s);
    } else {
        assert(harmless_of(s) =~= s);
    }
}

/// What a caption has to be before it may stand in a filter graph.
pub open spec fn fit_for_drawtext(s: Seq<char>) -> bool {
    &&& s.len() <= CAPTION_LIMIT
    &&& forall|i: int| 0 <= i < s.len() ==> !breaks_drawtext(#[trigger] s[i])
    &&& s.len() > 0 ==> !text::is_white(s[0]) && !text::is_white(s.last())
}

/// Whatever the user wrote, the safe caption holds no character that breaks
/// `drawtext`, is within the limit, and neither begins nor ends with white
/// space.
pub proof fn law_safe_caption_is_fit(s: Seq<char>)
    ensures
        fit_for_drawtext(safe_caption_of(s)),
{
    let keep = |c: char| !breaks_drawtext(c);
    let f = first_of(harmless_of(s), CAPTION_LIMIT as nat);
    let r = safe_caption_of(s);
    text::lemma_trim(f);
    let from = choose|from: int|
        0 <= from && from + r.len() <= f.len() && r == #[trigger] f.subrange(from, from + r.len());
    assert forall|i: int| 0 <= i < r.len() implies !breaks_drawtext(#[trigger] r[i]) by {
        assert(r[i] == f[from + i]);
        assert(f[from + i] == harmless_of(s)[from + i]);
        s.lemma_filter_pred(keep, from + i);
    }
}

/// A caption that is fit already is kept letter for letter.
pub proof fn law_fit_caption_is_kept(s: Seq<char>)
    requires
        fit_for_drawtext(s),
    ensures
        safe_caption_of(s) == s,
{
    lemma_harmless_kept(s);
    assert(text::trim_of(s) == s);
}

/// Making a caption safe twice is the same as making it safe once.
pub proof fn law_safe_caption_idempotent(s: Seq<char>)
    ensures
        safe_caption_of(safe_caption_of(s)) == safe_caption_of(s),
{
    law_safe_caption_is_fit(s);
    law_fit_caption_is_kept(safe_caption_of(s));
}

proof fn lemma_year_len(y: nat)
    ensures
        1000 <= y <= 9999 ==> number::decimal(y).len() == 4,
        y <= 999999 ==> number::decimal(y).len() <= 6,
{
    reveal_with_fuel(number::decimal, 7);
}

/// A date is never empty, is fit to stand in a filter graph, and has ten
/// characters up to the year 9999.
pub proof fn law_date_is_fit(d: nat, m: nat, y: nat)
    requires
        is_day(d, m, y),
    ensures
        date_text(d, m, y).len() > 0,
        fit_for_drawtext(date_text(d, m, y)),
        y <= 9999 ==> date_text(d, m, y).len() == 10,
{
    lemma_year_len(y);
    number::lemma_decimal_digits(y);
    let s = date_text(d, m, y);
    let n = number::decimal(y);
    assert(s.last() == n.last());
    assert('0' <= n[n.len() - 1] <= '9');
    assert forall|i: int| 0 <= i < s.len() implies !breaks_drawtext(#[trigger] s[i]) by {
        if i >= 6 {
            assert(s[i] == year_text(y)[i - 6]);
            if y <= 9999 {
                assert('0' <= n[i - 6] <= '9');
            } else if i > 6 {
                assert(s[i] == n[i - 7]);
                assert('0' <= n[i - 7] <= '9');
            }
        }
    }
}

/// Whatever the user wrote, and whatever the date is, the caption that is used
/// is not empty and is fit to stand in a filter graph.
pub proof fn law_caption_is_usable(written: Seq<char>, date: Seq<char>)
    requires
        is_date_text(date),
    ensures
        caption_or_of(written, date).len() > 0,
        fit_for_drawtext(caption_or_of(written, date)),
{
    law_safe_caption_is_fit(written);
    let (d, m, y) = choose|d: nat, m: nat, y: nat|
        is_day(d, m, y) && date == #[trigger] date_text(d, m, y);
    law_date_is_fit(d, m, y);
}

/// A character that breaks `drawtext` is as good as not written.
pub proof fn law_breaking_character_is_dropped(a: Seq<char>, c: char, b: Seq<char>)
    requires
        c == '\'' || c == '\\' || c == ':' || c == '%' || c == '{' || c == '}' || c == '\n' || c
            == '\r',
    ensures
        safe_caption_of(a.push(c) + b) == safe_caption_of(a + b),
    decreases b.len(),
{
    lemma_breaking_dropped(a, c, b);
}

proof fn lemma_breaking_dropped(a: Seq<char>, c: char, b: Seq<char>)
    requires
        breaks_drawtext(c),
    ensures
        harmless_of(a.push(c) + b) == harmless_of(a + b),
    decreases b.len(),
{
    reveal_with_fuel(Seq::filter, 1);
    let s = a.push(c) + b;
    let t = a + b;
    if b.len() == 0 {
        assert(s =~= a.push(c));
        assert(t =~= a);
        assert(s.drop_last() =~= a);
    } else {
        lemma_breaking_dropped(a, c, b.drop_last());
        assert(s.drop_last() =~= a.push(c) + b.drop_last());
        assert(t.drop_last() =~= a + b.drop_last());
        assert(s.last() == t.last());
    }
}

/// Of what is left the first 40 characters count, and the white space around them
/// is taken off.
pub proof fn law_caption_is_cut_and_trimmed(a: Seq<char>, b: Seq<char>)
    requires
        forall|i: int|
            0 <= i < a.len() ==> !(#[trigger] a[i] == '\'' || a[i] == '\\' || a[i] == ':' || a[i]
                == '%' || a[i] == '{' || a[i] == '}' || a[i] == '\n' || a[i] == '\r'),
        a.len() <= 40,
        a.len() < 40 ==> b.len() == 0,
    ensures
        safe_caption_of(a + b) == text::trim_of(a),
{
    lemma_harmless_kept(a);
    lemma_harmless_of_sum(a, b);
    assert(first_of(harmless_of(a) + harmless_of(b), 40) =~= a) by {
        if b.len() == 0 {
            reveal_with_fuel(Seq::filter, 1);
            assert(harmless_of(b) =~= seq![]);
        }
    }
}

proof fn lemma_harmless_of_sum(a: Seq<char>, b: Seq<char>)
    ensures
        harmless_of(a + b) == harmless_of(a) + harmless_of(b),
    decreases b.len(),
{
    reveal_with_fuel(Seq::filter, 1);
    if b.len() == 0 {
        assert(a + b =~= a);
        assert(harmless_of(b) =~= seq![]);
        assert(harmless_of(a) + harmless_of(b) =~= harmless_of(a));
    } else {
        lemma_harmless_of_sum(a, b.drop_last());
        assert((a + b).drop_last() =~= a + b.drop_last());
        assert((a + b).last() == b.last());
        assert(harmless_of(a + b) =~= harmless_of(a) + harmless_of(b));
    }
}

/// A date is written as day, month and year with points between them, the first two
/// in two digits and the year, as long as it has four, in four.
pub proof fn law_date_is_written_out(d: nat, m: nat, y: nat)
    requires
        is_day(d, m, y),
        y <= 9999,
    ensures
        ({
            let s = date_text(d, m, y);
            &&& s.len() == 10
            &&& s[2] == '.'
            &&& s[5] == '.'
            &&& number::denoted(s.subrange(0, 2)) == d
            &&& number::denoted(s.subrange(3, 5)) == m
            &&& number::denoted(s.subrange(6, 10)) == y
        }),
{
    let s = date_text(d, m, y);
    lemma_year_len(y);
    number::law_decimal_denotes(y);
    assert(s.subrange(0, 2) =~= two_digits(d));
    assert(s.subrange(3, 5) =~= two_digits(m));
    assert(s.subrange(6, 10) =~= number::decimal(y));
    lemma_two_digits(d);
    lemma_two_digits(m);
}

proof fn lemma_two_digits(n: nat)
    requires
        n < 100,
    ensures
        number::denoted(two_digits(n)) == n,
{
    reveal_with_fuel(number::denoted, 3);
    let s = two_digits(n);
    assert(s.drop_last() =~= seq![number::digit(n / 10)]);
    assert(seq![number::digit(n / 10)].drop_last() =~= Seq::<char>::empty());
}

/// What the user wrote is the caption if anything of it is left, and the date is if
/// nothing is.
pub proof fn law_date_stands_in(written: Seq<char>, date: Seq<char>)
    ensures
        safe_caption_of(written).len() > 0 ==> caption_or_of(written, date) == safe_caption_of(
            written,
        ),
        safe_caption_of(written).len() == 0 ==> caption_or_of(written, date) == date,
{
}

/// Whatever comes of making a caption safe is fit for `drawtext`; whatever comes of
/// asking for a caption is that, or the date that was given, or the one that was read
/// off the clock.
pub proof fn law_captions_come_out(
    written: &str,
    safe: String,
    date: &str,
    dated: String,
    shown: String,
)
    requires
        call_ensures(safe_caption, (written,), safe),
        call_ensures(caption_or, (written, date), dated),
        call_ensures(caption_for, (written,), shown),
    ensures
        safe@ == safe_caption_of(written@),
        fit_for_drawtext(safe@),
        safe@.len() > 0 ==> dated@ == safe@ && shown@ == safe@,
        safe@.len() == 0 ==> dated@ == date@,
        safe@.len() == 0 ==> read_off_the_clock(shown@) && is_date_text(shown@),
{
    law_safe_caption_is_fit(written@);
}

} // verus!
