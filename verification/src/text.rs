//! Verified helpers on strings: white space and trimming, prefixes and
//! equality, splitting, and decimal numerals written and read.

use vstd::prelude::*;
use vstd::std_specs::iter::IteratorSpec;

verus! {

/// The code points that Unicode classes as `White_Space`.
pub open spec fn is_white_space(c: char) -> bool {
    let v = c as u32;
    ||| 0x09 <= v <= 0x0D
    ||| v == 0x20
    ||| v == 0x85
    ||| v == 0xA0
    ||| v == 0x1680
    ||| 0x2000 <= v <= 0x200A
    ||| v == 0x2028
    ||| v == 0x2029
    ||| v == 0x202F
    ||| v == 0x205F
    ||| v == 0x3000
}

/// A text is blank when nothing but white space is in it; the empty text is blank.
pub open spec fn is_blank(s: Seq<char>) -> bool {
    forall|i: int| 0 <= i < s.len() ==> is_white_space(#[trigger] s[i])
}

/// Tells whether `c` is a white-space character.
pub fn white_space(c: char) -> (b: bool)
    ensures
        b == is_white_space(c),
{
    let v: u32 = c as u32;
    (0x09 <= v && v <= 0x0D) || v == 0x20 || v == 0x85 || v == 0xA0 || v == 0x1680 || (0x2000 <= v
        && v <= 0x200A) || v == 0x2028 || v == 0x2029 || v == 0x202F || v == 0x205F || v == 0x3000
}

/// Tells whether `s` would be empty once the white space at both ends is taken off.
pub fn blank(s: &str) -> (b: bool)
    ensures
        b == is_blank(s@),
{
    let mut all: bool = true;
    for c in iter: s.chars()
        invariant
            iter.seq() == s@,
            all == is_blank(s@.take(iter.index())),
    {
        proof {
            let before = s@.take(iter.index());
            let after = s@.take(iter.index() + 1);
            assert(after =~= before.push(c));
            assert(forall|i: int| 0 <= i < before.len() ==> before[i] == after[i]);
            assert(after[before.len() as int] == c);
        }
        all = all && white_space(c);
    }
    proof {
        assert(s@.take(s@.len() as int) =~= s@);
    }
    all
}

/// Tells whether `s` begins with `prefix`, character by character.
pub fn starts_with(s: &str, prefix: &str) -> (b: bool)
    ensures
        b == prefix@.is_prefix_of(s@),
{
    let mut rest = s.chars();
    let mut wanted = prefix.chars();
    let ghost mut seen: int = 0;
    loop
        invariant
            0 <= seen <= prefix@.len(),
            seen <= s@.len(),
            wanted.remaining() == prefix@.skip(seen),
            rest.remaining() == s@.skip(seen),
            s@.take(seen) == prefix@.take(seen),
        decreases prefix@.len() - seen,
    {
        match wanted.next() {
            None => {
                proof {
                    assert(prefix@.take(seen) =~= prefix@);
                    assert(s@.take(seen) =~= s@.subrange(0, prefix@.len() as int));
                }
                return true;
            },
            Some(p) => {
                match rest.next() {
                    None => {
                        return false;
                    },
                    Some(c) => {
                        if c != p {
                            assert(s@[seen] != prefix@[seen]);
                            return false;
                        }
                        proof {
                            assert(s@.take(seen + 1) =~= s@.take(seen).push(c));
                            assert(prefix@.take(seen + 1) =~= prefix@.take(seen).push(p));
                            assert(s@.skip(seen).drop_first() =~= s@.skip(seen + 1));
                            assert(prefix@.skip(seen).drop_first() =~= prefix@.skip(seen + 1));
                            seen = seen + 1;
                        }
                    },
                }
            },
        }
    }
}

/// The decimal digit that stands for `d`, for `d` below ten.
pub open spec fn digit_char(d: nat) -> char {
    if d == 0 {
        '0'
    } else if d == 1 {
        '1'
    } else if d == 2 {
        '2'
    } else if d == 3 {
        '3'
    } else if d == 4 {
        '4'
    } else if d == 5 {
        '5'
    } else if d == 6 {
        '6'
    } else if d == 7 {
        '7'
    } else if d == 8 {
        '8'
    } else {
        '9'
    }
}

/// The decimal numeral of `n`: no sign, no leading zero, `"0"` for zero.
pub open spec fn decimal_digits(n: nat) -> Seq<char>
    decreases n,
{
    if n < 10 {
        seq![digit_char(n)]
    } else {
        decimal_digits(n / 10).push(digit_char(n % 10))
    }
}

fn digit(d: u64) -> (c: char)
    requires
        d < 10,
    ensures
        c == digit_char(d as nat),
{
    if d == 0 {
        '0'
    } else if d == 1 {
        '1'
    } else if d == 2 {
        '2'
    } else if d == 3 {
        '3'
    } else if d == 4 {
        '4'
    } else if d == 5 {
        '5'
    } else if d == 6 {
        '6'
    } else if d == 7 {
        '7'
    } else if d == 8 {
        '8'
    } else {
        '9'
    }
}

/// Appends one character to a string. Trusted: `String::push` of the standard
/// library, which adds the character at the end and changes nothing before it.
#[verifier::external_body]
pub(crate) fn push_char(s: &mut String, c: char)
    ensures
        final(s)@ == old(s)@.push(c),
{
    s.push(c);
}

/// Writes `n` as a decimal numeral.
pub fn decimal(n: u64) -> (text: String)
    ensures
        text@ == decimal_digits(n as nat),
{
    // The digits come out lowest first; they are written down in the other order.
    let mut low_first: Vec<char> = Vec::new();
    let mut rest: u64 = n;
    while rest >= 10
        invariant
            decimal_digits(n as nat) == decimal_digits(rest as nat) + low_first@.reverse(),
        decreases rest,
    {
        let d = digit(rest % 10);
        proof {
            let r = rest as nat;
            assert(decimal_digits(r) == decimal_digits(r / 10).push(digit_char(r % 10)));
            assert(low_first@.push(d).reverse() =~= seq![d] + low_first@.reverse());
            assert(decimal_digits(r / 10).push(d) + low_first@.reverse() =~= decimal_digits(r / 10)
                + (seq![d] + low_first@.reverse()));
        }
        low_first.push(d);
        rest = rest / 10;
    }
    let mut text = String::new();
    push_char(&mut text, digit(rest));
    let mut i: usize = low_first.len();
    while i > 0
        invariant
            i <= low_first@.len(),
            rest < 10,
            decimal_digits(n as nat) == seq![digit_char(rest as nat)] + low_first@.reverse(),
            text@ == seq![digit_char(rest as nat)] + low_first@.reverse().take(low_first@.len() - i),
        decreases i,
    {
        i = i - 1;
        proof {
            let rev = low_first@.reverse();
            let k = low_first@.len() - i - 1;
            assert(rev[k] == low_first@[i as int]);
            assert(rev.take(k + 1) =~= rev.take(k).push(rev[k]));
            assert((seq![digit_char(rest as nat)] + rev.take(k)).push(rev[k]) =~= seq![
                digit_char(rest as nat),
            ] + rev.take(k + 1));
        }
        push_char(&mut text, low_first[i]);
    }
    proof {
        let rev = low_first@.reverse();
        assert(rev.take(rev.len() as int) =~= rev);
    }
    text
}

/// Tells whether two texts are the same, character by character.
pub fn same_text(a: &str, b: &str) -> (same: bool)
    ensures
        same == (a@ == b@),
{
    let mut left = a.chars();
    let mut right = b.chars();
    let ghost mut seen: int = 0;
    loop
        invariant
            0 <= seen <= a@.len(),
            seen <= b@.len(),
            left.remaining() == a@.skip(seen),
            right.remaining() == b@.skip(seen),
            a@.take(seen) == b@.take(seen),
        decreases a@.len() - seen,
    {
        match left.next() {
            None => {
                let at_end = right.next().is_none();
                proof {
                    assert(a@.take(seen) =~= a@);
                    if at_end {
                        assert(b@.take(seen) =~= b@);
                    }
                }
                return at_end;
            },
            Some(x) => {
                match right.next() {
                    None => {
                        return false;
                    },
                    Some(y) => {
                        if x != y {
                            assert(a@[seen] != b@[seen]);
                            return false;
                        }
                        proof {
                            assert(a@.take(seen + 1) =~= a@.take(seen).push(x));
                            assert(b@.take(seen + 1) =~= b@.take(seen).push(y));
                            assert(a@.skip(seen).drop_first() =~= a@.skip(seen + 1));
                            assert(b@.skip(seen).drop_first() =~= b@.skip(seen + 1));
                            seen = seen + 1;
                        }
                    },
                }
            },
        }
    }
}

/// `s` without the characters at its start that `strip` holds of.
pub open spec fn strip_start(s: Seq<char>, strip: spec_fn(char) -> bool) -> Seq<char>
    decreases s.len(),
{
    if s.len() > 0 && strip(s[0]) {
        strip_start(s.drop_first(), strip)
    } else {
        s
    }
}

/// `s` without the characters at its end that `strip` holds of.
pub open spec fn strip_end(s: Seq<char>, strip: spec_fn(char) -> bool) -> Seq<char>
    decreases s.len(),
{
    if s.len() > 0 && strip(s.last()) {
        strip_end(s.drop_last(), strip)
    } else {
        s
    }
}

/// The characters that are white space.
pub open spec fn white() -> spec_fn(char) -> bool {
    |c: char| is_white_space(c)
}

/// The one character `c`.
pub open spec fn only(c: char) -> spec_fn(char) -> bool {
    |x: char| x == c
}

/// `s` without the white space at its two ends.
pub open spec fn trimmed(s: Seq<char>) -> Seq<char> {
    strip_end(strip_start(s, white()), white())
}

/// `s` without the run of `c` at its end.
pub open spec fn without_trailing(s: Seq<char>, c: char) -> Seq<char> {
    strip_end(s, only(c))
}

/// Where the characters to strip at the start end, there the rest begins.
pub proof fn lemma_strip_start(s: Seq<char>, strip: spec_fn(char) -> bool, from: int)
    requires
        0 <= from <= s.len(),
        forall|j: int| 0 <= j < from ==> strip(#[trigger] s[j]),
        from == s.len() || !strip(s[from]),
    ensures
        strip_start(s, strip) == s.skip(from),
    decreases from,
{
    if from == 0 {
        assert(s.skip(0) =~= s);
    } else {
        assert(strip(s[0]));
        let rest = s.drop_first();
        assert forall|j: int| 0 <= j < from - 1 implies strip(#[trigger] rest[j]) by {
            assert(rest[j] == s[j + 1]);
        }
        lemma_strip_start(rest, strip, from - 1);
        assert(rest.skip(from - 1) =~= s.skip(from));
    }
}

/// Where the characters to strip at the end begin, there the rest ends.
pub proof fn lemma_strip_end(s: Seq<char>, strip: spec_fn(char) -> bool, to: int)
    requires
        0 <= to <= s.len(),
        forall|j: int| to <= j < s.len() ==> strip(#[trigger] s[j]),
        to == 0 || !strip(s[to - 1]),
    ensures
        strip_end(s, strip) == s.take(to),
    decreases s.len() - to,
{
    if to == s.len() {
        assert(s.take(to) =~= s);
    } else {
        assert(strip(s.last()));
        let rest = s.drop_last();
        assert forall|j: int| to <= j < rest.len() implies strip(#[trigger] rest[j]) by {
            assert(rest[j] == s[j]);
        }
        lemma_strip_end(rest, strip, to);
        assert(rest.take(to) =~= s.take(to));
    }
}

/// A text is blank exactly when trimming leaves nothing of it.
pub proof fn law_blank_is_trimmed_empty(s: Seq<char>)
    ensures
        is_blank(s) <==> trimmed(s).len() == 0,
{
    let ws = white();
    if is_blank(s) {
        assert forall|j: int| 0 <= j < s.len() implies ws(#[trigger] s[j]) by {}
        lemma_strip_start(s, ws, s.len() as int);
    } else {
        let k = choose|k: int| 0 <= k < s.len() && !is_white_space(#[trigger] s[k]);
        lemma_strip_keeps(s, ws, k);
    }
}

proof fn lemma_strip_start_keeps(s: Seq<char>, strip: spec_fn(char) -> bool, k: int)
    requires
        0 <= k < s.len(),
        !strip(s[k]),
    ensures
        exists|from: int|
            0 <= from <= k && #[trigger] s.skip(from) == strip_start(s, strip),
    decreases s.len(),
{
    if strip(s[0]) {
        let rest = s.drop_first();
        lemma_strip_start_keeps(rest, strip, k - 1);
        let from = choose|from: int|
            0 <= from <= k - 1 && #[trigger] rest.skip(from) == strip_start(rest, strip);
        assert(rest.skip(from) =~= s.skip(from + 1));
    } else {
        assert(s.skip(0) =~= s);
    }
}

proof fn lemma_strip_end_keeps(s: Seq<char>, strip: spec_fn(char) -> bool, k: int)
    requires
        0 <= k < s.len(),
        !strip(s[k]),
    ensures
        strip_end(s, strip).len() > k,
    decreases s.len(),
{
    if strip(s.last()) {
        lemma_strip_end_keeps(s.drop_last(), strip, k);
    }
}

proof fn lemma_strip_keeps(s: Seq<char>, strip: spec_fn(char) -> bool, k: int)
    requires
        0 <= k < s.len(),
        !strip(s[k]),
    ensures
        strip_end(strip_start(s, strip), strip).len() > 0,
{
    lemma_strip_start_keeps(s, strip, k);
    let from = choose|from: int| 0 <= from <= k && #[trigger] s.skip(from) == strip_start(s, strip);
    let t = s.skip(from);
    assert(t[k - from] == s[k]);
    lemma_strip_end_keeps(t, strip, k - from);
}

/// Takes the white space off both ends of `s`.
pub fn trim(s: &str) -> (out: String)
    ensures
        out@ == trimmed(s@),
{
    let len = s.unicode_len();
    let mut start: usize = 0;
    let mut end: usize = 0;
    let mut leading: bool = true;
    let mut i: usize = 0;
    for c in iter: s.chars()
        invariant
            iter.seq() == s@,
            i == iter.index(),
            len == s@.len(),
            end <= i,
            leading ==> end == 0 && forall|j: int| 0 <= j < i ==> is_white_space(#[trigger] s@[j]),
            !leading ==> start < end && !is_white_space(s@[start as int]) && forall|j: int|
                0 <= j < start ==> is_white_space(#[trigger] s@[j]),
            end > 0 ==> !is_white_space(s@[end - 1]),
            forall|j: int| end <= j < i ==> is_white_space(#[trigger] s@[j]),
    {
        if !white_space(c) {
            if leading {
                start = i;
                leading = false;
            }
            end = i + 1;
        }
        i = i + 1;
    }
    let ghost ws = white();
    if leading {
        proof {
            assert forall|j: int| 0 <= j < s@.len() implies ws(#[trigger] s@[j]) by {}
            lemma_strip_start(s@, ws, s@.len() as int);
            assert(s@.skip(s@.len() as int) =~= Seq::<char>::empty());
        }
        String::new()
    } else {
        proof {
            assert forall|j: int| 0 <= j < start implies ws(#[trigger] s@[j]) by {}
            lemma_strip_start(s@, ws, start as int);
            let t = s@.skip(start as int);
            assert forall|j: int| end - start <= j < t.len() implies ws(#[trigger] t[j]) by {
                assert(t[j] == s@[j + start]);
            }
            assert(t[end - start - 1] == s@[end - 1]);
            lemma_strip_end(t, ws, end - start);
            assert(t.take(end - start) =~= s@.subrange(start as int, end as int));
        }
        s.substring_char(start, end).to_string()
    }
}

/// Takes the run of `c` off the end of `s`.
pub fn trim_end_matches(s: &str, c: char) -> (out: String)
    ensures
        out@ == without_trailing(s@, c),
{
    let len = s.unicode_len();
    let mut end: usize = 0;
    let mut i: usize = 0;
    for x in iter: s.chars()
        invariant
            iter.seq() == s@,
            i == iter.index(),
            len == s@.len(),
            end <= i,
            end > 0 ==> s@[end - 1] != c,
            forall|j: int| end <= j < i ==> #[trigger] s@[j] == c,
    {
        if x != c {
            end = i + 1;
        }
        i = i + 1;
    }
    proof {
        let is_c = only(c);
        assert forall|j: int| end <= j < s@.len() implies is_c(#[trigger] s@[j]) by {}
        lemma_strip_end(s@, is_c, end as int);
        assert(s@.take(end as int) =~= s@.subrange(0, end as int));
    }
    s.substring_char(0, end).to_string()
}

/// `s` cut at every `sep`: the pieces between the separators, in order, empty
/// ones included. A text without `sep` is one piece, the empty text too.
pub open spec fn split_on(s: Seq<char>, sep: char) -> Seq<Seq<char>>
    decreases s.len(),
{
    if s.len() == 0 {
        seq![Seq::empty()]
    } else {
        let before = split_on(s.drop_last(), sep);
        if s.last() == sep {
            before.push(Seq::empty())
        } else {
            before.drop_last().push(before.last().push(s.last()))
        }
    }
}

/// The pieces written one after the other, with `sep` between any two.
pub open spec fn joined(pieces: Seq<Seq<char>>, sep: char) -> Seq<char>
    decreases pieces.len(),
{
    if pieces.len() == 0 {
        Seq::empty()
    } else if pieces.len() == 1 {
        pieces[0]
    } else {
        joined(pieces.drop_last(), sep).push(sep) + pieces.last()
    }
}

/// Cutting a text at `sep` gives at least one piece, no piece holds `sep`, and
/// the pieces joined by `sep` are the text again.
pub proof fn law_split_then_join(s: Seq<char>, sep: char)
    ensures
        split_on(s, sep).len() >= 1,
        forall|i: int, j: int|
            0 <= i < split_on(s, sep).len() && 0 <= j < split_on(s, sep)[i].len() ==> split_on(
                s,
                sep,
            )[i][j] != sep,
        joined(split_on(s, sep), sep) == s,
    decreases s.len(),
{
    if s.len() == 0 {
        assert(joined(split_on(s, sep), sep) =~= s);
    } else {
        let shorter = s.drop_last();
        law_split_then_join(shorter, sep);
        let before = split_on(shorter, sep);
        let after = split_on(s, sep);
        if s.last() == sep {
            assert(after.drop_last() =~= before);
            assert(joined(after, sep) =~= joined(before, sep).push(sep) + Seq::<char>::empty());
            assert(joined(after, sep) =~= s);
        } else {
            let grown = before.last().push(s.last());
            assert(after.last() == grown);
            if before.len() == 1 {
                assert(shorter == before[0]);
                assert(joined(after, sep) == grown);
                assert(s =~= shorter.push(s.last()));
            } else {
                let lead = joined(before.drop_last(), sep).push(sep);
                assert(after.drop_last() =~= before.drop_last());
                assert(shorter == lead + before.last());
                assert(joined(after, sep) == lead + grown);
                assert(s =~= shorter.push(s.last()));
                assert(lead + grown =~= (lead + before.last()).push(s.last()));
            }
        }
    }
}

/// Cuts `s` at every `sep`.
pub fn split(s: &str, sep: char) -> (pieces: Vec<String>)
    ensures
        pieces.deep_view() == split_on(s@, sep),
{
    let mut pieces: Vec<String> = Vec::new();
    let mut current = String::new();
    proof {
        assert(s@.take(0) =~= Seq::<char>::empty());
        assert(pieces.deep_view().push(current@) =~= seq![Seq::<char>::empty()]);
    }
    for c in iter: s.chars()
        invariant
            iter.seq() == s@,
            pieces.deep_view().push(current@) == split_on(s@.take(iter.index()), sep),
    {
        let ghost upto = s@.take(iter.index() + 1);
        let ghost done = pieces.deep_view();
        let ghost open = current@;
        proof {
            assert(upto.drop_last() =~= s@.take(iter.index()));
            assert(upto.last() == c);
            assert(done.push(open).drop_last() =~= done);
        }
        if c == sep {
            pieces.push(current);
            current = String::new();
            proof {
                assert(pieces.deep_view() =~= done.push(open));
            }
        } else {
            push_char(&mut current, c);
        }
    }
    proof {
        assert(s@.take(s@.len() as int) =~= s@);
    }
    let ghost done = pieces.deep_view();
    let ghost open = current@;
    pieces.push(current);
    proof {
        assert(pieces.deep_view() =~= done.push(open));
    }
    pieces
}

/// The number that an ASCII decimal digit stands for.
pub open spec fn digit_value(c: char) -> Option<nat> {
    let v = c as u32;
    if 0x30 <= v <= 0x39 {
        Some((v - 0x30) as nat)
    } else {
        None
    }
}

/// Why a text is no unsigned decimal numeral within its bound.
#[derive(Debug, Clone, Copy, PartialEq, Eq, Structural)]
pub enum NumberError {
    /// The text is empty.
    Empty,
    /// Something else than an ASCII digit stands where a digit must.
    InvalidDigit,
    /// The number is above the bound.
    PosOverflow,
}

/// What reading a row of ASCII decimal digits from left to right comes to, the
/// number never to pass `max`: the number, or the first thing to go wrong. The
/// empty row stands for zero.
pub open spec fn digits_read(s: Seq<char>, max: nat) -> Result<nat, NumberError>
    decreases s.len(),
{
    if s.len() == 0 {
        Ok(0)
    } else {
        match digits_read(s.drop_last(), max) {
            Err(error) => Err(error),
            Ok(v) => match digit_value(s.last()) {
                None => Err(NumberError::InvalidDigit),
                Some(d) => if v * 10 + d > max {
                    Err(NumberError::PosOverflow)
                } else {
                    Ok(v * 10 + d)
                },
            },
        }
    }
}

/// What reading `s` as an unsigned decimal numeral that is at most `max` comes
/// to. A numeral is one or more ASCII digits, before them at most one `+`, and
/// nothing else, white space neither; a sign alone is no numeral.
pub open spec fn unsigned_read(s: Seq<char>, max: nat) -> Result<nat, NumberError> {
    if s.len() == 0 {
        Err(NumberError::Empty)
    } else if s.len() >= 2 && s[0] == '+' {
        digits_read(s.skip(1), max)
    } else {
        digits_read(s, max)
    }
}

/// A number that was read is within its bound.
pub proof fn lemma_read_is_bounded(s: Seq<char>, max: nat)
    requires
        unsigned_read(s, max) is Ok,
    ensures
        unsigned_read(s, max)->Ok_0 <= max,
{
    if s.len() >= 2 && s[0] == '+' {
        lemma_digits_bounded(s.skip(1), max);
    } else {
        lemma_digits_bounded(s, max);
    }
}

proof fn lemma_digits_bounded(s: Seq<char>, max: nat)
    requires
        digits_read(s, max) is Ok,
    ensures
        digits_read(s, max)->Ok_0 <= max,
{
}

proof fn lemma_read_error_lasts(s: Seq<char>, k: int, max: nat)
    requires
        0 <= k <= s.len(),
        digits_read(s.take(k), max) is Err,
    ensures
        digits_read(s, max) == digits_read(s.take(k), max),
    decreases s.len() - k,
{
    if k == s.len() {
        assert(s.take(k) =~= s);
    } else {
        assert(s.drop_last().take(k) =~= s.take(k));
        lemma_read_error_lasts(s.drop_last(), k, max);
    }
}

/// Reads `s` as an unsigned decimal numeral that is at most `max`.
pub fn parse_unsigned(s: &str, max: u64) -> (value: Result<u64, NumberError>)
    ensures
        match value {
            Ok(v) => unsigned_read(s@, max as nat) == Ok::<nat, NumberError>(v as nat),
            Err(error) => unsigned_read(s@, max as nat) == Err::<nat, NumberError>(error),
        },
{
    let len = s.unicode_len();
    if len == 0 {
        return Err(NumberError::Empty);
    }
    let signed: bool = len >= 2 && s.get_char(0) == '+';
    let ghost offset: int = if signed {
        1
    } else {
        0
    };
    let ghost digits = s@.skip(offset);
    let mut acc: u64 = 0;
    let mut i: usize = 0;
    proof {
        assert(digits.take(0) =~= Seq::<char>::empty());
        assert(s@.skip(0) =~= s@);
    }
    for c in iter: s.chars()
        invariant
            iter.seq() == s@,
            i == iter.index(),
            len == s@.len(),
            len >= 1,
            offset == if signed {
                1int
            } else {
                0int
            },
            digits == s@.skip(offset),
            unsigned_read(s@, max as nat) == digits_read(digits, max as nat),
            i >= offset ==> digits_read(digits.take(i - offset), max as nat) == Ok::<
                nat,
                NumberError,
            >(acc as nat),
            i < offset ==> acc == 0,
            acc <= max,
    {
        if signed && i == 0 {
            proof {
                assert(digits.take(0) =~= Seq::<char>::empty());
            }
        } else {
            let ghost k = i - offset;
            proof {
                assert(digits[k] == c);
                assert(digits.take(k + 1).drop_last() =~= digits.take(k));
                assert(digits.take(k + 1).last() == c);
            }
            let v: u32 = c as u32;
            if !(0x30 <= v && v <= 0x39) {
                proof {
                    assert(digits_read(digits.take(k + 1), max as nat) == Err::<nat, NumberError>(
                        NumberError::InvalidDigit,
                    ));
                    lemma_read_error_lasts(digits, k + 1, max as nat);
                }
                return Err(NumberError::InvalidDigit);
            }
            let d: u64 = (v - 0x30) as u64;
            if acc > max / 10 || d > max - acc * 10 {
                proof {
                    assert(acc * 10 + d > max);
                    assert(digits_read(digits.take(k + 1), max as nat) == Err::<nat, NumberError>(
                        NumberError::PosOverflow,
                    ));
                    lemma_read_error_lasts(digits, k + 1, max as nat);
                }
                return Err(NumberError::PosOverflow);
            }
            acc = acc * 10 + d;
        }
        i = i + 1;
    }
    proof {
        assert(digits.take(digits.len() as int) =~= digits);
    }
    Ok(acc)
}

proof fn lemma_digit_char_value(d: nat)
    requires
        d < 10,
    ensures
        digit_value(digit_char(d)) == Some(d),
        digit_char(d) != '+',
{
}

proof fn lemma_numeral_value(n: nat, max: nat)
    requires
        n <= max,
    ensures
        decimal_digits(n).len() >= 1,
        decimal_digits(n)[0] != '+',
        digits_read(decimal_digits(n), max) == Ok::<nat, NumberError>(n),
    decreases n,
{
    let text = decimal_digits(n);
    if n < 10 {
        lemma_digit_char_value(n);
        assert(text.drop_last() =~= Seq::<char>::empty());
        assert(digits_read(text.drop_last(), max) == Ok::<nat, NumberError>(0nat));
    } else {
        lemma_numeral_value(n / 10, max);
        lemma_digit_char_value(n % 10);
        assert(text.drop_last() =~= decimal_digits(n / 10));
        assert(text[0] == decimal_digits(n / 10)[0]);
    }
}

/// What `decimal` writes, `parse_unsigned` reads back as the same number.
pub proof fn law_numeral_reads_back(n: nat, max: nat)
    requires
        n <= max,
    ensures
        unsigned_read(decimal_digits(n), max) == Ok::<nat, NumberError>(n),
{
    lemma_numeral_value(n, max);
}

/// `s` in lower case, as Unicode has it.
pub uninterp spec fn lowercased(s: Seq<char>) -> Seq<char>;

/// Turns a text into lower case. Trusted: `str::to_lowercase` of the standard
/// library, which follows Unicode's rules and depends on the text alone.
#[verifier::external_body]
pub(crate) fn lowercase(s: &str) -> (out: String)
    ensures
        out@ == lowercased(s@),
{
    s.to_lowercase()
}

} // verus!
