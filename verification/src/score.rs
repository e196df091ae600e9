//! Score arithmetic: decimal digits for the display, and the text in which
//! the high score is kept between runs.

use vstd::prelude::*;

verus! {

/// Ten to the power of `e`.
pub open spec fn pow10(e: nat) -> nat
    decreases e,
{
    if e == 0 {
        1
    } else {
        10 * pow10((e - 1) as nat)
    }
}

/// Number of decimal digits of `v`; one for 0.
pub open spec fn spec_digit_count(v: nat) -> nat
    decreases v,
{
    if v < 10 {
        1
    } else {
        1 + spec_digit_count(v / 10)
    }
}

/// The decimal digit of `v` that counts `pow10(i)`.
pub open spec fn spec_digit(v: nat, i: nat) -> nat {
    (v / pow10(i)) % 10
}

/// The decimal digits of `v`, least significant first.
pub open spec fn spec_digits(v: nat) -> Seq<u8> {
    Seq::new(spec_digit_count(v), |i: int| spec_digit(v, i as nat) as u8)
}

/// The better of a run's score and the high score so far.
pub open spec fn spec_best(score: u64, highscore: u64) -> u64 {
    if score >= highscore {
        score
    } else {
        highscore
    }
}

/// The decimal numeral of `v` in ASCII, most significant digit first.
pub open spec fn spec_decimal(v: nat) -> Seq<u8>
    decreases v,
{
    if v < 10 {
        seq![(48 + v) as u8]
    } else {
        spec_decimal(v / 10).push((48 + v % 10) as u8)
    }
}

/// The text that keeps a high score: its decimal numeral and a line feed.
pub open spec fn spec_saved(value: u64) -> Seq<u8> {
    spec_decimal(value as nat).push(10u8)
}

/// Whether a byte separates words: a space, a tab, a line feed, a vertical
/// tab, a form feed or a carriage return.
pub open spec fn is_space(b: u8) -> bool {
    b == 32 || 9 <= b <= 13
}

/// Whether a byte is an ASCII digit.
pub open spec fn is_digit(b: u8) -> bool {
    48 <= b <= 57
}

/// Number of separators that `text` begins with.
pub open spec fn leading_spaces(text: Seq<u8>) -> nat
    decreases text.len(),
{
    if text.len() > 0 && is_space(text[0]) {
        1 + leading_spaces(text.drop_first())
    } else {
        0
    }
}

/// Number of bytes before the first separator of `text`.
pub open spec fn word_len(text: Seq<u8>) -> nat
    decreases text.len(),
{
    if text.len() > 0 && !is_space(text[0]) {
        1 + word_len(text.drop_first())
    } else {
        0
    }
}

/// The first word of `text`: what stands between its leading separators
/// and the next separator.
pub open spec fn first_word(text: Seq<u8>) -> Seq<u8> {
    let rest = text.skip(leading_spaces(text) as int);
    rest.take(word_len(rest) as int)
}

/// The number that a run of digits spells in decimal.
pub open spec fn decimal_value(digits: Seq<u8>) -> nat
    decreases digits.len(),
{
    if digits.len() == 0 {
        0
    } else {
        10 * decimal_value(digits.drop_last()) + (digits.last() - 48) as nat
    }
}

/// Whether every byte of `s` is a digit.
pub open spec fn all_digits(s: Seq<u8>) -> bool {
    forall|i: int| 0 <= i < s.len() ==> is_digit(#[trigger] s[i])
}

/// A word without the plus sign that it may begin with.
pub open spec fn unsigned_part(word: Seq<u8>) -> Seq<u8> {
    if word.len() > 0 && word[0] == 43 {
        word.drop_first()
    } else {
        word
    }
}

/// The number that a word spells: an optional plus sign, then one digit or
/// more, with a value that `u64` holds. Any other word spells none.
pub open spec fn spec_parse_word(word: Seq<u8>) -> Option<u64> {
    let digits = unsigned_part(word);
    if digits.len() > 0 && all_digits(digits) && decimal_value(digits) <= u64::MAX {
        Some(decimal_value(digits) as u64)
    } else {
        None
    }
}

/// The high score that a stored text stands for: the number its first word
/// spells, and 0 where nothing is stored or the word spells no number.
pub open spec fn spec_load(stored: Option<Seq<u8>>) -> u64 {
    match stored {
        Some(text) => match spec_parse_word(first_word(text)) {
            Some(value) => value,
            None => 0,
        },
        None => 0,
    }
}

/// Dividing by ten once more reaches the next digit.
proof fn lemma_pow10_step(v: nat, i: nat)
    ensures
        pow10(i) > 0,
        (v / pow10(i)) / 10 == v / pow10(i + 1),
    decreases i,
{
    if i > 0 {
        lemma_pow10_step(v, (i - 1) as nat);
    }
    vstd::arithmetic::div_mod::lemma_div_denominator(v as int, pow10(i) as int, 10);
    assert(pow10(i + 1) == 10 * pow10(i));
    assert(pow10(i) * 10 == 10 * pow10(i)) by (nonlinear_arith);
}

/// Number of decimal digits of `v`.
pub fn digit_count(v: u64) -> (count: u32)
    ensures
        count == spec_digit_count(v as nat),
        1 <= count <= 20,
{
    let mut rest: u64 = v;
    let mut count: u32 = 1;
    assert(rest * pow10(0) == rest) by (nonlinear_arith)
        requires
            pow10(0) == 1,
    ;
    while rest >= 10
        invariant
            1 <= count <= 20,
            rest * pow10((count - 1) as nat) <= u64::MAX,
            spec_digit_count(v as nat) == spec_digit_count(rest as nat) + count - 1,
        decreases rest,
    {
        proof {
            let p = pow10((count - 1) as nat);
            assert(pow10(count as nat) == 10 * p);
            assert(10 * p <= rest * p) by (nonlinear_arith)
                requires
                    rest >= 10,
                    p >= 0,
            ;
            assert((rest / 10) * (10 * p) <= rest * p) by (nonlinear_arith)
                requires
                    (rest / 10) * 10 <= rest,
                    p >= 0,
            ;
            lemma_pow10_bounds();
            if count >= 20 {
                assert(pow10(20) <= 10 * p);
            }
        }
        rest = rest / 10;
        count = count + 1;
    }
    count
}

/// The powers of ten that matter to a `u64`.
proof fn lemma_pow10_bounds()
    ensures
        pow10(19) == 10000000000000000000,
        pow10(20) == 100000000000000000000,
        pow10(20) > u64::MAX,
{
    reveal_with_fuel(pow10, 21);
}

/// The decimal digit of `v` that counts `pow10(i)`.
pub fn digit(v: u64, i: u32) -> (d: u8)
    ensures
        d == spec_digit(v as nat, i as nat),
        d < 10,
{
    let mut rest: u64 = v;
    let mut k: u32 = 0;
    assert(pow10(0) == 1);
    while k < i
        invariant
            k <= i,
            rest == (v as nat) / pow10(k as nat),
        decreases i - k,
    {
        proof {
            lemma_pow10_step(v as nat, k as nat);
        }
        rest = rest / 10;
        k = k + 1;
    }
    (rest % 10) as u8
}

/// The decimal digits of `v`, least significant first.
pub fn digits(v: u64) -> (out: Vec<u8>)
    ensures
        out@ == spec_digits(v as nat),
{
    let count = digit_count(v);
    let mut out: Vec<u8> = Vec::new();
    let mut i: u32 = 0;
    while i < count
        invariant
            i <= count,
            count == spec_digit_count(v as nat),
            out.len() == i,
            forall|j: int| 0 <= j < i ==> out[j] == spec_digit(v as nat, j as nat) as u8,
        decreases count - i,
    {
        out.push(digit(v, i));
        i = i + 1;
    }
    assert(out@ =~= spec_digits(v as nat));
    out
}

/// The better of a run's score and the high score so far.
pub fn best(score: u64, highscore: u64) -> (value: u64)
    ensures
        value == spec_best(score, highscore),
{
    if score >= highscore {
        score
    } else {
        highscore
    }
}

/// The score of the run under way and the high score of all runs so far.
#[derive(Clone, Copy, Debug, PartialEq, Eq, Structural)]
pub struct ScoreTracker {
    pub score: u64,
    pub highscore: u64,
}

impl ScoreTracker {
    /// The tracker with its score back at 0.
    pub open spec fn restarted(self) -> ScoreTracker {
        ScoreTracker { score: 0, highscore: self.highscore }
    }

    /// The tracker after one more quiet tick: one point more, unless the
    /// score has reached the end of `u64`.
    pub open spec fn counted(self) -> ScoreTracker {
        ScoreTracker {
            score: if self.score < u64::MAX {
                (self.score + 1) as u64
            } else {
                self.score
            },
            highscore: self.highscore,
        }
    }

    /// The value to store: the better of score and high score.
    pub open spec fn record(self) -> u64 {
        spec_best(self.score, self.highscore)
    }

    /// The tracker after a run has ended: the high score is the record.
    pub open spec fn settled(self) -> ScoreTracker {
        ScoreTracker { score: self.score, highscore: self.record() }
    }

    /// A tracker at the start of the process, with the high score that was
    /// loaded.
    pub fn new(highscore: u64) -> (tracker: ScoreTracker)
        ensures
            tracker == (ScoreTracker { score: 0, highscore }),
    {
        ScoreTracker { score: 0, highscore }
    }

    /// Puts the score back to 0 for a new run.
    pub fn restart(&mut self)
        ensures
            *final(self) == old(self).restarted(),
    {
        self.score = 0;
    }

    /// Counts one quiet tick.
    pub fn count(&mut self)
        ensures
            *final(self) == old(self).counted(),
            final(self).score >= old(self).score,
    {
        if self.score < u64::MAX {
            self.score = self.score + 1;
        }
    }

    /// The value to store when the process ends now.
    pub fn best(&self) -> (value: u64)
        ensures
            value == self.record(),
    {
        best(self.score, self.highscore)
    }

    /// Ends a run: raises the high score to the record and hands back the
    /// value to store.
    pub fn settle(&mut self) -> (value: u64)
        ensures
            *final(self) == old(self).settled(),
            value == old(self).record(),
    {
        let value = best(self.score, self.highscore);
        self.highscore = value;
        value
    }
}

/// Appends the decimal numeral of `v` to `out`.
fn push_decimal(out: &mut Vec<u8>, v: u64)
    ensures
        final(out)@ == old(out)@ + spec_decimal(v as nat),
    decreases v,
{
    if v >= 10 {
        push_decimal(out, v / 10);
    }
    out.push(48 + (v % 10) as u8);
}

/// The text that keeps `value` as the high score.
pub fn save_highscore(value: u64) -> (text: Vec<u8>)
    ensures
        text@ == spec_saved(value),
{
    let mut text: Vec<u8> = Vec::new();
    push_decimal(&mut text, value);
    text.push(10);
    assert(text@ =~= spec_saved(value));
    text
}

/// Whether a byte separates words.
fn separates(b: u8) -> (space: bool)
    ensures
        space == is_space(b),
{
    b == 32 || (9 <= b && b <= 13)
}

/// The high score that `stored` stands for: see `spec_load`.
pub fn load_highscore(stored: &Option<Vec<u8>>) -> (value: u64)
    ensures
        value == spec_load(
            match *stored {
                Some(text) => Some(text@),
                None => None,
            },
        ),
{
    let text = match stored {
        Some(text) => text,
        None => {
            return 0;
        },
    };
    let len = text.len();
    let mut start: usize = 0;
    assert(text@.skip(0) =~= text@);
    while start < len && separates(text[start])
        invariant
            start <= len,
            len == text.len(),
            leading_spaces(text@) == start + leading_spaces(text@.skip(start as int)),
        decreases len - start,
    {
        assert(text@.skip(start as int).drop_first() =~= text@.skip(start + 1));
        start = start + 1;
    }
    assert(leading_spaces(text@) == start);
    let ghost rest = text@.skip(start as int);
    let mut end: usize = start;
    while end < len && !separates(text[end])
        invariant
            start <= end <= len,
            len == text.len(),
            rest == text@.skip(start as int),
            word_len(rest) == (end - start) + word_len(text@.skip(end as int)),
        decreases len - end,
    {
        assert(text@.skip(end as int).drop_first() =~= text@.skip(end + 1));
        end = end + 1;
    }
    assert(word_len(rest) == end - start);
    let ghost word = first_word(text@);
    assert(word =~= text@.subrange(start as int, end as int));
    let from: usize = if start < end && text[start] == 43 {
        start + 1
    } else {
        start
    };
    let ghost numeral = text@.subrange(from as int, end as int);
    assert(numeral =~= unsigned_part(word));
    if from == end {
        return 0;
    }
    let mut value: u64 = 0;
    let mut i: usize = from;
    while i < end
        invariant
            from <= i <= end <= text.len(),
            from < end,
            *stored == Some(*text),
            numeral == text@.subrange(from as int, end as int),
            numeral == unsigned_part(first_word(text@)),
            all_digits(numeral.take(i - from)),
            value == decimal_value(numeral.take(i - from)),
        decreases end - i,
    {
        let b = text[i];
        let ghost seen = numeral.take(i - from + 1);
        assert(seen.drop_last() =~= numeral.take(i - from));
        assert(seen.last() == b);
        if b < 48 || b > 57 {
            assert(!is_digit(numeral[i - from]));
            return 0;
        }
        let d: u64 = (b - 48) as u64;
        if value > (u64::MAX - d) / 10 {
            proof {
                lemma_value_grows(numeral, (i - from + 1) as nat);
            }
            return 0;
        }
        value = 10 * value + d;
        i = i + 1;
    }
    assert(numeral.take(end - from) =~= numeral);
    value
}

/// A numeral is worth at least as much as any of its beginnings.
proof fn lemma_value_grows(digits: Seq<u8>, n: nat)
    requires
        n <= digits.len(),
        all_digits(digits.take(n as int)),
    ensures
        decimal_value(digits.take(n as int)) <= decimal_value(digits) || !all_digits(digits),
    decreases digits.len() - n,
{
    if n < digits.len() && all_digits(digits) {
        let longer = digits.take(n + 1 as int);
        assert(longer.drop_last() =~= digits.take(n as int));
        assert(all_digits(longer));
        lemma_value_grows(digits, n + 1);
    } else if n == digits.len() {
        assert(digits.take(n as int) =~= digits);
    }
}

/// A decimal numeral is made of digits and spells the number it was
/// written for.
pub proof fn lemma_decimal_spells(v: nat)
    ensures
        spec_decimal(v).len() == spec_digit_count(v),
        all_digits(spec_decimal(v)),
        decimal_value(spec_decimal(v)) == v,
    decreases v,
{
    let s = spec_decimal(v);
    if v >= 10 {
        lemma_decimal_spells(v / 10);
        assert(s.drop_last() =~= spec_decimal(v / 10));
        assert(s.last() == 48 + v % 10);
        assert(decimal_value(s) == 10 * decimal_value(s.drop_last()) + (s.last() - 48));
    } else {
        assert(s.drop_last() =~= Seq::<u8>::empty());
        assert(s.last() == 48 + v);
        assert(decimal_value(s.drop_last()) == 0);
        assert(decimal_value(s) == 10 * decimal_value(s.drop_last()) + (s.last() - 48));
    }
}

/// A run of bytes without separators that a separator follows is one word.
proof fn lemma_word_before_separator(word: Seq<u8>, tail: Seq<u8>)
    requires
        forall|i: int| 0 <= i < word.len() ==> !is_space(#[trigger] word[i]),
        tail.len() > 0,
        is_space(tail[0]),
    ensures
        word_len(word + tail) == word.len(),
    decreases word.len(),
{
    if word.len() > 0 {
        assert((word + tail).drop_first() =~= word.drop_first() + tail);
        lemma_word_before_separator(word.drop_first(), tail);
    } else {
        assert(word + tail =~= tail);
    }
}

/// Saving and loading are inverse. The text saved for any score loads back
/// as that score, and storage that holds nothing loads as 0.
pub proof fn lemma_save_then_load(value: u64)
    ensures
        spec_load(Some(spec_saved(value))) == value,
        spec_load(None) == 0,
{
    let numeral = spec_decimal(value as nat);
    let text = spec_saved(value);
    lemma_decimal_spells(value as nat);
    assert(text =~= numeral + seq![10u8]);
    assert(is_digit(numeral[0]));
    assert(leading_spaces(text) == 0);
    assert(text.skip(0) =~= text);
    lemma_word_before_separator(numeral, seq![10u8]);
    assert(first_word(text) =~= numeral);
}

} // verus!
