//! How captions look on a terminal: colours, labels, and the space that text takes.
use crate::event::{AudioChannel, LiveStatusEvent};
use crate::text;
use vstd::prelude::*;
use vstd::string::*;

verus! {

/// A text in one of 256 colours.
pub open spec fn painted(code: nat, s: Seq<char>) -> Seq<char> {
    "\x1b[38;5;"@ + text::decimal(code) + "m"@ + s + "\x1b[0m"@
}

pub fn ansi256(code: u8, s: &str) -> (r: String)
    ensures
        r@ == painted(code as nat, s@),
{
    text::cat5("\x1b[38;5;", text::number(code as u64).as_str(), "m", s, "\x1b[0m")
}

pub open spec fn color_of(channel: AudioChannel) -> nat {
    match channel {
        AudioChannel::Mic => 130,
        AudioChannel::Speaker => 24,
        AudioChannel::File => 67,
    }
}

pub fn channel_color(channel: AudioChannel) -> (r: u8)
    ensures
        r == color_of(channel),
{
    match channel {
        AudioChannel::Mic => 130,
        AudioChannel::Speaker => 24,
        AudioChannel::File => 67,
    }
}

pub open spec fn label_of(channel: AudioChannel) -> Seq<char> {
    match channel {
        AudioChannel::Mic => "[mic]"@,
        AudioChannel::Speaker => "[spk]"@,
        AudioChannel::File => "[file]"@,
    }
}

pub fn channel_label(channel: AudioChannel) -> (r: &'static str)
    ensures
        r@ == label_of(channel),
{
    match channel {
        AudioChannel::Mic => "[mic]",
        AudioChannel::Speaker => "[spk]",
        AudioChannel::File => "[file]",
    }
}

/// What a status says: its message, and its detail where that is not blank.
pub open spec fn status_words(message: Seq<char>, detail: Option<Seq<char>>) -> Seq<char> {
    match detail {
        Some(d) => if text::trimmed(d).len() > 0 {
            message + ": "@ + text::trimmed(d)
        } else {
            message
        },
        None => message,
    }
}

pub fn status_text(status: &LiveStatusEvent) -> (r: String)
    ensures
        r@ == status_words(status.message@, text::text_of(status.detail)),
{
    if let Some(detail) = &status.detail {
        let trimmed = text::trim(detail.as_str());
        if !trimmed.as_str().is_empty() {
            return text::cat3(status.message.as_str(), ": ", trimmed.as_str());
        }
    }
    text::copy(status.message.as_str())
}

/// The part of a language tag before its first `-` or `_`, or the tag itself where
/// nothing stands before it.
pub open spec fn primary_subtag(lang: Seq<char>) -> Seq<char> {
    let cut = subtag_end(lang);
    if cut == 0 {
        lang
    } else {
        lang.take(cut as int)
    }
}

pub open spec fn subtag_end(lang: Seq<char>) -> nat
    decreases lang.len(),
{
    if lang.len() == 0 || lang[0] == '-' || lang[0] == '_' {
        0
    } else {
        1 + subtag_end(lang.subrange(1, lang.len() as int))
    }
}

proof fn lemma_subtag_end(lang: Seq<char>)
    ensures
        subtag_end(lang) <= lang.len(),
    decreases lang.len(),
{
    if lang.len() > 0 {
        lemma_subtag_end(lang.subrange(1, lang.len() as int));
    }
}

pub fn primary_language_subtag(lang: &str) -> (r: String)
    ensures
        r@ == primary_subtag(lang@),
{
    let chars = text::to_chars(lang);
    let n: usize = chars.len();
    let mut i: usize = 0;
    proof {
        lemma_subtag_end(lang@);
        assert(lang@.subrange(0, n as int) =~= lang@);
    }
    while i < n && chars[i] != '-' && chars[i] != '_'
        invariant
            n == chars.len(),
            chars@ == lang@,
            i <= n,
            subtag_end(lang@) == i + subtag_end(lang@.subrange(i as int, n as int)),
        decreases n - i,
    {
        let ghost rest = lang@.subrange(i as int, n as int);
        assert(rest.subrange(1, rest.len() as int) =~= lang@.subrange(i + 1, n as int));
        i = i + 1;
    }
    if i == 0 {
        text::copy(lang)
    } else {
        text::from_chars(&chars, 0, i)
    }
}

/// A translation that says the same in the same language.
pub open spec fn passed_through(
    src_lang: Seq<char>,
    dst_lang: Seq<char>,
    src_text: Seq<char>,
    dst_text: Seq<char>,
) -> bool {
    src_text == dst_text && primary_subtag(src_lang) == primary_subtag(dst_lang)
}

pub fn is_passthrough_translation(
    src_lang: &str,
    dst_lang: &str,
    src_text: &str,
    dst_text: &str,
) -> (r: bool)
    ensures
        r == passed_through(src_lang@, dst_lang@, src_text@, dst_text@),
{
    text::same(src_text, dst_text) && text::same(
        primary_language_subtag(src_lang).as_str(),
        primary_language_subtag(dst_lang).as_str(),
    )
}

pub open spec fn wide(c: char) -> bool {
    let v = c as int;
    ||| 0x1100 <= v <= 0x115F
    ||| 0x2E80 <= v <= 0x303E
    ||| 0x3041 <= v <= 0x33FF
    ||| 0x3400 <= v <= 0x4DBF
    ||| 0x4E00 <= v <= 0x9FFF
    ||| 0xA000 <= v <= 0xA4CF
    ||| 0xAC00 <= v <= 0xD7A3
    ||| 0xF900 <= v <= 0xFAFF
    ||| 0xFE30 <= v <= 0xFE4F
    ||| 0xFF00 <= v <= 0xFF60
    ||| 0xFFE0 <= v <= 0xFFE6
    ||| 0x1F300 <= v <= 0x1F6FF
    ||| 0x1F900 <= v <= 0x1F9FF
}

pub fn is_wide_char(ch: char) -> (r: bool)
    ensures
        r == wide(ch),
{
    let value: u32 = ch as u32;
    (0x1100 <= value && value <= 0x115F) || (0x2E80 <= value && value <= 0x303E) || (0x3041 <= value
        && value <= 0x33FF) || (0x3400 <= value && value <= 0x4DBF) || (0x4E00 <= value && value
        <= 0x9FFF) || (0xA000 <= value && value <= 0xA4CF) || (0xAC00 <= value && value <= 0xD7A3)
        || (0xF900 <= value && value <= 0xFAFF) || (0xFE30 <= value && value <= 0xFE4F) || (0xFF00
        <= value && value <= 0xFF60) || (0xFFE0 <= value && value <= 0xFFE6) || (0x1F300 <= value
        && value <= 0x1F6FF) || (0x1F900 <= value && value <= 0x1F9FF)
}

/// How many columns a text takes.
pub open spec fn columns(s: Seq<char>) -> nat
    decreases s.len(),
{
    if s.len() == 0 {
        0
    } else {
        columns(s.drop_last()) + if wide(s.last()) {
            2
        } else {
            1nat
        }
    }
}

/// A number as far as a machine word counts.
pub open spec fn capped(n: nat) -> nat {
    if n <= usize::MAX {
        n
    } else {
        usize::MAX as nat
    }
}

/// The sum, as far as a machine word counts.
pub fn grown(a: usize, b: usize) -> (r: usize)
    ensures
        r == capped((a + b) as nat),
{
    if a <= usize::MAX - b {
        a + b
    } else {
        usize::MAX
    }
}

pub fn display_width(s: &str) -> (r: usize)
    ensures
        r == capped(columns(s@)),
{
    let chars = text::to_chars(s);
    let n: usize = chars.len();
    let mut total: usize = 0;
    let mut i: usize = 0;
    while i < n
        invariant
            n == chars.len(),
            chars@ == s@,
            i <= n,
            total == capped(columns(s@.take(i as int))),
        decreases n - i,
    {
        let ghost more = s@.take(i + 1);
        assert(more.drop_last() =~= s@.take(i as int));
        let step: usize = if is_wide_char(chars[i]) {
            2
        } else {
            1
        };
        total = grown(total, step);
        i = i + 1;
    }
    assert(s@.take(n as int) =~= s@);
    total
}

/// What follows the letter that ends a control sequence.
pub open spec fn after_control(s: Seq<char>) -> Seq<char>
    decreases s.len(),
{
    if s.len() == 0 {
        s
    } else if '@' <= s[0] && s[0] <= '~' {
        s.subrange(1, s.len() as int)
    } else {
        after_control(s.subrange(1, s.len() as int))
    }
}

proof fn lemma_after_control(s: Seq<char>)
    ensures
        after_control(s).len() <= s.len(),
    decreases s.len(),
{
    if s.len() > 0 {
        lemma_after_control(s.subrange(1, s.len() as int));
    }
}

/// A text without its control sequences.
pub open spec fn stripped(s: Seq<char>) -> Seq<char>
    decreases s.len(),
{
    if s.len() == 0 {
        s
    } else if s[0] == '\x1b' && s.len() > 1 && s[1] == '[' {
        let rest = after_control(s.subrange(2, s.len() as int));
        if rest.len() < s.len() {
            stripped(rest)
        } else {
            Seq::<char>::empty()
        }
    } else {
        seq![s[0]] + stripped(s.subrange(1, s.len() as int))
    }
}

pub fn strip_ansi(line: &str) -> (r: String)
    ensures
        r@ == stripped(line@),
{
    let chars = text::to_chars(line);
    let ghost all = line@;
    let n: usize = chars.len();
    let mut out: Vec<char> = Vec::new();
    let mut i: usize = 0;
    assert(all.subrange(0, n as int) =~= all);
    assert(out@ + stripped(all) =~= stripped(all));
    while i < n
        invariant
            n == chars.len(),
            chars@ == all,
            all == line@,
            i <= n,
            stripped(all) == out@ + stripped(all.subrange(i as int, n as int)),
        decreases n - i,
    {
        let ghost rest = all.subrange(i as int, n as int);
        let c = chars[i];
        assert(rest[0] == c);
        if c == '\x1b' && i + 1 < n && chars[i + 1] == '[' {
            assert(rest[1] == '[');
            let ghost inner = rest.subrange(2, rest.len() as int);
            let mut k: usize = i + 2;
            assert(inner =~= all.subrange(k as int, n as int));
            proof {
                lemma_after_control(inner);
            }
            while k < n && !('@' <= chars[k] && chars[k] <= '~')
                invariant
                    n == chars.len(),
                    chars@ == all,
                    i + 2 <= k <= n,
                    after_control(inner) == after_control(all.subrange(k as int, n as int)),
                decreases n - k,
            {
                let ghost left = all.subrange(k as int, n as int);
                assert(left.subrange(1, left.len() as int) =~= all.subrange(k + 1, n as int));
                k = k + 1;
            }
            let ghost left = all.subrange(k as int, n as int);
            if k < n {
                assert(left[0] == chars@[k as int]);
                assert(left.subrange(1, left.len() as int) =~= all.subrange(k + 1, n as int));
                k = k + 1;
            } else {
                assert(left =~= all.subrange(n as int, n as int));
            }
            assert(after_control(inner) == all.subrange(k as int, n as int));
            i = k;
        } else {
            let ghost before = out@;
            out.push(c);
            assert(rest.subrange(1, rest.len() as int) =~= all.subrange(i + 1, n as int));
            assert(before + (seq![c] + stripped(all.subrange(i + 1, n as int))) =~= out@
                + stripped(all.subrange(i + 1, n as int)));
            i = i + 1;
        }
    }
    assert(all.subrange(n as int, n as int) =~= Seq::<char>::empty());
    assert(out@ + Seq::<char>::empty() =~= out@);
    text::of_chars(&out)
}

/// How many rows of a terminal a line takes.
pub open spec fn rows_of(line: Seq<char>, terminal: nat) -> nat {
    let across = if terminal == 0 {
        1nat
    } else {
        terminal
    };
    let need = capped(columns(stripped(line)));
    if need == 0 {
        1
    } else {
        ((need - 1) / (across as int) + 1) as nat
    }
}

pub fn physical_rows(line: &str, terminal_width: usize) -> (r: usize)
    ensures
        r == rows_of(line@, terminal_width as nat),
        r >= 1,
{
    let across: usize = if terminal_width == 0 {
        1
    } else {
        terminal_width
    };
    let need: usize = display_width(strip_ansi(line).as_str());
    if need == 0 {
        1
    } else {
        assert((need - 1) / (across as int) <= need - 1) by (nonlinear_arith)
            requires
                need >= 1,
                across >= 1,
        ;
        (need - 1) / across + 1
    }
}

/// The width of the terminal, from the variable that tells it.
pub fn terminal_width(columns: &Option<String>) -> (r: usize)
    ensures
        r == match text::text_of(*columns) {
            Some(c) => match text::number_in(c, usize::MAX as nat) {
                Some(n) => if n > 0 {
                    n
                } else {
                    80nat
                },
                None => 80nat,
            },
            None => 80nat,
        },
{
    if let Some(c) = columns {
        if let Some(n) = text::parse_number(c.as_str(), usize::MAX as u64) {
            if n > 0 {
                return n as usize;
            }
        }
    }
    80
}

proof fn lemma_subtag_stops(lang: Seq<char>)
    ensures
        subtag_end(lang) <= lang.len(),
        forall|i: int| 0 <= i < subtag_end(lang) ==> #[trigger] lang[i] != '-' && lang[i] != '_',
        subtag_end(lang) < lang.len() ==> lang[subtag_end(lang) as int] == '-'
            || lang[subtag_end(lang) as int] == '_',
    decreases lang.len(),
{
    if lang.len() > 0 && lang[0] != '-' && lang[0] != '_' {
        let rest = lang.subrange(1, lang.len() as int);
        lemma_subtag_stops(rest);
        assert forall|i: int| 0 <= i < subtag_end(lang) implies #[trigger] lang[i] != '-' && lang[i]
            != '_' by {
            if i > 0 {
                assert(rest[i - 1] == lang[i]);
            }
        }
    }
}

/// Whatever follows the first part of a language's tag, and whichever of the two marks it
/// follows behind, the first part is its language.
pub proof fn law_language_is_the_first_part(first: Seq<char>, rest: Seq<char>)
    requires
        first.len() > 0,
        !first.contains('-'),
        !first.contains('_'),
    ensures
        primary_subtag(first) == first,
        primary_subtag(first + seq!['-'] + rest) == first,
        primary_subtag(first + seq!['_'] + rest) == first,
{
    let n = first.len() as int;
    assert(first.take(n) =~= first);
    assert((first + seq!['-'] + rest).take(n) =~= first);
    assert((first + seq!['_'] + rest).take(n) =~= first);
    lemma_first_part(first, first);
    lemma_first_part(first, first + seq!['-'] + rest);
    lemma_first_part(first, first + seq!['_'] + rest);
}

proof fn lemma_first_part(first: Seq<char>, lang: Seq<char>)
    requires
        first.len() > 0,
        !first.contains('-'),
        !first.contains('_'),
        first.len() <= lang.len(),
        lang.take(first.len() as int) == first,
        lang.len() > first.len() ==> lang[first.len() as int] == '-' || lang[first.len() as int]
            == '_',
    ensures
        primary_subtag(lang) == first,
{
    lemma_subtag_stops(lang);
    let n = subtag_end(lang) as int;
    if n < first.len() {
        assert(lang[n] == lang.take(first.len() as int)[n]);
        assert(first.contains(first[n]));
    }
    if n > first.len() {
        assert(lang[first.len() as int] != '-');
    }
}

/// A translation says nothing new just where it has the same text in the same language,
/// whatever regions the two tags name.
pub proof fn law_same_text_in_the_same_language(
    first: Seq<char>,
    a: Seq<char>,
    b: Seq<char>,
    src_text: Seq<char>,
    dst_text: Seq<char>,
)
    requires
        first.len() > 0,
        !first.contains('-'),
        !first.contains('_'),
    ensures
        passed_through(first + seq!['-'] + a, first + seq!['_'] + b, src_text, dst_text)
            <==> src_text == dst_text,
        passed_through(first, first + seq!['-'] + b, src_text, dst_text) <==> src_text == dst_text,
{
    law_language_is_the_first_part(first, a);
    law_language_is_the_first_part(first, b);
}

/// The width of a text is that of its parts; a wide character takes two columns, any other
/// one, and an ASCII text as many as it has characters.
pub proof fn law_columns_add_up(a: Seq<char>, b: Seq<char>, c: char)
    ensures
        columns(a + b) == columns(a) + columns(b),
        columns(seq![c]) == if wide(c) {
            2nat
        } else {
            1
        },
        (forall|i: int| 0 <= i < a.len() ==> (#[trigger] a[i]) <= '\u{7f}') ==> columns(a)
            == a.len(),
    decreases a.len() + b.len(),
{
    reveal_with_fuel(columns, 2);
    assert(seq![c].drop_last() =~= Seq::empty());
    if b.len() == 0 {
        assert(a + b =~= a);
        if a.len() > 0 {
            let front = a.drop_last();
            law_columns_add_up(front, b, c);
            assert(a.last() == a[a.len() - 1]);
            assert(forall|i: int| 0 <= i < front.len() ==> #[trigger] front[i] == a[i]);
        }
    } else {
        law_columns_add_up(a, b.drop_last(), c);
        assert((a + b).drop_last() =~= a + b.drop_last());
    }
}

/// A line takes as many rows as its columns need, and at least one.
pub proof fn law_rows_hold_the_columns(line: Seq<char>, terminal: nat)
    requires
        terminal > 0,
        columns(stripped(line)) <= usize::MAX,
    ensures
        rows_of(line, terminal) >= 1,
        columns(stripped(line)) <= rows_of(line, terminal) * terminal,
        columns(stripped(line)) > 0 ==> (rows_of(line, terminal) - 1) * terminal < columns(
            stripped(line),
        ),
        columns(stripped(line)) == 0 ==> rows_of(line, terminal) == 1,
{
    let need = columns(stripped(line)) as int;
    let across = terminal as int;
    if need > 0 {
        let q = (need - 1) / across;
        vstd::arithmetic::div_mod::lemma_fundamental_div_mod(need - 1, across);
        vstd::arithmetic::div_mod::lemma_mod_bound(need - 1, across);
        vstd::arithmetic::div_mod::lemma_div_pos_is_pos(need - 1, across);
        assert(across * q == q * across) by (nonlinear_arith);
        assert((q + 1) * across == q * across + across) by (nonlinear_arith);
    }
}

proof fn lemma_nothing_to_strip(a: Seq<char>, b: Seq<char>)
    requires
        !a.contains('\x1b'),
    ensures
        stripped(a + b) == a + stripped(b),
    decreases a.len(),
{
    if a.len() == 0 {
        assert(a + b =~= b);
        assert(a + stripped(b) =~= stripped(b));
    } else {
        let s = a + b;
        assert(a.contains(a[0]));
        assert(s[0] == a[0]);
        let rest = a.subrange(1, a.len() as int);
        if rest.contains('\x1b') {
            let i = choose|i: int| 0 <= i < rest.len() && rest[i] == '\x1b';
            assert(a[i + 1] == '\x1b');
        }
        lemma_nothing_to_strip(rest, b);
        assert(s.subrange(1, s.len() as int) =~= rest + b);
        assert(seq![a[0]] + (rest + stripped(b)) =~= a + stripped(b));
    }
}

proof fn lemma_after_digits(digits: Seq<char>, rest: Seq<char>)
    requires
        forall|i: int|
            0 <= i < digits.len() ==> text::ascii_digit(#[trigger] digits[i]) || digits[i] == ';',
    ensures
        after_control(digits + seq!['m'] + rest) == rest,
    decreases digits.len(),
{
    let s = digits + seq!['m'] + rest;
    if digits.len() == 0 {
        assert(s[0] == 'm');
        assert(s.subrange(1, s.len() as int) =~= rest);
    } else {
        assert(s[0] == digits[0]);
        let left = digits.subrange(1, digits.len() as int);
        assert forall|i: int| 0 <= i < left.len() implies text::ascii_digit(#[trigger] left[i])
            || left[i] == ';' by {
            assert(left[i] == digits[i + 1]);
        }
        lemma_after_digits(left, rest);
        assert(s.subrange(1, s.len() as int) =~= left + seq!['m'] + rest);
    }
}

/// Colour takes no room: stripping a painted text gives back the text, and a text without
/// control sequences is not changed by it.
pub proof fn law_paint_is_stripped(code: nat, s: Seq<char>)
    requires
        !s.contains('\x1b'),
    ensures
        stripped(painted(code, s)) == s,
        stripped(s) == s,
{
    lemma_nothing_to_strip(s, Seq::empty());
    assert(s + Seq::<char>::empty() =~= s);
    assert(stripped(Seq::<char>::empty()) =~= Seq::empty());
    reveal_strlit("\x1b[38;5;");
    reveal_strlit("m");
    reveal_strlit("\x1b[0m");
    let close = "\x1b[0m"@;
    let none = Seq::<char>::empty();
    let zero = seq!['0'];
    lemma_after_digits(zero, none);
    assert(close.subrange(2, close.len() as int) =~= zero + seq!['m'] + none);
    assert(stripped(close) =~= none) by {
        assert(close[0] == '\x1b' && close[1] == '[');
        assert(after_control(close.subrange(2, close.len() as int)) == none);
        assert(stripped(none) =~= none);
    }
    lemma_nothing_to_strip(s, close);
    assert(s + none =~= s);
    let d = text::decimal(code);
    let digits = seq!['3', '8', ';', '5', ';'] + d;
    text::lemma_decimal_has_only_digits(code);
    assert forall|i: int| 0 <= i < digits.len() implies text::ascii_digit(#[trigger] digits[i])
        || digits[i] == ';' by {
        if i >= 5 {
            assert(digits[i] == d[i - 5]);
        }
    }
    let rest = s + close;
    lemma_after_digits(digits, rest);
    let all = painted(code, s);
    assert(all[0] == '\x1b' && all[1] == '[');
    assert(all.subrange(2, all.len() as int) =~= digits + seq!['m'] + rest);
}

/// Ideographs, syllables of Hangul, kana, the full-width forms of ASCII and pictographs take
/// two columns; ASCII, Latin, Greek and Cyrillic letters take one.
pub proof fn law_wide_and_narrow_scripts(c: char)
    ensures
        '\u{4e00}' <= c <= '\u{9fff}' ==> wide(c),
        '\u{ac00}' <= c <= '\u{d7a3}' ==> wide(c),
        '\u{3041}' <= c <= '\u{30ff}' ==> wide(c),
        '\u{ff01}' <= c <= '\u{ff5e}' ==> wide(c),
        '\u{1f300}' <= c <= '\u{1f6ff}' ==> wide(c),
        c < '\u{1100}' ==> !wide(c),
{
}

} // verus!
