//! Text: the operations on strings that the rest of the crate is written with.
//!
//! A string is modelled by the sequence of its characters.
use vstd::prelude::*;
use vstd::string::*;

verus! {

broadcast use vstd::string::group_string_axioms;

/// `String::push` appends one character.
pub assume_specification[ String::push ](s: &mut String, c: char)
    ensures
        final(s)@ == old(s)@.push(c),
;

/// The characters with the Unicode property `White_Space`.
pub open spec fn white_space(c: char) -> bool {
    ||| '\u{9}' <= c <= '\u{d}'
    ||| c == '\u{20}'
    ||| c == '\u{85}'
    ||| c == '\u{a0}'
    ||| c == '\u{1680}'
    ||| '\u{2000}' <= c <= '\u{200a}'
    ||| c == '\u{2028}'
    ||| c == '\u{2029}'
    ||| c == '\u{202f}'
    ||| c == '\u{205f}'
    ||| c == '\u{3000}'
}

pub open spec fn ascii_digit(c: char) -> bool {
    '0' <= c <= '9'
}

pub open spec fn ascii_alphabetic(c: char) -> bool {
    'a' <= c <= 'z' || 'A' <= c <= 'Z'
}

pub open spec fn ascii_alphanumeric(c: char) -> bool {
    ascii_alphabetic(c) || ascii_digit(c)
}

/// The ASCII letter in lower case; any other character as it is.
pub open spec fn lower(c: char) -> char {
    if 'A' <= c <= 'Z' {
        ((c as u32) + 32) as char
    } else {
        c
    }
}

pub open spec fn lowered(s: Seq<char>) -> Seq<char> {
    Seq::new(s.len(), |i: int| lower(s[i]))
}

/// The ASCII letter in upper case; any other character as it is.
pub open spec fn upper(c: char) -> char {
    if 'a' <= c <= 'z' {
        ((c as u32) - 32) as char
    } else {
        c
    }
}

pub open spec fn uppered(s: Seq<char>) -> Seq<char> {
    Seq::new(s.len(), |i: int| upper(s[i]))
}

/// The text without the white space at its front.
pub open spec fn trimmed_start(s: Seq<char>) -> Seq<char>
    decreases s.len(),
{
    if s.len() > 0 && white_space(s[0]) {
        trimmed_start(s.subrange(1, s.len() as int))
    } else {
        s
    }
}

/// The text without the white space at its end.
pub open spec fn trimmed_end(s: Seq<char>) -> Seq<char>
    decreases s.len(),
{
    if s.len() > 0 && white_space(s.last()) {
        trimmed_end(s.drop_last())
    } else {
        s
    }
}

pub open spec fn trimmed(s: Seq<char>) -> Seq<char> {
    trimmed_end(trimmed_start(s))
}

/// The text without the characters `c` at its end.
pub open spec fn trimmed_end_of(s: Seq<char>, c: char) -> Seq<char>
    decreases s.len(),
{
    if s.len() > 0 && s.last() == c {
        trimmed_end_of(s.drop_last(), c)
    } else {
        s
    }
}

pub open spec fn starts(s: Seq<char>, head: Seq<char>) -> bool {
    head.len() <= s.len() && s.subrange(0, head.len() as int) == head
}

pub open spec fn ends(s: Seq<char>, tail: Seq<char>) -> bool {
    tail.len() <= s.len() && s.subrange(s.len() - tail.len(), s.len() as int) == tail
}

pub open spec fn found_at(s: Seq<char>, part: Seq<char>, i: int) -> bool {
    0 <= i && i + part.len() <= s.len() && s.subrange(i, i + part.len()) == part
}

/// `part` occurs somewhere in `s`.
pub open spec fn holds_part(s: Seq<char>, part: Seq<char>) -> bool {
    exists|i: int| found_at(s, part, i)
}

/// The pieces of `s` between the characters `c`: one more than there are of them.
pub open spec fn pieces(s: Seq<char>, c: char) -> Seq<Seq<char>>
    decreases s.len(),
{
    if !s.contains(c) {
        seq![s]
    } else {
        let at = s.index_of_first(c).unwrap();
        if 0 <= at < s.len() {
            seq![s.subrange(0, at)] + pieces(s.subrange(at + 1, s.len() as int), c)
        } else {
            seq![s]
        }
    }
}

/// The text without the carriage return at its end, if there is one.
pub open spec fn without_return(s: Seq<char>) -> Seq<char> {
    if s.len() > 0 && s.last() == '\r' {
        s.drop_last()
    } else {
        s
    }
}

/// The lines in the pieces between line feeds: the last piece is a line only where
/// something stands in it, and a carriage return before a line feed belongs to the
/// line's end.
pub open spec fn lines_in(parts: Seq<Seq<char>>) -> Seq<Seq<char>> {
    let whole = Seq::new((parts.len() - 1) as nat, |i: int| without_return(parts[i]));
    if parts.last().len() == 0 {
        whole
    } else {
        whole.push(parts.last())
    }
}

pub open spec fn lines(s: Seq<char>) -> Seq<Seq<char>> {
    lines_in(pieces(s, '\n'))
}

/// The texts one after the other, with `sep` between neighbours.
pub open spec fn joined(parts: Seq<Seq<char>>, sep: Seq<char>) -> Seq<char>
    decreases parts.len(),
{
    if parts.len() == 0 {
        Seq::empty()
    } else if parts.len() == 1 {
        parts[0]
    } else {
        joined(parts.drop_last(), sep) + sep + parts.last()
    }
}

/// The views of a sequence of strings.
pub open spec fn texts(v: Seq<String>) -> Seq<Seq<char>> {
    Seq::new(v.len(), |i: int| v[i]@)
}

/// The view of an optional string.
pub open spec fn text_of(o: Option<String>) -> Option<Seq<char>> {
    match o {
        Some(s) => Some(s@),
        None => None,
    }
}

pub open spec fn digit_char(d: int) -> char {
    ((48 + d) as u32) as char
}

/// The decimal digits of a number.
pub open spec fn decimal(n: nat) -> Seq<char>
    decreases n,
{
    if n < 10 {
        seq![digit_char(n as int)]
    } else {
        decimal(n / 10).push(digit_char((n % 10) as int))
    }
}

pub fn is_white_space(c: char) -> (r: bool)
    ensures
        r == white_space(c),
{
    ('\u{9}' <= c && c <= '\u{d}') || c == '\u{20}' || c == '\u{85}' || c == '\u{a0}' || c
        == '\u{1680}' || ('\u{2000}' <= c && c <= '\u{200a}') || c == '\u{2028}' || c == '\u{2029}'
        || c == '\u{202f}' || c == '\u{205f}' || c == '\u{3000}'
}

/// The characters of a string.
pub fn to_chars(s: &str) -> (r: Vec<char>)
    ensures
        r@ == s@,
{
    let mut r: Vec<char> = Vec::new();
    for c in it: s.chars()
        invariant
            it.seq() == s@,
            r@ == s@.take(it.index() as int),
    {
        assert(s@.take(it.index() + 1) =~= s@.take(it.index() as int).push(c));
        r.push(c);
    }
    assert(s@.take(s@.len() as int) =~= s@);
    r
}

/// The string of the characters from `from` up to `to`.
pub fn from_chars(chars: &Vec<char>, from: usize, to: usize) -> (r: String)
    requires
        from <= to <= chars@.len(),
    ensures
        r@ == chars@.subrange(from as int, to as int),
{
    let mut r = String::new();
    let mut i: usize = from;
    while i < to
        invariant
            from <= i <= to <= chars@.len(),
            r@ == chars@.subrange(from as int, i as int),
        decreases to - i,
    {
        assert(chars@.subrange(from as int, i + 1) =~= chars@.subrange(from as int, i as int).push(
            chars@[i as int],
        ));
        r.push(chars[i]);
        i = i + 1;
    }
    r
}

/// The bytes of a text.
pub open spec fn utf8(s: Seq<char>) -> Seq<u8> {
    vstd::utf8::encode_utf8(s)
}

/// The bytes of some text.
pub open spec fn is_utf8(bytes: Seq<u8>) -> bool {
    vstd::utf8::valid_utf8(bytes)
}

/// What `String::from_utf8` says is wrong with bytes that are no text.
pub uninterp spec fn utf8_fault(bytes: Seq<u8>) -> Seq<char>;

/// `String::from_utf8`: the text of the bytes where they are one, else the
/// error in words.
#[verifier::external_body]
pub(crate) fn of_utf8(bytes: Vec<u8>) -> (r: Result<String, String>)
    ensures
        r is Ok <==> is_utf8(bytes@),
        r matches Ok(s) ==> utf8(s@) == bytes@,
        r matches Err(e) ==> e@ == utf8_fault(bytes@),
{
    match String::from_utf8(bytes) {
        Ok(s) => Ok(s),
        Err(error) => Err(error.to_string()),
    }
}

/// The string of all the characters.
pub fn of_chars(chars: &Vec<char>) -> (r: String)
    ensures
        r@ == chars@,
{
    let r = from_chars(chars, 0, chars.len());
    assert(chars@.subrange(0, chars@.len() as int) =~= chars@);
    r
}

/// Whether two strings hold the same characters.
pub fn same(a: &str, b: &str) -> (r: bool)
    ensures
        r == (a@ == b@),
{
    let x = to_chars(a);
    let y = to_chars(b);
    same_chars(&x, &y)
}

pub fn same_chars(x: &Vec<char>, y: &Vec<char>) -> (r: bool)
    ensures
        r == (x@ == y@),
{
    if x.len() != y.len() {
        return false;
    }
    let mut i: usize = 0;
    while i < x.len()
        invariant
            x@.len() == y@.len(),
            i <= x@.len(),
            forall|j: int| 0 <= j < i ==> x@[j] == y@[j],
        decreases x@.len() - i,
    {
        if x[i] != y[i] {
            return false;
        }
        i = i + 1;
    }
    assert(x@ =~= y@);
    true
}

pub fn copy(s: &str) -> (r: String)
    ensures
        r@ == s@,
{
    s.to_owned()
}

pub fn copy_opt(o: &Option<String>) -> (r: Option<String>)
    ensures
        text_of(r) == text_of(*o),
{
    match o {
        Some(s) => Some(copy(s.as_str())),
        None => None,
    }
}

pub fn copy_all(v: &Vec<String>) -> (r: Vec<String>)
    ensures
        texts(r@) == texts(v@),
{
    let mut r: Vec<String> = Vec::new();
    let mut i: usize = 0;
    while i < v.len()
        invariant
            i <= v@.len(),
            texts(r@) == texts(v@).take(i as int),
        decreases v@.len() - i,
    {
        let item = copy(v[i].as_str());
        r.push(item);
        i = i + 1;
        proof {
            assert(texts(r@) =~= texts(v@).take(i - 1).push(item@));
            assert(texts(v@).take(i as int) =~= texts(v@).take(i - 1).push(item@));
        }
    }
    assert(texts(v@).take(v@.len() as int) =~= texts(v@));
    r
}

pub fn cat(a: &str, b: &str) -> (r: String)
    ensures
        r@ == a@ + b@,
{
    let mut r = a.to_owned();
    r.append(b);
    r
}

pub fn cat3(a: &str, b: &str, c: &str) -> (r: String)
    ensures
        r@ == a@ + b@ + c@,
{
    let mut r = a.to_owned();
    r.append(b);
    r.append(c);
    r
}

pub fn cat4(a: &str, b: &str, c: &str, d: &str) -> (r: String)
    ensures
        r@ == a@ + b@ + c@ + d@,
{
    let mut r = a.to_owned();
    r.append(b);
    r.append(c);
    r.append(d);
    r
}

pub fn cat5(a: &str, b: &str, c: &str, d: &str, e: &str) -> (r: String)
    ensures
        r@ == a@ + b@ + c@ + d@ + e@,
{
    let mut r = cat4(a, b, c, d);
    r.append(e);
    r
}

pub fn ascii_lower(c: char) -> (r: char)
    ensures
        r == lower(c),
{
    if 'A' <= c && c <= 'Z' {
        let b: u8 = c as u8;
        assert(65 <= b <= 90);
        (b + 32) as char
    } else {
        c
    }
}

/// `to_ascii_lowercase`: each ASCII letter in lower case.
pub fn ascii_lowercase(s: &str) -> (r: String)
    ensures
        r@ == lowered(s@),
{
    let chars = to_chars(s);
    let mut r = String::new();
    let mut i: usize = 0;
    while i < chars.len()
        invariant
            chars@ == s@,
            i <= chars@.len(),
            r@ == lowered(s@).take(i as int),
        decreases chars@.len() - i,
    {
        let c = ascii_lower(chars[i]);
        r.push(c);
        assert(lowered(s@).take(i + 1) =~= lowered(s@).take(i as int).push(c));
        i = i + 1;
    }
    assert(lowered(s@).take(s@.len() as int) =~= lowered(s@));
    r
}

/// `to_ascii_uppercase`: each ASCII letter in upper case.
pub fn ascii_uppercase(s: &str) -> (r: String)
    ensures
        r@ == uppered(s@),
{
    let chars = to_chars(s);
    let mut r = String::new();
    let mut i: usize = 0;
    while i < chars.len()
        invariant
            chars@ == s@,
            i <= chars@.len(),
            r@ == uppered(s@).take(i as int),
        decreases chars@.len() - i,
    {
        let given = chars[i];
        let c = if 'a' <= given && given <= 'z' {
            let b: u8 = given as u8;
            assert(97 <= b <= 122);
            (b - 32) as char
        } else {
            given
        };
        r.push(c);
        assert(uppered(s@).take(i + 1) =~= uppered(s@).take(i as int).push(c));
        i = i + 1;
    }
    assert(uppered(s@).take(s@.len() as int) =~= uppered(s@));
    r
}

/// Equality up to the case of ASCII letters.
pub fn same_ignoring_case(a: &str, b: &str) -> (r: bool)
    ensures
        r == (lowered(a@) == lowered(b@)),
{
    ascii_lowercase(a) == ascii_lowercase(b)
}

proof fn lemma_trimmed_start_step(s: Seq<char>, i: int)
    requires
        0 <= i < s.len(),
        white_space(s[i]),
    ensures
        trimmed_start(s.subrange(i, s.len() as int)) == trimmed_start(
            s.subrange(i + 1, s.len() as int),
        ),
{
    let t = s.subrange(i, s.len() as int);
    assert(t.subrange(1, t.len() as int) =~= s.subrange(i + 1, s.len() as int));
}

proof fn lemma_trimmed_end_step(s: Seq<char>, from: int, to: int)
    requires
        0 <= from < to <= s.len(),
        white_space(s[to - 1]),
    ensures
        trimmed_end(s.subrange(from, to)) == trimmed_end(s.subrange(from, to - 1)),
{
    assert(s.subrange(from, to).drop_last() =~= s.subrange(from, to - 1));
}

/// The text begins and ends with a character that is no white space.
pub open spec fn inked(s: Seq<char>) -> bool {
    s.len() > 0 && !white_space(s[0]) && !white_space(s.last())
}

pub proof fn lemma_trimmed_start_ink(s: Seq<char>)
    ensures
        trimmed_start(s).len() <= s.len(),
        trimmed_start(s).len() > 0 ==> !white_space(trimmed_start(s)[0]) && trimmed_start(s).last()
            == s.last(),
        trimmed_start(s).len() == 0 ==> forall|i: int| 0 <= i < s.len() ==> white_space(s[i]),
    decreases s.len(),
{
    if s.len() > 0 && white_space(s[0]) {
        let rest = s.subrange(1, s.len() as int);
        lemma_trimmed_start_ink(rest);
        assert forall|i: int| trimmed_start(s).len() == 0 && 0 <= i < s.len() implies white_space(
            s[i],
        ) by {
            if i > 0 {
                assert(rest[i - 1] == s[i]);
            }
        }
    }
}

pub proof fn lemma_trimmed_end_ink(s: Seq<char>)
    ensures
        trimmed_end(s).len() <= s.len(),
        trimmed_end(s).len() > 0 ==> !white_space(trimmed_end(s).last()) && trimmed_end(s)[0]
            == s[0],
        trimmed_end(s).len() == 0 ==> forall|i: int| 0 <= i < s.len() ==> white_space(s[i]),
    decreases s.len(),
{
    if s.len() > 0 && white_space(s.last()) {
        let rest = s.drop_last();
        lemma_trimmed_end_ink(rest);
        assert forall|i: int| trimmed_end(s).len() == 0 && 0 <= i < s.len() implies white_space(
            s[i],
        ) by {
            if i < s.len() - 1 {
                assert(rest[i] == s[i]);
            }
        }
    }
}

/// A trimmed text is empty, or begins and ends with a character that is no white space.
pub proof fn lemma_trimmed_ink(s: Seq<char>)
    ensures
        trimmed(s).len() > 0 ==> inked(trimmed(s)),
        trimmed(s).len() == 0 <==> (forall|i: int| 0 <= i < s.len() ==> white_space(s[i])),
{
    let t = trimmed_start(s);
    lemma_trimmed_start_ink(s);
    lemma_trimmed_end_ink(t);
    if trimmed(s).len() == 0 {
        if t.len() > 0 {
            assert(white_space(t[0]));
        }
    } else if forall|i: int| 0 <= i < s.len() ==> white_space(s[i]) {
        lemma_all_white(s);
    }
}

proof fn lemma_all_white(s: Seq<char>)
    requires
        forall|i: int| 0 <= i < s.len() ==> white_space(s[i]),
    ensures
        trimmed_start(s).len() == 0,
    decreases s.len(),
{
    if s.len() > 0 {
        lemma_all_white(s.subrange(1, s.len() as int));
    }
}

/// A text that begins and ends with ink is what trimming leaves of it.
pub proof fn lemma_inked_is_trimmed(s: Seq<char>)
    requires
        inked(s),
    ensures
        trimmed(s) == s,
{
}

/// Trimming twice is trimming once.
pub proof fn law_trim_idempotent(s: Seq<char>)
    ensures
        trimmed(trimmed(s)) == trimmed(s),
{
    lemma_trimmed_ink(s);
    if trimmed(s).len() > 0 {
        lemma_inked_is_trimmed(trimmed(s));
    }
}

/// `str::trim`: without the white space at both ends.
pub fn trim(s: &str) -> (r: String)
    ensures
        r@ == trimmed(s@),
{
    let chars = to_chars(s);
    let n: usize = chars.len();
    let mut from: usize = 0;
    assert(chars@.subrange(0, n as int) =~= chars@);
    while from < n && is_white_space(chars[from])
        invariant
            chars@ == s@,
            n == chars@.len(),
            from <= n,
            trimmed_start(s@) == trimmed_start(chars@.subrange(from as int, n as int)),
        decreases n - from,
    {
        proof {
            lemma_trimmed_start_step(chars@, from as int);
        }
        from = from + 1;
    }
    let mut to: usize = n;
    while to > from && is_white_space(chars[to - 1])
        invariant
            n == chars@.len(),
            from <= to <= n,
            trimmed(s@) == trimmed_end(chars@.subrange(from as int, to as int)),
        decreases to,
    {
        proof {
            lemma_trimmed_end_step(chars@, from as int, to as int);
        }
        to = to - 1;
    }
    from_chars(&chars, from, to)
}

/// `trim_end_matches` of one character.
pub fn trim_end_of(s: &str, c: char) -> (r: String)
    ensures
        r@ == trimmed_end_of(s@, c),
{
    let chars = to_chars(s);
    let mut to: usize = chars.len();
    assert(chars@.subrange(0, to as int) =~= chars@);
    while to > 0 && chars[to - 1] == c
        invariant
            chars@ == s@,
            to <= chars@.len(),
            trimmed_end_of(s@, c) == trimmed_end_of(chars@.subrange(0, to as int), c),
        decreases to,
    {
        assert(chars@.subrange(0, to as int).drop_last() =~= chars@.subrange(0, to - 1));
        to = to - 1;
    }
    from_chars(&chars, 0, to)
}

pub fn found(chars: &Vec<char>, part: &Vec<char>, at: usize) -> (r: bool)
    ensures
        r == found_at(chars@, part@, at as int),
{
    if part.len() > chars.len() || at > chars.len() - part.len() {
        return false;
    }
    let n: usize = chars.len();
    let mut i: usize = 0;
    while i < part.len()
        invariant
            n == chars@.len(),
            i <= part@.len(),
            at + part@.len() <= n,
            forall|j: int| 0 <= j < i ==> chars@[at + j] == part@[j],
        decreases part@.len() - i,
    {
        if chars[at + i] != part[i] {
            assert(chars@.subrange(at as int, at + part@.len())[i as int] != part@[i as int]);
            return false;
        }
        i = i + 1;
    }
    assert(chars@.subrange(at as int, at + part@.len()) =~= part@);
    true
}

pub fn starts_with(s: &str, head: &str) -> (r: bool)
    ensures
        r == starts(s@, head@),
{
    let chars = to_chars(s);
    let part = to_chars(head);
    found(&chars, &part, 0)
}

pub fn ends_with(s: &str, tail: &str) -> (r: bool)
    ensures
        r == ends(s@, tail@),
{
    let chars = to_chars(s);
    let part = to_chars(tail);
    if part.len() > chars.len() {
        return false;
    }
    found(&chars, &part, chars.len() - part.len())
}

/// `str::contains` of a string.
pub fn contains(s: &str, part: &str) -> (r: bool)
    ensures
        r == holds_part(s@, part@),
{
    let chars = to_chars(s);
    let wanted = to_chars(part);
    let mut i: usize = 0;
    while i <= chars.len()
        invariant
            chars@ == s@,
            wanted@ == part@,
            i <= chars@.len() + 1,
            forall|j: int| 0 <= j < i ==> !found_at(s@, part@, j),
        decreases chars@.len() + 1 - i,
    {
        if found(&chars, &wanted, i) {
            return true;
        }
        if i == chars.len() {
            return false;
        }
        i = i + 1;
    }
    false
}

/// `strip_prefix`: what follows `head`, where the text starts with it.
pub fn strip_prefix(s: &str, head: &str) -> (r: Option<String>)
    ensures
        r is Some <==> starts(s@, head@),
        r matches Some(rest) ==> rest@ == s@.subrange(head@.len() as int, s@.len() as int),
{
    let chars = to_chars(s);
    let part = to_chars(head);
    if found(&chars, &part, 0) {
        Some(from_chars(&chars, part.len(), chars.len()))
    } else {
        None
    }
}

/// `strip_suffix`: what stands before `tail`, where the text ends with it.
pub fn strip_suffix(s: &str, tail: &str) -> (r: Option<String>)
    ensures
        r is Some <==> ends(s@, tail@),
        r matches Some(rest) ==> rest@ == s@.subrange(0, s@.len() - tail@.len()),
{
    let chars = to_chars(s);
    let part = to_chars(tail);
    if part.len() <= chars.len() && found(&chars, &part, chars.len() - part.len()) {
        Some(from_chars(&chars, 0, chars.len() - part.len()))
    } else {
        None
    }
}

/// Whether the character occurs in the string.
pub fn has_char(s: &str, c: char) -> (r: bool)
    ensures
        r == s@.contains(c),
{
    let chars = to_chars(s);
    let mut i: usize = 0;
    while i < chars.len()
        invariant
            chars@ == s@,
            i <= chars@.len(),
            forall|j: int| 0 <= j < i ==> s@[j] != c,
        decreases chars@.len() - i,
    {
        if chars[i] == c {
            return true;
        }
        i = i + 1;
    }
    false
}

proof fn lemma_pieces_at(s: Seq<char>, c: char, at: int)
    requires
        0 <= at < s.len(),
        s[at] == c,
        forall|j: int| 0 <= j < at ==> s[j] != c,
    ensures
        pieces(s, c) == seq![s.subrange(0, at)] + pieces(s.subrange(at + 1, s.len() as int), c),
{
    assert(s.contains(c));
    s.index_of_first_ensures(c);
    let found = s.index_of_first(c).unwrap();
    assert(found == at) by {
        if found < at {
            assert(s[found] != c);
        }
    }
}

/// `str::split` at one character.
pub fn split(s: &str, c: char) -> (r: Vec<String>)
    ensures
        texts(r@) == pieces(s@, c),
        r@.len() >= 1,
{
    let chars = to_chars(s);
    let n: usize = chars.len();
    let mut r: Vec<String> = Vec::new();
    let mut from: usize = 0;
    let mut i: usize = 0;
    assert(s@.subrange(0, n as int) =~= s@);
    assert(texts(r@) + pieces(s@, c) =~= pieces(s@, c));
    while i < n
        invariant
            chars@ == s@,
            n == s@.len(),
            from <= i <= n,
            forall|j: int| from <= j < i ==> s@[j] != c,
            pieces(s@, c) == texts(r@) + pieces(s@.subrange(from as int, n as int), c),
        decreases n - i,
    {
        if chars[i] == c {
            let ghost before = texts(r@);
            let ghost rest = s@.subrange(from as int, n as int);
            let piece = from_chars(&chars, from, i);
            proof {
                lemma_pieces_at(rest, c, i - from);
                assert(rest.subrange(0, i - from) =~= piece@);
                assert(rest.subrange(i - from + 1, rest.len() as int) =~= s@.subrange(
                    i + 1,
                    n as int,
                ));
            }
            r.push(piece);
            proof {
                assert(texts(r@) =~= before.push(piece@));
                assert(before + (seq![piece@] + pieces(s@.subrange(i + 1, n as int), c))
                    =~= texts(r@) + pieces(s@.subrange(i + 1, n as int), c));
            }
            from = i + 1;
        }
        i = i + 1;
    }
    let ghost before = texts(r@);
    let piece = from_chars(&chars, from, n);
    assert(!piece@.contains(c));
    assert(pieces(piece@, c) == seq![piece@]);
    r.push(piece);
    assert(texts(r@) =~= before + seq![piece@]);
    r
}

/// `str::lines`.
pub fn split_lines(s: &str) -> (r: Vec<String>)
    ensures
        texts(r@) == lines(s@),
{
    let parts = split(s, '\n');
    let n: usize = parts.len();
    let ghost all = texts(parts@);
    let mut r: Vec<String> = Vec::new();
    let mut i: usize = 0;
    while i < n - 1
        invariant
            n == parts@.len(),
            n >= 1,
            i <= n - 1,
            all == texts(parts@),
            texts(r@) == Seq::new(i as nat, |j: int| without_return(all[j])),
        decreases n - i,
    {
        let ghost before = texts(r@);
        let line = match strip_suffix(parts[i].as_str(), "\r") {
            Some(line) => line,
            None => copy(parts[i].as_str()),
        };
        proof {
            reveal_strlit("\r");
            let p = parts@[i as int]@;
            if p.len() > 0 {
                assert(p.subrange(p.len() - 1, p.len() as int) =~= seq![p.last()]);
                assert("\r"@ =~= seq!['\r']);
                assert(p.drop_last() =~= p.subrange(0, p.len() - 1));
                if p.last() == '\r' {
                    assert(ends(p, "\r"@));
                } else if ends(p, "\r"@) {
                    assert(seq![p.last()][0] == '\r');
                }
            }
            assert(line@ == without_return(all[i as int]));
        }
        r.push(line);
        i = i + 1;
        assert(texts(r@) =~= before.push(without_return(all[i - 1])));
        assert(texts(r@) =~= Seq::new(i as nat, |j: int| without_return(all[j])));
    }
    let ghost before = texts(r@);
    if !parts[n - 1].as_str().is_empty() {
        let last = copy(parts[n - 1].as_str());
        r.push(last);
        assert(texts(r@) =~= before.push(all.last()));
    }
    assert(texts(r@) =~= lines(s@));
    r
}

/// `join`: the strings with `sep` between neighbours.
pub fn join(parts: &Vec<String>, sep: &str) -> (r: String)
    ensures
        r@ == joined(texts(parts@), sep@),
{
    let mut r = String::new();
    let mut i: usize = 0;
    let ghost all = texts(parts@);
    assert(all.take(0) =~= Seq::empty());
    while i < parts.len()
        invariant
            all == texts(parts@),
            i <= parts@.len(),
            r@ == joined(all.take(i as int), sep@),
        decreases parts@.len() - i,
    {
        proof {
            assert(all.take(i + 1).drop_last() =~= all.take(i as int));
        }
        if i > 0 {
            r.append(sep);
        }
        r.append(parts[i].as_str());
        proof {
            assert(all.take(i + 1).last() == parts@[i as int]@);
            if i == 0 {
                assert(r@ =~= parts@[0]@);
            } else {
                assert(r@ =~= joined(all.take(i as int), sep@) + sep@ + parts@[i as int]@);
            }
        }
        i = i + 1;
    }
    assert(all.take(all.len() as int) =~= all);
    r
}

/// The decimal digits of a number.
pub fn number(n: u64) -> (r: String)
    ensures
        r@ == decimal(n as nat),
    decreases n,
{
    let digit: u8 = (n % 10) as u8;
    let c = (48 + digit) as char;
    let mut r = if n < 10 {
        String::new()
    } else {
        number(n / 10)
    };
    r.push(c);
    proof {
        if n < 10 {
            assert(r@ =~= seq![digit_char(n as int)]);
        }
    }
    r
}

/// The number that a text of digits stands for, a plus sign before them allowed, where
/// it is at most `max`.
pub open spec fn number_in(s: Seq<char>, max: nat) -> Option<nat> {
    let digits = unsigned_part(s);
    if digits.len() > 0 && all_digits(digits) && digits_value(digits) <= max {
        Some(digits_value(digits))
    } else {
        None
    }
}

pub open spec fn unsigned_part(s: Seq<char>) -> Seq<char> {
    if s.len() > 0 && s[0] == '+' {
        s.subrange(1, s.len() as int)
    } else {
        s
    }
}

pub open spec fn all_digits(s: Seq<char>) -> bool {
    forall|i: int| 0 <= i < s.len() ==> ascii_digit(#[trigger] s[i])
}

pub open spec fn digits_value(s: Seq<char>) -> nat
    decreases s.len(),
{
    if s.len() == 0 {
        0
    } else {
        digits_value(s.drop_last()) * 10 + ((s.last() as int - '0' as int) as nat)
    }
}

/// What a number is written as reads as that number.
pub proof fn law_decimal_reads_back(n: nat, max: nat)
    requires
        n <= max,
    ensures
        number_in(decimal(n), max) == Some(n),
{
    lemma_decimal_digits(n);
}

proof fn lemma_decimal_digits(n: nat)
    ensures
        decimal(n).len() > 0,
        all_digits(decimal(n)),
        digits_value(decimal(n)) == n,
        decimal(n)[0] != '+',
    decreases n,
{
    if n < 10 {
        assert(decimal(n).drop_last() =~= Seq::empty());
        assert(digits_value(decimal(n).drop_last()) == 0);
    } else {
        lemma_decimal_digits(n / 10);
        let all = decimal(n);
        assert(all.drop_last() =~= decimal(n / 10));
        assert(all[0] == decimal(n / 10)[0]);
        assert(all.last() as int - '0' as int == n % 10);
    }
}

proof fn lemma_value_grows(s: Seq<char>, i: int)
    requires
        0 <= i <= s.len(),
        all_digits(s),
    ensures
        digits_value(s.take(i)) <= digits_value(s),
    decreases s.len() - i,
{
    if i == s.len() {
        assert(s.take(i) =~= s);
    } else {
        assert(s.take(i + 1).drop_last() =~= s.take(i));
        assert(s.take(i + 1).last() == s[i]);
        lemma_value_grows(s, i + 1);
    }
}

/// Reads a number as it stands in a text.
pub fn parse_number(s: &str, max: u64) -> (r: Option<u64>)
    ensures
        match number_in(s@, max as nat) {
            Some(n) => r is Some && r->0 == n,
            None => r is None,
        },
{
    let chars = to_chars(s);
    let n: usize = chars.len();
    let start: usize = if n > 0 && chars[0] == '+' {
        1
    } else {
        0
    };
    let ghost digits = s@.subrange(start as int, n as int);
    assert(digits =~= unsigned_part(s@));
    if start == n {
        return None;
    }
    let mut value: u64 = 0;
    let mut i: usize = start;
    while i < n
        invariant
            n == chars.len(),
            chars@ == s@,
            start <= i <= n,
            start <= 1,
            digits == s@.subrange(start as int, n as int),
            digits == unsigned_part(s@),
            digits.len() == n - start,
            digits.len() > 0,
            forall|k: int| 0 <= k < i - start ==> ascii_digit(#[trigger] digits[k]),
            value == digits_value(digits.take(i - start)),
            value <= max,
        decreases n - i,
    {
        let c = chars[i];
        assert(digits[i - start] == c);
        if !('0' <= c && c <= '9') {
            return None;
        }
        let d: u32 = c as u32 - '0' as u32;
        let next: u128 = value as u128 * 10 + d as u128;
        proof {
            let more = digits.take(i + 1 - start);
            assert(more.drop_last() =~= digits.take(i - start));
            assert(more.last() == c);
        }
        if next > max as u128 {
            proof {
                if all_digits(digits) {
                    lemma_value_grows(digits, i + 1 - start);
                }
            }
            return None;
        }
        value = next as u64;
        i = i + 1;
    }
    assert(digits.take(n - start) =~= digits);
    Some(value)
}

/// So many spaces.
pub open spec fn spaces(n: nat) -> Seq<char> {
    Seq::new(n, |i: int| ' ')
}

pub fn blank(n: usize) -> (r: String)
    ensures
        r@ == spaces(n as nat),
{
    let mut chars: Vec<char> = Vec::new();
    let mut i: usize = 0;
    while i < n
        invariant
            i <= n,
            chars@ == spaces(i as nat),
        decreases n - i,
    {
        chars.push(' ');
        i = i + 1;
        assert(chars@ =~= spaces(i as nat));
    }
    of_chars(&chars)
}

/// What stands behind the last `c`: the whole text, where there is none.
pub open spec fn after_last(s: Seq<char>, c: char) -> Seq<char>
    decreases s.len(),
{
    if s.len() == 0 || s.last() == c {
        Seq::<char>::empty()
    } else {
        after_last(s.drop_last(), c).push(s.last())
    }
}

/// What `str::rsplit_once` finds behind the last `c`, or the whole text.
pub fn part_after_last(s: &str, c: char) -> (r: String)
    ensures
        r@ == after_last(s@, c),
{
    let chars = to_chars(s);
    let n: usize = chars.len();
    let mut from: usize = 0;
    let mut i: usize = 0;
    while i < n
        invariant
            n == chars.len(),
            chars@ == s@,
            from <= i <= n,
            after_last(s@.take(i as int), c) == s@.subrange(from as int, i as int),
        decreases n - i,
    {
        let ghost more = s@.take(i + 1);
        assert(more.drop_last() =~= s@.take(i as int));
        assert(more.last() == chars@[i as int]);
        if chars[i] == c {
            from = i + 1;
            assert(s@.subrange(from as int, i + 1) =~= Seq::<char>::empty());
        } else {
            assert(s@.subrange(from as int, i + 1) =~= s@.subrange(from as int, i as int).push(
                chars@[i as int],
            ));
        }
        i = i + 1;
    }
    assert(s@.take(n as int) =~= s@);
    from_chars(&chars, from, n)
}

/// Where `c` first stands: the length, where it does not.
pub open spec fn first_at(s: Seq<char>, c: char) -> nat
    decreases s.len(),
{
    if s.len() == 0 || s[0] == c {
        0
    } else {
        1 + first_at(s.subrange(1, s.len() as int), c)
    }
}

/// The parts before and behind the first `c`.
pub open spec fn cut(s: Seq<char>, c: char) -> Option<(Seq<char>, Seq<char>)> {
    let at = first_at(s, c);
    if at < s.len() {
        Some((s.subrange(0, at as int), s.subrange(at as int + 1, s.len() as int)))
    } else {
        None
    }
}

/// `str::split_once` at one character.
pub fn split_once(s: &str, c: char) -> (r: Option<(String, String)>)
    ensures
        match (r, cut(s@, c)) {
            (Some(p), Some(v)) => p.0@ == v.0 && p.1@ == v.1,
            (None, None) => true,
            _ => false,
        },
{
    let chars = to_chars(s);
    let n: usize = chars.len();
    let mut i: usize = 0;
    assert(s@.subrange(0, n as int) =~= s@);
    while i < n && chars[i] != c
        invariant
            n == chars.len(),
            chars@ == s@,
            i <= n,
            first_at(s@, c) == i + first_at(s@.subrange(i as int, n as int), c),
        decreases n - i,
    {
        let ghost rest = s@.subrange(i as int, n as int);
        assert(rest.subrange(1, rest.len() as int) =~= s@.subrange(i + 1, n as int));
        i = i + 1;
    }
    if i < n {
        assert(s@.subrange(i as int, n as int)[0] == c);
        Some((from_chars(&chars, 0, i), from_chars(&chars, i + 1, n)))
    } else {
        None
    }
}

/// The text without the characters `c` at its start.
pub open spec fn trimmed_start_of(s: Seq<char>, c: char) -> Seq<char>
    decreases s.len(),
{
    if s.len() > 0 && s[0] == c {
        trimmed_start_of(s.subrange(1, s.len() as int), c)
    } else {
        s
    }
}

/// `str::trim_start_matches` with one character.
pub fn trim_start_of(s: &str, c: char) -> (r: String)
    ensures
        r@ == trimmed_start_of(s@, c),
{
    let chars = to_chars(s);
    let n: usize = chars.len();
    let mut i: usize = 0;
    assert(s@.subrange(0, n as int) =~= s@);
    while i < n && chars[i] == c
        invariant
            n == chars.len(),
            chars@ == s@,
            i <= n,
            trimmed_start_of(s@, c) == trimmed_start_of(s@.subrange(i as int, n as int), c),
        decreases n - i,
    {
        let ghost rest = s@.subrange(i as int, n as int);
        assert(rest.subrange(1, rest.len() as int) =~= s@.subrange(i + 1, n as int));
        i = i + 1;
    }
    from_chars(&chars, i, n)
}

/// The text trimmed, where something is left of it.
pub open spec fn filled(s: Option<Seq<char>>) -> Option<Seq<char>> {
    match s {
        Some(t) => if trimmed(t).len() > 0 {
            Some(trimmed(t))
        } else {
            None
        },
        None => None,
    }
}

pub fn non_empty(value: &Option<String>) -> (r: Option<String>)
    ensures
        text_of(r) == filled(text_of(*value)),
{
    match value {
        Some(t) => {
            let rest = trim(t.as_str());
            if rest.as_str().is_empty() {
                None
            } else {
                Some(rest)
            }
        },
        None => None,
    }
}

/// The text with every `part` replaced, from the left.
pub open spec fn replaced(s: Seq<char>, part: Seq<char>, with: Seq<char>) -> Seq<char>
    decreases s.len(),
{
    if s.len() == 0 || part.len() == 0 {
        s
    } else if starts(s, part) {
        if part.len() <= s.len() {
            with + replaced(s.subrange(part.len() as int, s.len() as int), part, with)
        } else {
            s
        }
    } else {
        seq![s[0]] + replaced(s.subrange(1, s.len() as int), part, with)
    }
}

/// `str::replace` of a part that is not empty.
pub fn replace(s: &str, part: &str, with: &str) -> (r: String)
    requires
        part@.len() > 0,
    ensures
        r@ == replaced(s@, part@, with@),
{
    let chars = to_chars(s);
    let find = to_chars(part);
    let put = to_chars(with);
    let ghost all = s@;
    let n: usize = chars.len();
    let mut out: Vec<char> = Vec::new();
    let mut i: usize = 0;
    assert(all.subrange(0, n as int) =~= all);
    assert(out@ + replaced(all, part@, with@) =~= replaced(all, part@, with@));
    while i < n
        invariant
            n == chars.len(),
            chars@ == all,
            all == s@,
            find@ == part@,
            put@ == with@,
            find.len() > 0,
            i <= n,
            replaced(all, part@, with@) == out@ + replaced(
                all.subrange(i as int, n as int),
                part@,
                with@,
            ),
        decreases n - i,
    {
        let ghost rest = all.subrange(i as int, n as int);
        let ghost before = out@;
        if found(&chars, &find, i) {
            assert(rest.subrange(0, part@.len() as int) =~= all.subrange(
                i as int,
                i + part@.len(),
            ));
            assert(starts(rest, part@));
            let mut k: usize = 0;
            let m: usize = put.len();
            while k < m
                invariant
                    m == put.len(),
                    put@ == with@,
                    k <= m,
                    out@ == before + with@.take(k as int),
                decreases m - k,
            {
                out.push(put[k]);
                k = k + 1;
                assert(out@ =~= before + with@.take(k as int));
            }
            assert(with@.take(m as int) =~= with@);
            let ghost after = all.subrange(i + part@.len(), n as int);
            assert(rest.subrange(part@.len() as int, rest.len() as int) =~= after);
            assert(before + (with@ + replaced(after, part@, with@)) =~= out@ + replaced(
                after,
                part@,
                with@,
            ));
            i = i + find.len();
        } else {
            assert(!starts(rest, part@)) by {
                if starts(rest, part@) {
                    assert(all.subrange(i as int, i + part@.len()) =~= rest.subrange(
                        0,
                        part@.len() as int,
                    ));
                    assert(found_at(all, part@, i as int));
                }
            }
            out.push(chars[i]);
            let ghost after = all.subrange(i + 1, n as int);
            assert(rest.subrange(1, rest.len() as int) =~= after);
            assert(before + (seq![rest[0]] + replaced(after, part@, with@)) =~= out@ + replaced(
                after,
                part@,
                with@,
            ));
            i = i + 1;
        }
    }
    assert(all.subrange(n as int, n as int) =~= Seq::<char>::empty());
    assert(out@ + Seq::<char>::empty() =~= out@);
    of_chars(&out)
}

/// What `String::from_utf8_lossy` makes of some bytes.
pub uninterp spec fn lossy_text(bytes: Seq<u8>) -> Seq<char>;

/// `String::from_utf8_lossy`.
#[verifier::external_body]
pub(crate) fn read_lossy(bytes: &Vec<u8>) -> (r: String)
    ensures
        r@ == lossy_text(bytes@),
{
    String::from_utf8_lossy(bytes).into_owned()
}

pub(crate) proof fn lemma_nothing_to_trim()
    ensures
        trimmed(Seq::<char>::empty()) == Seq::<char>::empty(),
{
}

/// Up to the first place where `c` stands, a text is its own first piece.
pub(crate) proof fn lemma_first_piece(front: Seq<char>, rest: Seq<char>, c: char)
    requires
        forall|i: int| 0 <= i < front.len() ==> #[trigger] front[i] != c,
    ensures
        pieces(front, c)[0] == front,
        pieces(front + seq![c] + rest, c)[0] == front,
{
    let s = front + seq![c] + rest;
    let at = front.len() as int;
    assert(s[at] == c);
    assert forall|j: int| 0 <= j < at implies s[j] != c by {
        assert(s[j] == front[j]);
    }
    lemma_pieces_at(s, c, at);
    assert(s.subrange(0, at) =~= front);
}

pub(crate) proof fn lemma_decimal_has_only_digits(n: nat)
    ensures
        forall|i: int| 0 <= i < decimal(n).len() ==> ascii_digit(#[trigger] decimal(n)[i]),
{
    lemma_decimal_digits(n);
}

/// Trimming takes off white space at the ends, all of it and nothing else: what is left is a
/// stretch of the text with only white space round it, and none at its own ends.
pub proof fn law_trim_takes_off_white_space(s: Seq<char>) -> (r: (int, int))
    ensures
        0 <= r.0 <= r.1 <= s.len(),
        trimmed(s) == s.subrange(r.0, r.1),
        forall|i: int| 0 <= i < r.0 || r.1 <= i < s.len() ==> white_space(#[trigger] s[i]),
        r.0 < r.1 ==> !white_space(s[r.0]) && !white_space(s[r.1 - 1]),
{
    let from = lemma_trimmed_start_is_end(s);
    let t = trimmed_start(s);
    let to = lemma_trimmed_end_is_front(t);
    assert(t.subrange(0, to) =~= s.subrange(from, from + to));
    assert forall|i: int| 0 <= i < from || from + to <= i < s.len() implies white_space(
        #[trigger] s[i],
    ) by {
        if i >= from + to {
            assert(t[i - from] == s[i]);
        }
    }
    lemma_trimmed_ink(s);
    (from, from + to)
}

proof fn lemma_trimmed_start_is_end(s: Seq<char>) -> (from: int)
    ensures
        0 <= from <= s.len(),
        trimmed_start(s) == s.subrange(from, s.len() as int),
        forall|i: int| 0 <= i < from ==> white_space(#[trigger] s[i]),
    decreases s.len(),
{
    if s.len() > 0 && white_space(s[0]) {
        let rest = s.subrange(1, s.len() as int);
        let from = lemma_trimmed_start_is_end(rest);
        assert(rest.subrange(from, rest.len() as int) =~= s.subrange(from + 1, s.len() as int));
        assert forall|i: int| 0 <= i < from + 1 implies white_space(#[trigger] s[i]) by {
            if i > 0 {
                assert(rest[i - 1] == s[i]);
            }
        }
        from + 1
    } else {
        assert(s.subrange(0, s.len() as int) =~= s);
        0
    }
}

proof fn lemma_trimmed_end_is_front(s: Seq<char>) -> (to: int)
    ensures
        0 <= to <= s.len(),
        trimmed_end(s) == s.subrange(0, to),
        forall|i: int| to <= i < s.len() ==> white_space(#[trigger] s[i]),
    decreases s.len(),
{
    if s.len() > 0 && white_space(s.last()) {
        let rest = s.drop_last();
        let to = lemma_trimmed_end_is_front(rest);
        assert(rest.subrange(0, to) =~= s.subrange(0, to));
        assert forall|i: int| to <= i < s.len() implies white_space(#[trigger] s[i]) by {
            if i < s.len() - 1 {
                assert(rest[i] == s[i]);
            }
        }
        to
    } else {
        assert(s.subrange(0, s.len() as int) =~= s);
        s.len() as int
    }
}

/// Among the ASCII characters the space, the tab, the line feed, the carriage return, the
/// vertical tab and the form feed are white space, and no others.
pub proof fn law_ascii_white_space(c: char)
    requires
        c <= '\u{7f}',
    ensures
        white_space(c) <==> c == ' ' || c == '\t' || c == '\n' || c == '\r' || c == '\u{b}' || c
            == '\u{c}',
{
}

/// A value counts as given just where it holds more than white space, and then trimmed.
pub proof fn law_blank_is_not_given(s: Seq<char>)
    ensures
        filled(None) is None,
        (forall|i: int| 0 <= i < s.len() ==> white_space(#[trigger] s[i])) <==> filled(Some(s))
            is None,
        filled(Some(s)) matches Some(t) ==> t == trimmed(s) && inked(t),
{
    lemma_trimmed_ink(s);
}

/// Lower case leaves everything as it is but the ASCII capitals, which become the small
/// letters of the same place in the alphabet; upper case undoes that.
pub proof fn law_case(c: char, s: Seq<char>)
    ensures
        'A' <= c <= 'Z' ==> lower(c) as int - 'a' as int == c as int - 'A' as int && upper(lower(c))
            == c,
        'a' <= c <= 'z' ==> upper(c) as int - 'A' as int == c as int - 'a' as int && lower(upper(c))
            == c,
        !('A' <= c <= 'Z') ==> lower(c) == c,
        !('a' <= c <= 'z') ==> upper(c) == c,
        lowered(s).len() == s.len(),
        forall|i: int| 0 <= i < s.len() ==> #[trigger] lowered(s)[i] == lower(s[i]),
        lowered(lowered(s)) == lowered(s),
{
    assert(lowered(lowered(s)) =~= lowered(s));
}

/// The pieces of a text, joined by the character that it was cut at, are the text again, and
/// none of them holds that character.
pub proof fn law_pieces_join_back(s: Seq<char>, c: char)
    ensures
        pieces(s, c).len() >= 1,
        joined(pieces(s, c), seq![c]) == s,
        forall|i: int, j: int|
            0 <= i < pieces(s, c).len() && 0 <= j < pieces(s, c)[i].len() ==> #[trigger] pieces(
                s,
                c,
            )[i][j] != c,
    decreases s.len(),
{
    if s.contains(c) {
        s.index_of_first_ensures(c);
        let at = s.index_of_first(c).unwrap();
        let rest = s.subrange(at + 1, s.len() as int);
        law_pieces_join_back(rest, c);
        lemma_joined_first(s.subrange(0, at), pieces(rest, c), seq![c]);
        assert(s =~= s.subrange(0, at) + seq![c] + rest);
        assert(pieces(s, c) == seq![s.subrange(0, at)] + pieces(rest, c));
        assert forall|i: int, j: int|
            0 <= i < pieces(s, c).len() && 0 <= j < pieces(s, c)[i].len() implies #[trigger] pieces(
            s,
            c,
        )[i][j] != c by {
            if i == 0 {
                assert(pieces(s, c)[0] == s.subrange(0, at));
                assert(s.subrange(0, at)[j] == s[j]);
            } else {
                assert(pieces(s, c)[i] == pieces(rest, c)[i - 1]);
            }
        }
    } else {
        assert(pieces(s, c)[0] == s);
        assert forall|i: int, j: int|
            0 <= i < pieces(s, c).len() && 0 <= j < pieces(s, c)[i].len() implies #[trigger] pieces(
            s,
            c,
        )[i][j] != c by {
            assert(s.contains(s[j]));
        }
    }
}

proof fn lemma_joined_first(first: Seq<char>, parts: Seq<Seq<char>>, sep: Seq<char>)
    requires
        parts.len() >= 1,
    ensures
        joined(seq![first] + parts, sep) == first + sep + joined(parts, sep),
    decreases parts.len(),
{
    let all = seq![first] + parts;
    if parts.len() == 1 {
        assert(all.drop_last() =~= seq![first]);
        assert(joined(all.drop_last(), sep) == first);
    } else {
        lemma_joined_first(first, parts.drop_last(), sep);
        assert(all.drop_last() =~= seq![first] + parts.drop_last());
        assert(joined(all, sep) =~= first + sep + joined(parts, sep));
    }
}

proof fn lemma_first_at(s: Seq<char>, c: char)
    ensures
        first_at(s, c) <= s.len(),
        first_at(s, c) < s.len() ==> s[first_at(s, c) as int] == c,
        forall|i: int| 0 <= i < first_at(s, c) ==> #[trigger] s[i] != c,
    decreases s.len(),
{
    if s.len() > 0 && s[0] != c {
        let rest = s.subrange(1, s.len() as int);
        lemma_first_at(rest, c);
        assert forall|i: int| 0 <= i < first_at(s, c) implies #[trigger] s[i] != c by {
            if i > 0 {
                assert(rest[i - 1] == s[i]);
            }
        }
    }
}

/// A text is cut at the first place where the character stands, which neither part loses
/// anything to but that one character; without it there is no cut.
pub proof fn law_cut_is_at_the_first(s: Seq<char>, c: char)
    ensures
        cut(s, c) matches Some((a, b)) ==> s == a + seq![c] + b && !a.contains(c),
        cut(s, c) is None <==> !s.contains(c),
{
    lemma_first_at(s, c);
    if let Some((a, b)) = cut(s, c) {
        assert(s =~= a + seq![c] + b);
        assert(s.contains(s[first_at(s, c) as int]));
    }
}

/// Behind the last place where the character stands it does not stand again, and what comes
/// before ends with it; without it the whole text is left.
pub proof fn law_after_last_is_the_tail(s: Seq<char>, c: char)
    ensures
        !after_last(s, c).contains(c),
        after_last(s, c).len() <= s.len(),
        after_last(s, c) == s.subrange(s.len() - after_last(s, c).len(), s.len() as int),
        after_last(s, c).len() < s.len() ==> s[s.len() - after_last(s, c).len() - 1] == c,
    decreases s.len(),
{
    if s.len() > 0 && s.last() != c {
        let front = s.drop_last();
        law_after_last_is_the_tail(front, c);
        let n = after_last(front, c).len() as int;
        let r = after_last(s, c);
        assert(r =~= s.subrange(s.len() - r.len(), s.len() as int));
        if r.contains(c) {
            let i = choose|i: int| 0 <= i < r.len() && r[i] == c;
            assert(after_last(front, c)[i] == c);
        }
    } else {
        assert(s.subrange(s.len() as int, s.len() as int) =~= Seq::<char>::empty());
    }
}

} // verus!
