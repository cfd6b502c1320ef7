//! Protocol Buffers messages: fields of text, bytes and 32-bit integers, each
//! with its tag, as they are written to bytes and read back.
use crate::text;
use vstd::prelude::*;
use vstd::string::*;

verus! {

#[derive(Debug, Clone, Copy, PartialEq, Eq, Structural)]
pub enum WireType {
    Varint,
    SixtyFourBit,
    LengthDelimited,
    StartGroup,
    EndGroup,
    ThirtyTwoBit,
}

/// What is wrong with the bytes of a message.
#[derive(Debug, Clone, Copy, PartialEq, Eq, Structural)]
pub enum WireFault {
    InvalidVarint,
    InvalidKey(u64),
    InvalidWireTypeValue(u64),
    InvalidTag,
    WrongWireType { actual: WireType, expected: WireType },
    BufferUnderflow,
    NotUtf8,
    UnexpectedEndGroup,
    RecursionLimit,
}

/// How deep groups may stand in groups.
pub const RECURSION_LIMIT: u32 = 100;

/// A number in groups of seven bits, the lowest first, each but the last marked.
pub open spec fn varint(n: nat) -> Seq<u8>
    decreases n,
{
    if n < 128 {
        seq![n as u8]
    } else {
        seq![(n % 128 + 128) as u8] + varint(n / 128)
    }
}

/// The number at the front of the bytes, of which `k` bytes are read already, and
/// how many bytes it takes.
pub open spec fn varint_from(s: Seq<u8>, k: nat) -> Option<(nat, nat)>
    decreases 10 - k,
{
    if k >= 10 || s.len() == 0 {
        None
    } else if s[0] < 128 {
        if k == 9 && s[0] >= 2 {
            None
        } else {
            Some((s[0] as nat, 1nat))
        }
    } else {
        match varint_from(s.subrange(1, s.len() as int), k + 1) {
            Some((v, n)) => Some(((s[0] - 128 + 128 * v) as nat, n + 1)),
            None => None,
        }
    }
}

/// Twice as much as the numbers with `10 - k` groups of bits have.
pub open spec fn varint_limit(k: nat) -> nat
    decreases 10 - k,
{
    if k >= 9 {
        2
    } else {
        128 * varint_limit(k + 1)
    }
}

proof fn lemma_limit()
    ensures
        varint_limit(0) == 0x1_0000_0000_0000_0000,
{
    reveal_with_fuel(varint_limit, 10);
}

proof fn lemma_varint_from(s: Seq<u8>, k: nat)
    ensures
        varint_from(s, k) matches Some((v, n)) ==> v < varint_limit(k) && 1 <= n <= s.len(),
    decreases 10 - k,
{
    if k < 10 && s.len() > 0 && s[0] >= 128 {
        lemma_varint_from(s.subrange(1, s.len() as int), k + 1);
    } else if k < 9 {
        lemma_limit_at_least(k);
    }
}

proof fn lemma_limit_at_least(k: nat)
    requires
        k < 9,
    ensures
        varint_limit(k) >= 256,
    decreases 10 - k,
{
    if k < 8 {
        lemma_limit_at_least(k + 1);
    } else {
        reveal_with_fuel(varint_limit, 2);
    }
}

/// A number that is written is read back, whatever follows it.
pub proof fn law_varint_round_trip(n: nat, k: nat, tail: Seq<u8>)
    requires
        k < 10,
        n < varint_limit(k),
    ensures
        varint_from(varint(n) + tail, k) == Some((n, varint(n).len())),
    decreases n,
{
    let s = varint(n) + tail;
    if n >= 128 {
        if k == 9 {
            assert(varint_limit(9) == 2);
        }
        law_varint_round_trip(n / 128, k + 1, tail);
        assert(s.subrange(1, s.len() as int) =~= varint(n / 128) + tail);
        assert(s[0] == (n % 128 + 128) as u8);
    } else {
        assert(s[0] == n as u8);
        if k == 9 {
            assert(varint_limit(9) == 2);
        }
    }
}

/// The bytes from a place on.
pub open spec fn from(bytes: Seq<u8>, at: int) -> Seq<u8> {
    bytes.subrange(at, bytes.len() as int)
}

fn put_varint(n: u64, out: &mut Vec<u8>)
    ensures
        final(out)@ == old(out)@ + varint(n as nat),
    decreases n,
{
    let ghost before = out@;
    if n < 128 {
        out.push(n as u8);
        assert(out@ =~= before + varint(n as nat));
    } else {
        out.push((n % 128 + 128) as u8);
        put_varint(n / 128, out);
        assert(out@ =~= before + varint(n as nat));
    }
}

fn take_varint(bytes: &Vec<u8>, at: usize, k: u32) -> (r: Option<(u64, usize)>)
    requires
        at <= bytes@.len(),
        k <= 10,
    ensures
        match r {
            Some((v, n)) => varint_from(from(bytes@, at as int), k as nat) == Some(
                (v as nat, n as nat),
            ) && 1 <= n && at + n <= bytes@.len(),
            None => varint_from(from(bytes@, at as int), k as nat) is None,
        },
    decreases 10 - k,
{
    let ghost s = from(bytes@, at as int);
    if k >= 10 || at == bytes.len() {
        return None;
    }
    let b = bytes[at];
    assert(b == s[0]);
    if b < 128 {
        if k == 9 && b >= 2 {
            return None;
        }
        return Some((b as u64, 1));
    }
    assert(s.subrange(1, s.len() as int) =~= from(bytes@, at + 1));
    proof {
        lemma_varint_from(from(bytes@, at + 1), (k + 1) as nat);
        lemma_varint_from(s, k as nat);
        lemma_limit_falls(k as nat);
        lemma_limit();
    }
    match take_varint(bytes, at + 1, k + 1) {
        Some((v, n)) => Some(((b - 128) as u64 + 128 * v, n + 1)),
        None => None,
    }
}

proof fn lemma_limit_falls(k: nat)
    ensures
        k <= 10 ==> varint_limit(k) <= varint_limit(0),
    decreases k,
{
    if 0 < k <= 10 {
        lemma_limit_falls((k - 1) as nat);
    }
}

pub open spec fn wire_type_of(n: int) -> Option<WireType> {
    if n == 0 {
        Some(WireType::Varint)
    } else if n == 1 {
        Some(WireType::SixtyFourBit)
    } else if n == 2 {
        Some(WireType::LengthDelimited)
    } else if n == 3 {
        Some(WireType::StartGroup)
    } else if n == 4 {
        Some(WireType::EndGroup)
    } else if n == 5 {
        Some(WireType::ThirtyTwoBit)
    } else {
        None
    }
}

/// The tag and the kind at the front of the bytes, and how many bytes they take.
pub open spec fn key_at(s: Seq<u8>) -> Result<(nat, WireType, nat), WireFault> {
    match varint_from(s, 0) {
        None => Err(WireFault::InvalidVarint),
        Some((key, used)) => if key > u32::MAX {
            Err(WireFault::InvalidKey(key as u64))
        } else if wire_type_of((key % 8) as int) is None {
            Err(WireFault::InvalidWireTypeValue((key % 8) as u64))
        } else if key / 8 < 1 {
            Err(WireFault::InvalidTag)
        } else {
            Ok((key / 8, wire_type_of((key % 8) as int)->0, used))
        },
    }
}

fn take_key(bytes: &Vec<u8>, at: usize) -> (r: Result<(u32, WireType, usize), WireFault>)
    requires
        at <= bytes@.len(),
    ensures
        match r {
            Ok((tag, kind, used)) => key_at(from(bytes@, at as int)) == Ok::<
                (nat, WireType, nat),
                WireFault,
            >((tag as nat, kind, used as nat)) && 1 <= used && at + used <= bytes@.len(),
            Err(e) => key_at(from(bytes@, at as int)) == Err::<(nat, WireType, nat), WireFault>(e),
        },
{
    match take_varint(bytes, at, 0) {
        None => Err(WireFault::InvalidVarint),
        Some((key, used)) => {
            if key > u32::MAX as u64 {
                return Err(WireFault::InvalidKey(key));
            }
            let n: u64 = key % 8;
            let kind = if n == 0 {
                WireType::Varint
            } else if n == 1 {
                WireType::SixtyFourBit
            } else if n == 2 {
                WireType::LengthDelimited
            } else if n == 3 {
                WireType::StartGroup
            } else if n == 4 {
                WireType::EndGroup
            } else if n == 5 {
                WireType::ThirtyTwoBit
            } else {
                return Err(WireFault::InvalidWireTypeValue(n));
            };
            let tag: u32 = (key / 8) as u32;
            if tag < 1 {
                return Err(WireFault::InvalidTag);
            }
            Ok((tag, kind, used))
        },
    }
}

/// How many bytes the value of an unknown field takes. `depth` is how many more
/// groups may stand around it.
pub open spec fn skipped(tag: nat, kind: WireType, s: Seq<u8>, depth: nat) -> Result<nat, WireFault>
    decreases depth, s.len(), 1nat,
{
    if depth == 0 {
        Err(WireFault::RecursionLimit)
    } else {
        match kind {
            WireType::Varint => match varint_from(s, 0) {
                None => Err(WireFault::InvalidVarint),
                Some((_, used)) => Ok(used),
            },
            WireType::ThirtyTwoBit => room(s, 0, 4),
            WireType::SixtyFourBit => room(s, 0, 8),
            WireType::LengthDelimited => match varint_from(s, 0) {
                None => Err(WireFault::InvalidVarint),
                Some((len, used)) => room(s, used, len),
            },
            WireType::StartGroup => group_skipped(tag, s, depth),
            WireType::EndGroup => Err(WireFault::UnexpectedEndGroup),
        }
    }
}

/// `len` bytes behind the first `used` ones, where there are as many.
pub open spec fn room(s: Seq<u8>, used: nat, len: nat) -> Result<nat, WireFault> {
    if used + len > s.len() {
        Err(WireFault::BufferUnderflow)
    } else {
        Ok(used + len)
    }
}

/// How many bytes a group takes, from behind its start to behind its end.
pub open spec fn group_skipped(tag: nat, s: Seq<u8>, depth: nat) -> Result<nat, WireFault>
    decreases depth, s.len(), 0nat,
{
    match key_at(s) {
        Err(e) => Err(e),
        Ok((inner, kind, used)) => if used == 0 || used > s.len() || depth == 0 {
            Err(WireFault::InvalidVarint)
        } else if kind == WireType::EndGroup {
            if inner == tag {
                Ok(used)
            } else {
                Err(WireFault::UnexpectedEndGroup)
            }
        } else {
            match skipped(inner, kind, from(s, used as int), (depth - 1) as nat) {
                Err(e) => Err(e),
                Ok(n) => if used + n > s.len() {
                    Err(WireFault::BufferUnderflow)
                } else {
                    match group_skipped(tag, from(s, (used + n) as int), depth) {
                        Err(e) => Err(e),
                        Ok(m) => Ok(used + n + m),
                    }
                },
            }
        },
    }
}

fn skip_field(tag: u32, kind: WireType, bytes: &Vec<u8>, at: usize, depth: u32) -> (r: Result<
    usize,
    WireFault,
>)
    requires
        at <= bytes@.len(),
    ensures
        match r {
            Ok(n) => skipped(tag as nat, kind, from(bytes@, at as int), depth as nat) == Ok::<
                nat,
                WireFault,
            >(n as nat) && at + n <= bytes@.len(),
            Err(e) => skipped(tag as nat, kind, from(bytes@, at as int), depth as nat) == Err::<
                nat,
                WireFault,
            >(e),
        },
    decreases depth, 1nat,
{
    if depth == 0 {
        return Err(WireFault::RecursionLimit);
    }
    let left: usize = bytes.len() - at;
    match kind {
        WireType::Varint => match take_varint(bytes, at, 0) {
            None => Err(WireFault::InvalidVarint),
            Some((_, used)) => Ok(used),
        },
        WireType::ThirtyTwoBit => if 4 > left {
            Err(WireFault::BufferUnderflow)
        } else {
            Ok(4)
        },
        WireType::SixtyFourBit => if 8 > left {
            Err(WireFault::BufferUnderflow)
        } else {
            Ok(8)
        },
        WireType::LengthDelimited => match take_varint(bytes, at, 0) {
            None => Err(WireFault::InvalidVarint),
            Some((len, used)) => if len > (left - used) as u64 {
                Err(WireFault::BufferUnderflow)
            } else {
                Ok(used + len as usize)
            },
        },
        WireType::StartGroup => skip_group(tag, bytes, at, depth),
        WireType::EndGroup => Err(WireFault::UnexpectedEndGroup),
    }
}

/// The same number of bytes, counted from further back.
spec fn behind(done: nat, r: Result<nat, WireFault>) -> Result<nat, WireFault> {
    match r {
        Ok(n) => Ok(done + n),
        Err(e) => Err(e),
    }
}

fn skip_group(tag: u32, bytes: &Vec<u8>, at: usize, depth: u32) -> (r: Result<usize, WireFault>)
    requires
        at <= bytes@.len(),
        depth > 0,
    ensures
        match r {
            Ok(n) => group_skipped(tag as nat, from(bytes@, at as int), depth as nat) == Ok::<
                nat,
                WireFault,
            >(n as nat) && at + n <= bytes@.len(),
            Err(e) => group_skipped(tag as nat, from(bytes@, at as int), depth as nat) == Err::<
                nat,
                WireFault,
            >(e),
        },
    decreases depth, 0nat,
{
    let end: usize = bytes.len();
    let mut done: usize = 0;
    loop
        invariant
            end == bytes@.len(),
            at + done <= end,
            depth > 0,
            group_skipped(tag as nat, from(bytes@, at as int), depth as nat) == behind(
                done as nat,
                group_skipped(tag as nat, from(bytes@, at + done), depth as nat),
            ),
        decreases end - at - done,
    {
        let ghost s = from(bytes@, at + done);
        match take_key(bytes, at + done) {
            Err(e) => {
                return Err(e);
            },
            Ok((inner, kind, used)) => {
                if kind == WireType::EndGroup {
                    if inner == tag {
                        return Ok(done + used);
                    }
                    return Err(WireFault::UnexpectedEndGroup);
                }
                assert(from(s, used as int) =~= from(bytes@, at + done + used));
                match skip_field(inner, kind, bytes, at + done + used, depth - 1) {
                    Err(e) => {
                        return Err(e);
                    },
                    Ok(n) => {
                        assert(from(s, used + n) =~= from(bytes@, at + done + used + n));
                        done = done + used + n;
                    },
                }
            },
        }
    }
}

/// What a field holds.
#[derive(Debug, Clone, Copy, PartialEq, Eq, Structural)]
pub enum FieldKind {
    Text,
    Bytes,
    Int,
}

/// A field of a message: its tag, its name and what it holds.
#[derive(Debug, Clone, Copy)]
pub struct Field {
    pub tag: u32,
    pub name: &'static str,
    pub kind: FieldKind,
}

#[derive(Debug, Clone, PartialEq, Eq)]
pub enum FieldValue {
    Text(String),
    Bytes(Vec<u8>),
    Int(i32),
}

pub enum ValueView {
    Text(Seq<char>),
    Bytes(Seq<u8>),
    Int(i32),
}

impl View for FieldValue {
    type V = ValueView;

    open spec fn view(&self) -> ValueView {
        match self {
            FieldValue::Text(t) => ValueView::Text(t@),
            FieldValue::Bytes(b) => ValueView::Bytes(b@),
            FieldValue::Int(n) => ValueView::Int(*n),
        }
    }
}

pub open spec fn values(v: Seq<FieldValue>) -> Seq<ValueView> {
    Seq::new(v.len(), |i: int| v[i]@)
}

impl ValueView {
    pub open spec fn kind(self) -> FieldKind {
        match self {
            ValueView::Text(_) => FieldKind::Text,
            ValueView::Bytes(_) => FieldKind::Bytes,
            ValueView::Int(_) => FieldKind::Int,
        }
    }
}

pub open spec fn blank(kind: FieldKind) -> ValueView {
    match kind {
        FieldKind::Text => ValueView::Text(Seq::empty()),
        FieldKind::Bytes => ValueView::Bytes(Seq::empty()),
        FieldKind::Int => ValueView::Int(0),
    }
}

/// A message in which no field is set.
pub open spec fn blanks(fields: Seq<Field>) -> Seq<ValueView> {
    Seq::new(fields.len(), |i: int| blank(fields[i].kind))
}

/// An integer as the 64-bit number that is written for it.
pub open spec fn widened(n: i32) -> nat {
    if n < 0 {
        (0x1_0000_0000_0000_0000 + n) as nat
    } else {
        n as nat
    }
}

/// The integer in the low 32 bits of a number.
pub open spec fn narrowed(n: nat) -> i32 {
    let low = n % 0x1_0000_0000;
    if low >= 0x8000_0000 {
        (low - 0x1_0000_0000) as i32
    } else {
        low as i32
    }
}

/// The bytes of one field: none where it is not set.
pub open spec fn field_bytes(field: Field, value: ValueView) -> Seq<u8> {
    match value {
        ValueView::Text(t) => if t.len() == 0 {
            Seq::empty()
        } else {
            counted_bytes(field.tag as nat, text::utf8(t))
        },
        ValueView::Bytes(b) => if b.len() == 0 {
            Seq::empty()
        } else {
            counted_bytes(field.tag as nat, b)
        },
        ValueView::Int(n) => if n == 0 {
            Seq::empty()
        } else {
            varint(field.tag as nat * 8) + varint(widened(n))
        },
    }
}

pub open spec fn counted_bytes(tag: nat, data: Seq<u8>) -> Seq<u8> {
    varint(tag * 8 + 2) + varint(data.len()) + data
}

/// The bytes of the fields from the place `i` on.
pub open spec fn encoded_from(fields: Seq<Field>, v: Seq<ValueView>, i: int) -> Seq<u8>
    decreases fields.len() - i,
{
    if i < 0 || i >= fields.len() {
        Seq::empty()
    } else {
        field_bytes(fields[i], v[i]) + encoded_from(fields, v, i + 1)
    }
}

/// The bytes of a message: its fields one after the other.
pub open spec fn encoded(fields: Seq<Field>, v: Seq<ValueView>) -> Seq<u8> {
    encoded_from(fields, v, 0)
}

/// The fields have tags that can be written, each its own, and the values fit them.
pub open spec fn fitting(fields: Seq<Field>, v: Seq<ValueView>) -> bool {
    &&& fields.len() == v.len()
    &&& forall|i: int| #![trigger fields[i]] 0 <= i < fields.len() ==> v[i].kind() == fields[i].kind
}

pub open spec fn distinct(fields: Seq<Field>) -> bool {
    &&& forall|i: int|
        #![trigger fields[i]]
        0 <= i < fields.len() ==> 1 <= fields[i].tag < 0x2000_0000
    &&& forall|i: int, j: int|
        #![trigger fields[i], fields[j]]
        0 <= i < j < fields.len() ==> fields[i].tag != fields[j].tag
}

fn put_counted(tag: u32, data: &[u8], out: &mut Vec<u8>)
    requires
        1 <= tag < 0x2000_0000,
    ensures
        final(out)@ == old(out)@ + counted_bytes(tag as nat, data@),
{
    let ghost before = out@;
    put_varint(tag as u64 * 8 + 2, out);
    put_varint(data.len() as u64, out);
    out.extend_from_slice(data);
    assert(out@ =~= before + counted_bytes(tag as nat, data@));
}

fn put_field(field: &Field, value: &FieldValue, out: &mut Vec<u8>)
    requires
        1 <= field.tag < 0x2000_0000,
    ensures
        final(out)@ == old(out)@ + field_bytes(*field, value@),
{
    let ghost before = out@;
    match value {
        FieldValue::Text(t) => if !t.as_str().is_empty() {
            put_counted(field.tag, t.as_str().as_bytes(), out);
        },
        FieldValue::Bytes(b) => if !b.is_empty() {
            put_counted(field.tag, b.as_slice(), out);
        },
        FieldValue::Int(n) => if *n != 0 {
            put_varint(field.tag as u64 * 8, out);
            let wide: u64 = if *n < 0 {
                u64::MAX - ((-(*n as i64)) as u64) + 1
            } else {
                *n as u64
            };
            put_varint(wide, out);
            assert(out@ =~= before + field_bytes(*field, value@));
        },
    }
    assert(out@ =~= before + field_bytes(*field, value@));
}

/// Writes a message.
pub fn encode(fields: &Vec<Field>, v: &Vec<FieldValue>) -> (r: Vec<u8>)
    requires
        distinct(fields@),
        fields@.len() == v@.len(),
    ensures
        r@ == encoded(fields@, values(v@)),
{
    let mut out: Vec<u8> = Vec::new();
    let ghost all = values(v@);
    let mut i: usize = 0;
    assert(out@ + encoded_from(fields@, all, 0) =~= encoded(fields@, all));
    while i < fields.len()
        invariant
            i <= fields@.len(),
            fields@.len() == v@.len(),
            distinct(fields@),
            all == values(v@),
            out@ + encoded_from(fields@, all, i as int) == encoded(fields@, all),
        decreases fields@.len() - i,
    {
        let ghost before = out@;
        put_field(&fields[i], &v[i], &mut out);
        proof {
            let rest = encoded_from(fields@, all, i + 1);
            assert(before + (field_bytes(fields@[i as int], all[i as int]) + rest) =~= out@ + rest);
        }
        i = i + 1;
    }
    assert(out@ + Seq::<u8>::empty() =~= out@);
    out
}

/// A fault where one field stands, by the field's name.
pub struct FieldFault {
    pub field: Option<&'static str>,
    pub fault: WireFault,
}

pub enum Decoded {
    Message(Seq<ValueView>),
    Fault(Option<Seq<char>>, WireFault),
}

/// The place of the field with that tag.
pub open spec fn place_of(fields: Seq<Field>, tag: nat) -> Option<int>
    decreases fields.len(),
{
    if fields.len() == 0 {
        None
    } else if fields.last().tag == tag {
        Some(fields.len() - 1)
    } else {
        place_of(fields.drop_last(), tag)
    }
}

/// The value of a field of that kind at the front of the bytes, and its length.
pub open spec fn value_at(kind: FieldKind, wire: WireType, s: Seq<u8>) -> Result<
    (ValueView, nat),
    WireFault,
> {
    let expected = if kind is Int {
        WireType::Varint
    } else {
        WireType::LengthDelimited
    };
    if wire != expected {
        Err(WireFault::WrongWireType { actual: wire, expected })
    } else {
        match varint_from(s, 0) {
            None => Err(WireFault::InvalidVarint),
            Some((n, used)) => if kind is Int {
                Ok((ValueView::Int(narrowed(n)), used))
            } else if used + n > s.len() {
                Err(WireFault::BufferUnderflow)
            } else {
                let data = s.subrange(used as int, (used + n) as int);
                if kind is Bytes {
                    Ok((ValueView::Bytes(data), used + n))
                } else if text::is_utf8(data) {
                    Ok((ValueView::Text(vstd::utf8::decode_utf8(data)), used + n))
                } else {
                    Err(WireFault::NotUtf8)
                }
            },
        }
    }
}

/// What is read from the bytes, where the fields before them gave `sofar`. A field
/// that comes twice has its last value, and an unknown one is passed over.
pub open spec fn decoded(fields: Seq<Field>, sofar: Seq<ValueView>, s: Seq<u8>) -> Decoded
    decreases s.len(),
{
    if s.len() == 0 {
        Decoded::Message(sofar)
    } else {
        match key_at(s) {
            Err(e) => Decoded::Fault(None, e),
            Ok((tag, wire, used)) => if used == 0 || used > s.len() {
                Decoded::Fault(None, WireFault::InvalidVarint)
            } else {
                let rest = from(s, used as int);
                match place_of(fields, tag) {
                    None => match skipped(tag, wire, rest, RECURSION_LIMIT as nat) {
                        Err(e) => Decoded::Fault(None, e),
                        Ok(n) => if n > rest.len() {
                            Decoded::Fault(None, WireFault::BufferUnderflow)
                        } else {
                            decoded(fields, sofar, from(rest, n as int))
                        },
                    },
                    Some(i) => match value_at(fields[i].kind, wire, rest) {
                        Err(e) => Decoded::Fault(Some(fields[i].name@), e),
                        Ok((v, n)) => if n > rest.len() {
                            Decoded::Fault(None, WireFault::BufferUnderflow)
                        } else {
                            decoded(fields, sofar.update(i, v), from(rest, n as int))
                        },
                    },
                }
            },
        }
    }
}

fn find_field(fields: &Vec<Field>, tag: u32) -> (r: Option<usize>)
    ensures
        match r {
            Some(i) => place_of(fields@, tag as nat) == Some(i as int) && i < fields@.len(),
            None => place_of(fields@, tag as nat) is None,
        },
{
    let mut i: usize = fields.len();
    assert(fields@.take(i as int) =~= fields@);
    while i > 0
        invariant
            i <= fields@.len(),
            place_of(fields@, tag as nat) == place_of(fields@.take(i as int), tag as nat),
        decreases i,
    {
        assert(fields@.take(i as int).drop_last() =~= fields@.take(i - 1));
        assert(fields@.take(i as int).last() == fields@[i - 1]);
        if fields[i - 1].tag == tag {
            return Some(i - 1);
        }
        i = i - 1;
    }
    None
}

fn take_value(kind: FieldKind, wire: WireType, bytes: &Vec<u8>, at: usize) -> (r: Result<
    (FieldValue, usize),
    WireFault,
>)
    requires
        at <= bytes@.len(),
    ensures
        match r {
            Ok((v, n)) => value_at(kind, wire, from(bytes@, at as int)) == Ok::<
                (ValueView, nat),
                WireFault,
            >((v@, n as nat)) && at + n <= bytes@.len(),
            Err(e) => value_at(kind, wire, from(bytes@, at as int)) == Err::<
                (ValueView, nat),
                WireFault,
            >(e),
        },
{
    let ghost s = from(bytes@, at as int);
    let expected = match kind {
        FieldKind::Int => WireType::Varint,
        _ => WireType::LengthDelimited,
    };
    if wire != expected {
        return Err(WireFault::WrongWireType { actual: wire, expected });
    }
    let left: usize = bytes.len() - at;
    match take_varint(bytes, at, 0) {
        None => Err(WireFault::InvalidVarint),
        Some((n, used)) => match kind {
            FieldKind::Int => {
                let low: u64 = n % 0x1_0000_0000;
                let value: i32 = if low >= 0x8000_0000 {
                    (low as i64 - 0x1_0000_0000) as i32
                } else {
                    low as i32
                };
                Ok((FieldValue::Int(value), used))
            },
            _ => {
                if n > (left - used) as u64 {
                    return Err(WireFault::BufferUnderflow);
                }
                let len: usize = n as usize;
                let data = slice_of(bytes, at + used, at + used + len);
                assert(data@ =~= s.subrange(used as int, used + len));
                if kind == FieldKind::Bytes {
                    return Ok((FieldValue::Bytes(data), used + len));
                }
                match text::of_utf8(data) {
                    Ok(t) => {
                        proof {
                            vstd::utf8::encode_utf8_decode_utf8(t@);
                        }
                        Ok((FieldValue::Text(t), used + len))
                    },
                    Err(_) => Err(WireFault::NotUtf8),
                }
            },
        },
    }
}

fn slice_of(bytes: &Vec<u8>, from: usize, to: usize) -> (r: Vec<u8>)
    requires
        from <= to <= bytes@.len(),
    ensures
        r@ == bytes@.subrange(from as int, to as int),
{
    let mut r: Vec<u8> = Vec::new();
    let mut i: usize = from;
    while i < to
        invariant
            from <= i <= to <= bytes@.len(),
            r@ == bytes@.subrange(from as int, i as int),
        decreases to - i,
    {
        r.push(bytes[i]);
        i = i + 1;
        assert(bytes@.subrange(from as int, i as int) =~= bytes@.subrange(
            from as int,
            i - 1,
        ).push(bytes@[i - 1]));
    }
    r
}

fn blank_values(fields: &Vec<Field>) -> (r: Vec<FieldValue>)
    ensures
        values(r@) == blanks(fields@),
        r@.len() == fields@.len(),
{
    let mut r: Vec<FieldValue> = Vec::new();
    let mut i: usize = 0;
    while i < fields.len()
        invariant
            i <= fields@.len(),
            r@.len() == i,
            values(r@) == blanks(fields@).take(i as int),
        decreases fields@.len() - i,
    {
        let ghost before = values(r@);
        let value = match fields[i].kind {
            FieldKind::Text => FieldValue::Text(String::new()),
            FieldKind::Bytes => FieldValue::Bytes(Vec::new()),
            FieldKind::Int => FieldValue::Int(0),
        };
        assert(value@ == blank(fields@[i as int].kind));
        r.push(value);
        proof {
            assert(values(r@) =~= before.push(value@));
            assert(blanks(fields@).take(i + 1) =~= blanks(fields@).take(i as int).push(value@));
        }
        i = i + 1;
    }
    assert(blanks(fields@).take(i as int) =~= blanks(fields@));
    r
}

/// Reads a message.
pub fn decode(fields: &Vec<Field>, bytes: &Vec<u8>) -> (r: Result<Vec<FieldValue>, FieldFault>)
    ensures
        match r {
            Ok(v) => decoded(fields@, blanks(fields@), bytes@) == Decoded::Message(values(v@)),
            Err(e) => decoded(fields@, blanks(fields@), bytes@) == Decoded::Fault(
                match e.field {
                    Some(name) => Some(name@),
                    None => None,
                },
                e.fault,
            ),
        },
{
    let mut v = blank_values(fields);
    let mut at: usize = 0;
    let end: usize = bytes.len();
    assert(from(bytes@, 0) =~= bytes@);
    while at < end
        invariant
            at <= end,
            end == bytes@.len(),
            v@.len() == fields@.len(),
            decoded(fields@, blanks(fields@), bytes@) == decoded(
                fields@,
                values(v@),
                from(bytes@, at as int),
            ),
        decreases end - at,
    {
        let ghost s = from(bytes@, at as int);
        let (tag, wire, used) = match take_key(bytes, at) {
            Err(e) => {
                return Err(FieldFault { field: None, fault: e });
            },
            Ok(key) => key,
        };
        assert(from(s, used as int) =~= from(bytes@, at + used));
        match find_field(fields, tag) {
            None => match skip_field(tag, wire, bytes, at + used, RECURSION_LIMIT) {
                Err(e) => {
                    return Err(FieldFault { field: None, fault: e });
                },
                Ok(n) => {
                    assert(from(from(s, used as int), n as int) =~= from(bytes@, at + used + n));
                    at = at + used + n;
                },
            },
            Some(i) => match take_value(fields[i].kind, wire, bytes, at + used) {
                Err(e) => {
                    return Err(FieldFault { field: Some(fields[i].name), fault: e });
                },
                Ok((value, n)) => {
                    assert(from(from(s, used as int), n as int) =~= from(bytes@, at + used + n));
                    let ghost before = values(v@);
                    let ghost shown = value@;
                    v.set(i, value);
                    assert(values(v@) =~= before.update(i as int, shown));
                    at = at + used + n;
                },
            },
        }
    }
    Ok(v)
}

impl WireType {
    pub open spec fn label(self) -> Seq<char> {
        match self {
            WireType::Varint => "Varint"@,
            WireType::SixtyFourBit => "SixtyFourBit"@,
            WireType::LengthDelimited => "LengthDelimited"@,
            WireType::StartGroup => "StartGroup"@,
            WireType::EndGroup => "EndGroup"@,
            WireType::ThirtyTwoBit => "ThirtyTwoBit"@,
        }
    }

    pub fn name(self) -> (r: &'static str)
        ensures
            r@ == self.label(),
    {
        match self {
            WireType::Varint => "Varint",
            WireType::SixtyFourBit => "SixtyFourBit",
            WireType::LengthDelimited => "LengthDelimited",
            WireType::StartGroup => "StartGroup",
            WireType::EndGroup => "EndGroup",
            WireType::ThirtyTwoBit => "ThirtyTwoBit",
        }
    }
}

impl WireFault {
    pub open spec fn words(self) -> Seq<char> {
        match self {
            WireFault::InvalidVarint => "invalid varint"@,
            WireFault::InvalidKey(key) => "invalid key value: "@ + text::decimal(key as nat),
            WireFault::InvalidWireTypeValue(n) => "invalid wire type value: "@ + text::decimal(
                n as nat,
            ),
            WireFault::InvalidTag => "invalid tag value: 0"@,
            WireFault::WrongWireType { actual, expected } => "invalid wire type: "@
                + actual.label() + " (expected "@ + expected.label() + ")"@,
            WireFault::BufferUnderflow => "buffer underflow"@,
            WireFault::NotUtf8 => "invalid string value: data is not UTF-8 encoded"@,
            WireFault::UnexpectedEndGroup => "unexpected end group tag"@,
            WireFault::RecursionLimit => "recursion limit reached"@,
        }
    }

    /// The fault in words.
    pub fn message(&self) -> (r: String)
        ensures
            r@ == self.words(),
    {
        match self {
            WireFault::InvalidVarint => text::copy("invalid varint"),
            WireFault::InvalidKey(key) => text::cat(
                "invalid key value: ",
                text::number(*key).as_str(),
            ),
            WireFault::InvalidWireTypeValue(n) => text::cat(
                "invalid wire type value: ",
                text::number(*n).as_str(),
            ),
            WireFault::InvalidTag => text::copy("invalid tag value: 0"),
            WireFault::WrongWireType { actual, expected } => text::cat5(
                "invalid wire type: ",
                actual.name(),
                " (expected ",
                expected.name(),
                ")",
            ),
            WireFault::BufferUnderflow => text::copy("buffer underflow"),
            WireFault::NotUtf8 => text::copy("invalid string value: data is not UTF-8 encoded"),
            WireFault::UnexpectedEndGroup => text::copy("unexpected end group tag"),
            WireFault::RecursionLimit => text::copy("recursion limit reached"),
        }
    }
}

impl FieldFault {
    pub open spec fn words(self, message: Seq<char>) -> Seq<char> {
        "failed to decode Protobuf message: "@ + (match self.field {
            Some(field) => message + "."@ + field@ + ": "@,
            None => Seq::empty(),
        }) + self.fault.words()
    }

    /// The fault in words, in a message of that name.
    pub fn message(&self, message: &str) -> (r: String)
        ensures
            r@ == self.words(message@),
    {
        let place = match self.field {
            Some(field) => text::cat4(message, ".", field, ": "),
            None => String::new(),
        };
        text::cat3(
            "failed to decode Protobuf message: ",
            place.as_str(),
            self.fault.message().as_str(),
        )
    }
}

proof fn lemma_place_of(fields: Seq<Field>, i: int)
    requires
        distinct(fields),
        0 <= i < fields.len(),
    ensures
        place_of(fields, fields[i].tag as nat) == Some(i),
    decreases fields.len(),
{
    if i < fields.len() - 1 {
        assert(fields[i].tag != fields[fields.len() - 1].tag);
        let front = fields.drop_last();
        assert(front[i] == fields[i]);
        assert forall|a: int, b: int| #![trigger front[a], front[b]]
            0 <= a < b < front.len() implies front[a].tag != front[b].tag by {
            assert(front[a] == fields[a] && front[b] == fields[b]);
        }
        assert forall|a: int| #![trigger front[a]] 0 <= a < front.len() implies 1 <= front[a].tag
            < 0x2000_0000 by {
            assert(front[a] == fields[a]);
        }
        lemma_place_of(front, i);
    }
}

/// What is read has a value of the right kind for every field.
pub proof fn lemma_decoded_fits(fields: Seq<Field>, sofar: Seq<ValueView>, s: Seq<u8>)
    requires
        fitting(fields, sofar),
    ensures
        decoded(fields, sofar, s) matches Decoded::Message(v) ==> fitting(fields, v),
    decreases s.len(),
{
    if s.len() > 0 {
        if let Ok((tag, wire, used)) = key_at(s) {
            if used > 0 && used <= s.len() {
                let rest = from(s, used as int);
                match place_of(fields, tag) {
                    None => {
                        if let Ok(n) = skipped(tag, wire, rest, RECURSION_LIMIT as nat) {
                            if n <= rest.len() {
                                lemma_decoded_fits(fields, sofar, from(rest, n as int));
                            }
                        }
                    },
                    Some(i) => {
                        lemma_place_bounds(fields, tag);
                        if let Ok((v, n)) = value_at(fields[i].kind, wire, rest) {
                            if n <= rest.len() {
                                lemma_decoded_fits(
                                    fields,
                                    sofar.update(i, v),
                                    from(rest, n as int),
                                );
                            }
                        }
                    },
                }
            }
        }
    }
}

proof fn lemma_place_bounds(fields: Seq<Field>, tag: nat)
    ensures
        place_of(fields, tag) matches Some(i) ==> 0 <= i < fields.len() && fields[i].tag == tag,
    decreases fields.len(),
{
    if fields.len() > 0 && fields.last().tag != tag {
        lemma_place_bounds(fields.drop_last(), tag);
        if let Some(i) = place_of(fields.drop_last(), tag) {
            assert(fields.drop_last()[i] == fields[i]);
        }
    }
}

/// How many bytes the value itself takes.
pub open spec fn size(v: ValueView) -> nat {
    match v {
        ValueView::Text(t) => text::utf8(t).len(),
        ValueView::Bytes(b) => b.len(),
        ValueView::Int(_) => 0,
    }
}

/// The number of bytes fits into the count that is written before them.
pub open spec fn countable(v: ValueView) -> bool {
    size(v) <= u64::MAX
}

proof fn lemma_key_round_trip(tag: nat, kind: int, tail: Seq<u8>)
    requires
        1 <= tag < 0x2000_0000,
        kind == 0 || kind == 2,
    ensures
        key_at(varint((tag * 8 + kind) as nat) + tail) == Ok::<(nat, WireType, nat), WireFault>(
            (tag, wire_type_of(kind)->0, varint((tag * 8 + kind) as nat).len()),
        ),
{
    let key = (tag * 8 + kind) as nat;
    lemma_limit();
    law_varint_round_trip(key, 0, tail);
    assert(key % 8 == kind);
    assert(key / 8 == tag);
}

proof fn lemma_widened(n: i32)
    ensures
        narrowed(widened(n)) == n,
        widened(n) < 0x1_0000_0000_0000_0000,
{
}

proof fn lemma_varint_len(n: nat)
    ensures
        varint(n).len() >= 1,
    decreases n,
{
    if n >= 128 {
        lemma_varint_len(n / 128);
    }
}

/// One step of reading: a key of a known field, then its value.
proof fn lemma_decode_step(
    fields: Seq<Field>,
    sofar: Seq<ValueView>,
    i: int,
    wire: WireType,
    key: Seq<u8>,
    body: Seq<u8>,
    v: ValueView,
    n: nat,
)
    requires
        distinct(fields),
        0 <= i < fields.len(),
        key.len() >= 1,
        key_at(key + body) == Ok::<(nat, WireType, nat), WireFault>(
            (fields[i].tag as nat, wire, key.len()),
        ),
        value_at(fields[i].kind, wire, body) == Ok::<(ValueView, nat), WireFault>((v, n)),
        n <= body.len(),
    ensures
        decoded(fields, sofar, key + body) == decoded(
            fields,
            sofar.update(i, v),
            from(body, n as int),
        ),
{
    lemma_place_of(fields, i);
    assert(from(key + body, key.len() as int) =~= body);
}

/// Bytes with their count before them are read as the value that they stand for.
proof fn lemma_data_value(v: ValueView, data: Seq<u8>, rest: Seq<u8>)
    requires
        data.len() <= u64::MAX,
        match v {
            ValueView::Text(t) => data == text::utf8(t),
            ValueView::Bytes(b) => data == b,
            ValueView::Int(_) => false,
        },
    ensures
        value_at(v.kind(), WireType::LengthDelimited, varint(data.len()) + (data + rest)) == Ok::<
            (ValueView, nat),
            WireFault,
        >((v, varint(data.len()).len() + data.len())),
{
    let count = varint(data.len());
    let body = count + (data + rest);
    let n = count.len() + data.len();
    lemma_limit();
    law_varint_round_trip(data.len(), 0, data + rest);
    assert(body.subrange(count.len() as int, n as int) =~= data);
    if let ValueView::Text(t) = v {
        vstd::utf8::encode_utf8_valid_utf8(t);
        vstd::utf8::encode_utf8_decode_utf8(t);
    }
}

/// Where the parts of bytes with a key and a count before them stand.
proof fn lemma_counted_parts(tag: nat, data: Seq<u8>, rest: Seq<u8>)
    ensures
        counted_bytes(tag, data) + rest == varint(tag * 8 + 2) + (varint(data.len()) + (data
            + rest)),
        from(
            varint(data.len()) + (data + rest),
            (varint(data.len()).len() + data.len()) as int,
        ) == rest,
{
    assert(counted_bytes(tag, data) + rest =~= varint(tag * 8 + 2) + (varint(data.len()) + (data
        + rest)));
    assert(from(
        varint(data.len()) + (data + rest),
        (varint(data.len()).len() + data.len()) as int,
    ) =~= rest);
}

#[verifier::spinoff_prover]
proof fn lemma_data_round_trip(
    fields: Seq<Field>,
    sofar: Seq<ValueView>,
    i: int,
    v: ValueView,
    data: Seq<u8>,
    rest: Seq<u8>,
)
    requires
        distinct(fields),
        0 <= i < fields.len(),
        v.kind() == fields[i].kind,
        data.len() <= u64::MAX,
        match v {
            ValueView::Text(t) => data == text::utf8(t),
            ValueView::Bytes(b) => data == b,
            ValueView::Int(_) => false,
        },
    ensures
        decoded(fields, sofar, counted_bytes(fields[i].tag as nat, data) + rest) == decoded(
            fields,
            sofar.update(i, v),
            rest,
        ),
{
    let tag = fields[i].tag as nat;
    let key = varint(tag * 8 + 2);
    let count = varint(data.len());
    let body = count + (data + rest);
    let n = count.len() + data.len();
    lemma_varint_len(tag * 8 + 2);
    lemma_key_round_trip(tag, 2, body);
    lemma_data_value(v, data, rest);
    lemma_counted_parts(tag, data, rest);
    lemma_decode_step(fields, sofar, i, WireType::LengthDelimited, key, body, v, n);
}

proof fn lemma_int_round_trip(
    fields: Seq<Field>,
    sofar: Seq<ValueView>,
    i: int,
    n: i32,
    rest: Seq<u8>,
)
    requires
        distinct(fields),
        0 <= i < fields.len(),
        fields[i].kind == FieldKind::Int,
    ensures
        decoded(
            fields,
            sofar,
            varint(fields[i].tag as nat * 8) + varint(widened(n)) + rest,
        ) == decoded(fields, sofar.update(i, ValueView::Int(n)), rest),
{
    let tag = fields[i].tag as nat;
    let key = varint(tag * 8);
    let number = varint(widened(n));
    let body = number + rest;
    lemma_limit();
    lemma_widened(n);
    lemma_varint_len(tag * 8);
    lemma_key_round_trip(tag, 0, body);
    law_varint_round_trip(widened(n), 0, rest);
    lemma_decode_step(
        fields,
        sofar,
        i,
        WireType::Varint,
        key,
        body,
        ValueView::Int(n),
        number.len(),
    );
    assert(key + number + rest =~= key + body);
    assert(from(body, number.len() as int) =~= rest);
}

proof fn lemma_field_round_trip(
    fields: Seq<Field>,
    sofar: Seq<ValueView>,
    i: int,
    v: ValueView,
    rest: Seq<u8>,
)
    requires
        distinct(fields),
        0 <= i < fields.len(),
        v.kind() == fields[i].kind,
        countable(v),
    ensures
        decoded(fields, sofar, field_bytes(fields[i], v) + rest) == decoded(
            fields,
            if v == blank(fields[i].kind) {
                sofar
            } else {
                sofar.update(i, v)
            },
            rest,
        ),
{
    lemma_blank_bytes(fields[i], v);
    if v == blank(fields[i].kind) {
        assert(field_bytes(fields[i], v) + rest =~= rest);
    } else {
        match v {
            ValueView::Int(n) => {
                lemma_int_round_trip(fields, sofar, i, n, rest);
            },
            ValueView::Text(t) => {
                lemma_data_round_trip(fields, sofar, i, v, text::utf8(t), rest);
            },
            ValueView::Bytes(b) => {
                lemma_data_round_trip(fields, sofar, i, v, b, rest);
            },
        }
    }
}

proof fn lemma_blank_bytes(field: Field, v: ValueView)
    requires
        v.kind() == field.kind,
    ensures
        field_bytes(field, v).len() == 0 <==> v == blank(field.kind),
{
    lemma_varint_len(field.tag as nat * 8);
    lemma_varint_len(field.tag as nat * 8 + 2);
    match v {
        ValueView::Text(t) => {
            if t.len() == 0 {
                assert(t =~= Seq::empty());
            }
        },
        ValueView::Bytes(b) => {
            if b.len() == 0 {
                assert(b =~= Seq::empty());
            }
        },
        ValueView::Int(_) => {},
    }
}

proof fn lemma_round_trip_from(
    fields: Seq<Field>,
    v: Seq<ValueView>,
    sofar: Seq<ValueView>,
    i: int,
)
    requires
        distinct(fields),
        fitting(fields, v),
        forall|j: int| #![trigger v[j]] 0 <= j < v.len() ==> countable(v[j]),
        0 <= i <= fields.len(),
        sofar.len() == v.len(),
        forall|j: int|
            #![trigger sofar[j]]
            0 <= j < v.len() ==> sofar[j] == if j < i {
                v[j]
            } else {
                blank(fields[j].kind)
            },
    ensures
        decoded(fields, sofar, encoded_from(fields, v, i)) == Decoded::Message(v),
    decreases fields.len() - i,
{
    if i == fields.len() {
        assert(sofar =~= v);
    } else {
        assert(fields[i].kind == v[i].kind());
        lemma_field_round_trip(fields, sofar, i, v[i], encoded_from(fields, v, i + 1));
        let next = if v[i] == blank(fields[i].kind) {
            sofar
        } else {
            sofar.update(i, v[i])
        };
        assert forall|j: int| #![trigger next[j]] 0 <= j < v.len() implies next[j] == if j < i + 1 {
            v[j]
        } else {
            blank(fields[j].kind)
        } by {
            assert(sofar[j] == if j < i {
                v[j]
            } else {
                blank(fields[j].kind)
            });
        }
        lemma_round_trip_from(fields, v, next, i + 1);
    }
}

/// A message that is written is read back as it was.
pub proof fn law_message_round_trip(fields: Seq<Field>, v: Seq<ValueView>)
    requires
        distinct(fields),
        fitting(fields, v),
        forall|j: int| #![trigger v[j]] 0 <= j < v.len() ==> countable(v[j]),
    ensures
        decoded(fields, blanks(fields), encoded(fields, v)) == Decoded::Message(v),
{
    lemma_round_trip_from(fields, v, blanks(fields), 0);
}

} // verus!
