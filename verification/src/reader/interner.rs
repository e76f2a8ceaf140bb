//! Interning of raw identifiers into one `u64` namespace.

use vstd::hash_map::StringHashMap;
use vstd::prelude::*;
use vstd::slice::slice_subrange;
use vstd::utf8::{decode_utf8, encode_utf8, valid_utf8};

verus! {

/// Why a raw identifier could not be interned.
#[derive(Clone, Copy, Debug, PartialEq, Eq, Structural)]
pub enum InternError {
    /// The identifier should have been a base-10 unsigned integer that fits
    /// in 64 bits, and is not.
    InvalidNumber,
    /// The identifier is a lone double quote: it opens a quoted string and
    /// has no byte left to close it. A longer identifier that begins with a
    /// quote is never refused for its last byte: whatever that byte is, it is
    /// taken for the closing quote and left out of the text.
    UnterminatedString,
    /// The quoted string is not valid UTF-8.
    InvalidText,
    /// Every identifier of the namespace has been handed out.
    Exhausted,
}

/// The byte is an ASCII decimal digit.
pub open spec fn is_digit(b: u8) -> bool {
    0x30 <= b <= 0x39
}

/// Every byte of `s` is an ASCII decimal digit.
pub open spec fn all_digits(s: Seq<u8>) -> bool {
    forall|i: int| 0 <= i < s.len() ==> is_digit(#[trigger] s[i])
}

/// The number that the base-10 digits of `s` write, most significant first.
pub open spec fn digits_value(s: Seq<u8>) -> nat
    decreases s.len(),
{
    if s.len() == 0 {
        0
    } else {
        digits_value(s.drop_last()) * 10 + (s.last() - 0x30) as nat
    }
}

/// The digits of a numeral: the numeral without its optional leading `+`.
pub open spec fn numeral_digits(s: Seq<u8>) -> Seq<u8> {
    if s.len() > 0 && s[0] == 0x2b {
        s.drop_first()
    } else {
        s
    }
}

/// The value of `s` read as a base-10 unsigned integer: an optional `+`, then
/// at least one digit and nothing else, the whole fitting in 64 bits.
pub open spec fn decimal_u64(s: Seq<u8>) -> Option<u64> {
    let d = numeral_digits(s);
    if d.len() > 0 && all_digits(d) && digits_value(d) <= u64::MAX {
        Some(digits_value(d) as u64)
    } else {
        None
    }
}

/// A numeral is worth at least as much as any of its prefixes.
proof fn lemma_prefix_value(s: Seq<u8>, k: int)
    requires
        all_digits(s),
        0 <= k <= s.len(),
    ensures
        digits_value(s.take(k)) <= digits_value(s),
    decreases s.len() - k,
{
    if k == s.len() {
        assert(s.take(k) =~= s);
    } else {
        lemma_prefix_value(s, k + 1);
        assert(s.take(k + 1).drop_last() =~= s.take(k));
    }
}

/// Reads `bytes` as a base-10 unsigned integer.
pub fn parse_u64(bytes: &[u8]) -> (r: Result<u64, InternError>)
    ensures
        r == match decimal_u64(bytes@) {
            Some(n) => Ok::<u64, InternError>(n),
            None => Err::<u64, InternError>(InternError::InvalidNumber),
        },
{
    let n: usize = bytes.len();
    let start: usize = if n > 0 && bytes[0] == 0x2b { 1 } else { 0 };
    let ghost d = numeral_digits(bytes@);
    assert(d =~= bytes@.subrange(start as int, n as int));
    if start == n {
        return Err(InternError::InvalidNumber);
    }
    let mut acc: u64 = 0;
    let mut i: usize = start;
    while i < n
        invariant
            start <= i <= n,
            n == bytes@.len(),
            d == bytes@.subrange(start as int, n as int),
            d == numeral_digits(bytes@),
            all_digits(d.take(i - start)),
            acc == digits_value(d.take(i - start)),
        decreases n - i,
    {
        let b: u8 = bytes[i];
        assert(d[i - start] == b);
        if b < 0x30 || b > 0x39 {
            assert(!is_digit(d[i - start]));
            return Err(InternError::InvalidNumber);
        }
        let digit: u64 = (b - 0x30) as u64;
        proof {
            let next = d.take(i - start + 1);
            assert(next.drop_last() =~= d.take(i - start));
            assert(next.last() == b);
            assert(digits_value(next) == acc * 10 + digit);
            assert(all_digits(next)) by {
                assert forall|j: int| 0 <= j < next.len() implies is_digit(#[trigger] next[j]) by {
                    if j < i - start {
                        assert(next[j] == d.take(i - start)[j]);
                    }
                }
            }
            if all_digits(d) {
                lemma_prefix_value(d, i - start + 1);
            }
        }
        if acc > (u64::MAX - digit) / 10 {
            assert(acc * 10 + digit > u64::MAX);
            return Err(InternError::InvalidNumber);
        }
        acc = acc * 10 + digit;
        i = i + 1;
    }
    assert(d.take(n - start) =~= d);
    Ok(acc)
}

/// The identifiers handed out so far are 1, 2, .. up to their number, and no
/// two texts share one.
pub open spec fn well_formed(ids: Map<Seq<char>, u64>) -> bool {
    &&& ids.dom().finite()
    &&& forall|k: Seq<char>| ids.contains_key(k) ==> 1 <= #[trigger] ids[k] <= ids.len()
    &&& forall|a: Seq<char>, b: Seq<char>|
        ids.contains_key(a) && ids.contains_key(b) && #[trigger] ids[a] == #[trigger] ids[b]
            ==> a == b
}

/// A raw identifier is quoted when it begins with a double quote.
pub open spec fn is_quoted(raw: Seq<u8>) -> bool {
    raw.len() > 0 && raw[0] == 0x22
}

/// What stands between the first and the last byte of a quoted identifier.
pub open spec fn quoted_text(raw: Seq<u8>) -> Seq<u8> {
    raw.subrange(1, raw.len() - 1)
}

/// The raw identifier is a quoted string that is no numeral: the one kind of
/// identifier that is looked up in, or added to, the interned texts.
pub open spec fn is_symbol(raw: Seq<u8>) -> bool {
    &&& is_quoted(raw)
    &&& raw.len() >= 2
    &&& decimal_u64(quoted_text(raw)) is None
    &&& valid_utf8(quoted_text(raw))
}

/// The raw form of a text: its UTF-8 bytes between two double quotes.
pub open spec fn quoted(text: Seq<char>) -> Seq<u8> {
    seq![0x22u8] + encode_utf8(text) + seq![0x22u8]
}

/// The text under which a symbol is interned.
pub open spec fn symbol_key(raw: Seq<u8>) -> Seq<char> {
    decode_utf8(quoted_text(raw))
}

/// The identifier that `raw` resolves to when `ids` are the texts interned so
/// far, or the reason why it resolves to none.
pub open spec fn intern_result(ids: Map<Seq<char>, u64>, raw: Seq<u8>) -> Result<u64, InternError> {
    if raw.len() == 0 {
        Ok(0)
    } else if !is_quoted(raw) {
        match decimal_u64(raw) {
            Some(n) => Ok(n),
            None => Err(InternError::InvalidNumber),
        }
    } else if raw.len() < 2 {
        Err(InternError::UnterminatedString)
    } else if let Some(n) = decimal_u64(quoted_text(raw)) {
        Ok(n)
    } else if !valid_utf8(quoted_text(raw)) {
        Err(InternError::InvalidText)
    } else if ids.contains_key(symbol_key(raw)) {
        Ok(ids[symbol_key(raw)])
    } else if ids.len() >= u64::MAX {
        Err(InternError::Exhausted)
    } else {
        Ok((ids.len() + 1) as u64)
    }
}

/// The interned texts after `raw` has been resolved: a symbol seen for the
/// first time is added under the next free identifier, nothing else changes.
pub open spec fn intern_state(ids: Map<Seq<char>, u64>, raw: Seq<u8>) -> Map<Seq<char>, u64> {
    if is_symbol(raw) && !ids.contains_key(symbol_key(raw)) && ids.len() < u64::MAX {
        ids.insert(symbol_key(raw), (ids.len() + 1) as u64)
    } else {
        ids
    }
}

/// `core::str::from_utf8`: the bytes as text where they are valid UTF-8, and
/// nothing where they are not.
#[verifier::external_body]
fn text_of(bytes: &[u8]) -> (r: Option<&str>)
    ensures
        match r {
            Some(s) => valid_utf8(bytes@) && encode_utf8(s@) == bytes@,
            None => !valid_utf8(bytes@),
        },
{
    match core::str::from_utf8(bytes) {
        Ok(s) => Some(s),
        Err(_) => None,
    }
}

/// Converts raw identifiers into `u64` identifiers. The same text always
/// resolves to the same identifier, and two texts never share one. The
/// identifiers of two interners are unrelated.
pub struct Interner {
    map: StringHashMap<u64>,
}

impl View for Interner {
    type V = Map<Seq<char>, u64>;

    closed spec fn view(&self) -> Map<Seq<char>, u64> {
        self.map@
    }
}

impl Interner {
    /// What holds of every interner: its texts are well formed.
    #[verifier::type_invariant]
    pub open spec fn inv(&self) -> bool {
        well_formed(self@)
    }

    /// An interner that has seen no text yet.
    pub fn new() -> (r: Interner)
        ensures
            r@ == Map::<Seq<char>, u64>::empty(),
            well_formed(r@),
    {
        Interner { map: StringHashMap::new() }
    }

    /// The number of texts interned so far.
    pub fn len(&self) -> (n: usize)
        ensures
            n == self@.len(),
            well_formed(self@),
    {
        proof {
            use_type_invariant(self);
        }
        self.map.len()
    }

    /// Resolves a raw identifier, which is a JSON number or a quoted string.
    ///
    /// Nothing resolves to 0. A number resolves to itself, and so does a
    /// quoted numeral. Any other quoted text resolves to the identifier it was
    /// given when it was first seen; a new text is given the next identifier
    /// after those handed out, the first being 1.
    ///
    /// An identifier is quoted when it begins with a double quote. Its text
    /// is what stands between its first and its last byte: the last byte is
    /// not looked at, so `"abc` is read as the text `ab`. Only a lone quote,
    /// which has no last byte of its own, is refused as unterminated.
    pub fn intern(&mut self, raw: &[u8]) -> (r: Result<u64, InternError>)
        ensures
            r == intern_result(old(self)@, raw@),
            final(self)@ == intern_state(old(self)@, raw@),
            well_formed(final(self)@),
    {
        proof {
            use_type_invariant(&*self);
        }
        if raw.len() == 0 {
            return Ok(0);
        }
        if raw[0] != 0x22 {
            return parse_u64(raw);
        }
        if raw.len() < 2 {
            return Err(InternError::UnterminatedString);
        }
        let inner = slice_subrange(raw, 1, raw.len() - 1);
        if let Ok(n) = parse_u64(inner) {
            return Ok(n);
        }
        let text = match text_of(inner) {
            Some(text) => text,
            None => {
                return Err(InternError::InvalidText);
            },
        };
        proof {
            vstd::utf8::encode_utf8_decode_utf8(text@);
        }
        if let Some(id) = self.map.get(text) {
            return Ok(*id);
        }
        let len: usize = self.map.len();
        if len as u64 == u64::MAX {
            return Err(InternError::Exhausted);
        }
        let id: u64 = len as u64 + 1;
        proof {
            lemma_intern_keeps_form(self.map@, raw@);
        }
        // The map is taken out to be changed, so that what `self` holds is
        // well formed at every step.
        let mut taken = Interner::new();
        core::mem::swap(self, &mut taken);
        let mut map = taken.map;
        map.insert(text.to_owned(), id);
        *self = Interner { map };
        Ok(id)
    }
}

/// Resolving an identifier leaves the interned texts well formed.
pub proof fn lemma_intern_keeps_form(ids: Map<Seq<char>, u64>, raw: Seq<u8>)
    requires
        well_formed(ids),
    ensures
        well_formed(intern_state(ids, raw)),
{
    let next = intern_state(ids, raw);
    if next != ids {
        let key = symbol_key(raw);
        let id = (ids.len() + 1) as u64;
        assert(next.dom() =~= ids.dom().insert(key));
        assert(next.len() == ids.len() + 1);
        assert forall|k: Seq<char>| next.contains_key(k) implies 1 <= #[trigger] next[k]
            <= next.len() by {
            if k != key {
                assert(ids.contains_key(k));
            }
        }
        assert forall|a: Seq<char>, b: Seq<char>|
            next.contains_key(a) && next.contains_key(b) && #[trigger] next[a]
                == #[trigger] next[b] implies a == b by {
            if a != key {
                assert(ids.contains_key(a));
            }
            if b != key {
                assert(ids.contains_key(b));
            }
        }
    }
}

/// A numeral resolves to the number it writes, quoted or not, in every state,
/// and interns nothing.
pub proof fn lemma_numbers_pass_through(ids: Map<Seq<char>, u64>, numeral: Seq<u8>, n: u64)
    requires
        decimal_u64(numeral) == Some(n),
    ensures
        intern_result(ids, numeral) == Ok::<u64, InternError>(n),
        intern_state(ids, numeral) == ids,
        intern_result(ids, seq![0x22u8] + numeral + seq![0x22u8]) == Ok::<u64, InternError>(n),
        intern_state(ids, seq![0x22u8] + numeral + seq![0x22u8]) == ids,
{
    let quoted = seq![0x22u8] + numeral + seq![0x22u8];
    assert(quoted_text(quoted) =~= numeral);
    assert(numeral[0] != 0x22) by {
        if numeral[0] != 0x2b {
            assert(numeral_digits(numeral) == numeral);
            assert(is_digit(numeral[0]));
        }
    }
}

/// The raw form of a text is a quoted identifier whose text is that text. So a
/// text that is no numeral resolves as a symbol, under itself as the key.
pub proof fn lemma_quoted_is_symbol(text: Seq<char>)
    ensures
        is_quoted(quoted(text)),
        quoted(text).len() >= 2,
        quoted_text(quoted(text)) == encode_utf8(text),
        decimal_u64(encode_utf8(text)) is None ==> is_symbol(quoted(text)) && symbol_key(
            quoted(text),
        ) == text,
{
    assert(quoted_text(quoted(text)) =~= encode_utf8(text));
    vstd::utf8::encode_utf8_valid_utf8(text);
    vstd::utf8::encode_utf8_decode_utf8(text);
}

/// Resolving an identifier never changes what an interned text resolves to.
pub proof fn lemma_intern_keeps_ids(ids: Map<Seq<char>, u64>, raw: Seq<u8>)
    ensures
        forall|k: Seq<char>| #[trigger]
            ids.contains_key(k) ==> intern_state(ids, raw).contains_key(k) && intern_state(
                ids,
                raw,
            )[k] == ids[k],
{
}

/// The interned texts after the given raw identifiers have been resolved one
/// after the other.
pub open spec fn intern_many(ids: Map<Seq<char>, u64>, raws: Seq<Seq<u8>>) -> Map<Seq<char>, u64>
    decreases raws.len(),
{
    if raws.len() == 0 {
        ids
    } else {
        intern_state(intern_many(ids, raws.drop_last()), raws.last())
    }
}

/// Resolving identifiers leaves the interned texts well formed and changes
/// nothing of what an interned text resolves to. Once every identifier has
/// been handed out, it changes nothing at all.
pub proof fn lemma_intern_many_keeps(ids: Map<Seq<char>, u64>, raws: Seq<Seq<u8>>)
    requires
        well_formed(ids),
    ensures
        well_formed(intern_many(ids, raws)),
        forall|k: Seq<char>| #[trigger]
            ids.contains_key(k) ==> intern_many(ids, raws).contains_key(k) && intern_many(
                ids,
                raws,
            )[k] == ids[k],
        ids.len() >= u64::MAX ==> intern_many(ids, raws) == ids,
    decreases raws.len(),
{
    if raws.len() > 0 {
        let before = intern_many(ids, raws.drop_last());
        lemma_intern_many_keeps(ids, raws.drop_last());
        lemma_intern_keeps_form(before, raws.last());
        lemma_intern_keeps_ids(before, raws.last());
    }
}

/// Resolving the same raw identifier again gives the same answer and changes
/// nothing, whatever has been resolved in between.
pub proof fn lemma_intern_stable(ids: Map<Seq<char>, u64>, raw: Seq<u8>, between: Seq<Seq<u8>>)
    requires
        well_formed(ids),
    ensures
        intern_result(intern_many(intern_state(ids, raw), between), raw) == intern_result(
            ids,
            raw,
        ),
        intern_state(intern_many(intern_state(ids, raw), between), raw) == intern_many(
            intern_state(ids, raw),
            between,
        ),
{
    let first = intern_state(ids, raw);
    lemma_intern_keeps_form(ids, raw);
    lemma_intern_many_keeps(first, between);
    if first != ids {
        assert(first.dom() =~= ids.dom().insert(symbol_key(raw)));
        assert(first.contains_key(symbol_key(raw)));
    }
}

/// Two quoted strings with different texts, neither of them a numeral, never
/// resolve to the same identifier, in whichever state the first is resolved
/// and whatever is resolved between the two.
pub proof fn lemma_intern_injective(
    ids: Map<Seq<char>, u64>,
    first: Seq<u8>,
    between: Seq<Seq<u8>>,
    second: Seq<u8>,
)
    requires
        well_formed(ids),
        is_symbol(first),
        is_symbol(second),
        quoted_text(first) != quoted_text(second),
    ensures
        ({
            let a = intern_result(ids, first);
            let b = intern_result(intern_many(intern_state(ids, first), between), second);
            a is Ok && b is Ok ==> a != b
        }),
{
    let s1 = intern_state(ids, first);
    let s2 = intern_many(s1, between);
    let s3 = intern_state(s2, second);
    let a = intern_result(ids, first);
    let b = intern_result(s2, second);
    lemma_intern_keeps_form(ids, first);
    lemma_intern_many_keeps(s1, between);
    lemma_intern_keeps_form(s2, second);
    lemma_intern_keeps_ids(s2, second);
    lemma_symbol_keys_differ(first, second);
    if a is Ok && b is Ok {
        let k1 = symbol_key(first);
        let k2 = symbol_key(second);
        assert(s1.contains_key(k1));
        assert(s3.contains_key(k1) && s3[k1] == a->Ok_0);
        assert(s3.contains_key(k2) && s3[k2] == b->Ok_0);
    }
}

/// Symbols with different quoted texts are interned under different keys.
pub proof fn lemma_symbol_keys_differ(first: Seq<u8>, second: Seq<u8>)
    requires
        is_symbol(first),
        is_symbol(second),
        quoted_text(first) != quoted_text(second),
    ensures
        symbol_key(first) != symbol_key(second),
{
    vstd::utf8::decode_utf8_encode_utf8(quoted_text(first));
    vstd::utf8::decode_utf8_encode_utf8(quoted_text(second));
}

} // verus!
