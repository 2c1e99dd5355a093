//! UTF-16 and hexadecimal encodings, and the case mappings of std.

use vstd::prelude::*;

verus! {

// ---------------------------------------------------------------------------
// Unicode case mapping and lossy UTF-16 decoding (std)
// ---------------------------------------------------------------------------

/// What `str::to_lowercase` returns for a string with characters `s`.
pub uninterp spec fn spec_to_lowercase(s: Seq<char>) -> Seq<char>;

/// What `str::to_uppercase` returns for a string with characters `s`.
pub uninterp spec fn spec_to_uppercase(s: Seq<char>) -> Seq<char>;

/// What `String::from_utf16_lossy` returns for the code units `units`.
pub uninterp spec fn spec_utf16_lossy(units: Seq<u16>) -> Seq<char>;

/// `str::to_lowercase`. Its result is a fixed function of the characters
/// (Unicode's lowercase mapping, locale-independent); only that is stated,
/// the mapping itself is left to std.
#[verifier::external_body]
pub(crate) fn to_lowercase(s: &str) -> (r: String)
    ensures
        r@ == spec_to_lowercase(s@),
{
    s.to_lowercase()
}

/// `str::to_uppercase`. Its result is a fixed function of the characters
/// (Unicode's uppercase mapping, locale-independent); only that is stated.
#[verifier::external_body]
pub(crate) fn to_uppercase(s: &str) -> (r: String)
    ensures
        r@ == spec_to_uppercase(s@),
{
    s.to_uppercase()
}

/// `String::from_utf16_lossy`: decodes UTF-16, replacing ill-formed units by
/// U+FFFD. A fixed function of the code units; of the decoding only this is
/// stated: well-formed UTF-16, the encoding of some characters, decodes to
/// exactly those characters.
#[verifier::external_body]
pub(crate) fn utf16_lossy(units: &[u16]) -> (r: String)
    ensures
        r@ == spec_utf16_lossy(units@),
        forall|c: Seq<char>| #[trigger] encode_utf16(c) == units@ ==> r@ == c,
{
    String::from_utf16_lossy(units)
}

// ---------------------------------------------------------------------------
// UTF-16 encoding
// ---------------------------------------------------------------------------

/// The UTF-16 code units of one character: one unit below U+10000, else a
/// surrogate pair.
pub open spec fn utf16_units(c: char) -> Seq<u16> {
    let v = c as u32;
    if v < 0x10000 {
        seq![v as u16]
    } else {
        let u = v - 0x10000;
        seq![(0xD800 + u / 1024) as u16, (0xDC00 + u % 1024) as u16]
    }
}

/// `str::encode_utf16`, collected.
pub open spec fn encode_utf16(s: Seq<char>) -> Seq<u16>
    decreases s.len(),
{
    if s.len() == 0 {
        Seq::empty()
    } else {
        encode_utf16(s.drop_last()) + utf16_units(s.last())
    }
}

/// A NUL-terminated UTF-16 string for the Windows API: the UTF-16 encoding of
/// `s` followed by a zero unit.
pub fn to_wide(s: &str) -> (w: Vec<u16>)
    ensures
        w@ == encode_utf16(s@).push(0u16),
{
    let mut w: Vec<u16> = Vec::new();
    for c in it: s.chars()
        invariant
            it.seq() == s@,
            w@ == encode_utf16(it.seq().take(it.index() as int)),
    {
        let ghost done = it.seq().take(it.index() as int);
        assert(it.seq().take(it.index() + 1).drop_last() =~= done);
        proof {
            vstd::utf8::char_is_scalar(c);
        }
        let v = c as u32;
        if v < 0x10000 {
            w.push(v as u16);
        } else {
            let u = v - 0x10000;
            w.push((0xD800 + u / 1024) as u16);
            w.push((0xDC00 + u % 1024) as u16);
        }
        assert(w@ =~= encode_utf16(done) + utf16_units(c));
    }
    assert(s@.take(s@.len() as int) =~= s@);
    w.push(0u16);
    w
}

/// The code units of `units` before the first zero unit, or all of them when
/// there is none.
pub open spec fn before_nul_or_all(units: Seq<u16>) -> Seq<u16> {
    if exists|i: int| 0 <= i < units.len() && units[i] == 0 {
        units.take(first_nul(units))
    } else {
        units
    }
}

/// The code units of `units` before the first zero unit, or none at all when
/// there is no zero unit.
pub open spec fn before_nul_or_empty(units: Seq<u16>) -> Seq<u16> {
    if exists|i: int| 0 <= i < units.len() && units[i] == 0 {
        units.take(first_nul(units))
    } else {
        Seq::empty()
    }
}

/// The position of the first zero unit.
pub open spec fn first_nul(units: Seq<u16>) -> int {
    choose|i: int| 0 <= i < units.len() && units[i] == 0 && forall|j: int| 0 <= j < i ==> units[j] != 0
}

/// The position of the first zero unit, if any.
pub fn find_nul(units: &[u16]) -> (r: Option<usize>)
    ensures
        match r {
            Some(i) => i < units@.len() && units@[i as int] == 0 && forall|j: int|
                0 <= j < i ==> units@[j] != 0,
            None => forall|j: int| 0 <= j < units@.len() ==> units@[j] != 0,
        },
{
    let mut i: usize = 0;
    while i < units.len()
        invariant
            i <= units@.len(),
            forall|j: int| 0 <= j < i ==> units@[j] != 0,
        decreases units@.len() - i,
    {
        if units[i] == 0 {
            return Some(i);
        }
        i = i + 1;
    }
    None
}

proof fn lemma_first_nul(units: Seq<u16>, i: int)
    requires
        0 <= i < units.len(),
        units[i] == 0,
        forall|j: int| 0 <= j < i ==> units[j] != 0,
    ensures
        first_nul(units) == i,
        exists|k: int| 0 <= k < units.len() && units[k] == 0,
{
    let k = first_nul(units);
    assert(0 <= k < units.len() && units[k] == 0 && forall|j: int| 0 <= j < k ==> units[j] != 0);
    if k < i {
        assert(units[k] != 0);
    }
    if i < k {
        assert(units[i] != 0);
    }
}

/// The UTF-16 encoding of characters other than NUL holds no zero unit.
pub proof fn lemma_encode_utf16_no_nul(s: Seq<char>)
    requires
        !s.contains('\0'),
    ensures
        forall|j: int| 0 <= j < encode_utf16(s).len() ==> encode_utf16(s)[j] != 0,
    decreases s.len(),
{
    if s.len() > 0 {
        let c = s.last();
        assert(!s.drop_last().contains('\0')) by {
            if s.drop_last().contains('\0') {
                let k = choose|k: int| 0 <= k < s.drop_last().len() && s.drop_last()[k] == '\0';
                assert(s[k] == '\0');
            }
        }
        assert(c != '\0') by {
            if c == '\0' {
                assert(s[s.len() - 1] == '\0');
            }
        }
        lemma_encode_utf16_no_nul(s.drop_last());
        vstd::utf8::char_is_scalar(c);
        let v = c as u32;
        assert(v != 0) by {
            if v == 0 {
                vstd::utf8::char_u32_cast(c, v);
                vstd::utf8::char_u32_cast('\0', '\0' as u32);
                assert(('\0' as u32) == 0);
            }
        }
        let prev = encode_utf16(s.drop_last());
        let u = utf16_units(c);
        assert(forall|j: int| 0 <= j < u.len() ==> u[j] != 0) by {
            if v < 0x10000 {
                assert(u[0] == v as u16);
                assert((v as u16) as u32 == v) by (bit_vector)
                    requires
                        v < 0x10000,
                ;
            } else {
                let w = v - 0x10000;
                assert(u[0] == (0xD800 + w / 1024) as u16);
                assert(u[1] == (0xDC00 + w % 1024) as u16);
            }
        }
        assert forall|j: int| 0 <= j < encode_utf16(s).len() implies encode_utf16(s)[j] != 0 by {
            assert(encode_utf16(s) == prev + u);
            if j < prev.len() {
                assert(encode_utf16(s)[j] == prev[j]);
            } else {
                assert(encode_utf16(s)[j] == u[j - prev.len()]);
            }
        }
    }
}

/// A NUL-terminated encoding of characters other than NUL ends at its
/// terminator: the units before it are the encoding.
pub proof fn lemma_before_nul_of_wide(s: Seq<char>)
    requires
        !s.contains('\0'),
    ensures
        before_nul_or_all(encode_utf16(s).push(0u16)) == encode_utf16(s),
{
    let e = encode_utf16(s);
    let w = e.push(0u16);
    lemma_encode_utf16_no_nul(s);
    assert forall|j: int| 0 <= j < e.len() implies w[j] != 0 by {
        assert(w[j] == e[j]);
    }
    lemma_first_nul(w, e.len() as int);
    assert(w.take(e.len() as int) =~= e);
}

/// The units before the first zero, or all of them (`position(..).unwrap_or(len)`).
pub fn prefix_before_nul_or_all(units: &[u16]) -> (r: Vec<u16>)
    ensures
        r@ == before_nul_or_all(units@),
{
    let end = match find_nul(units) {
        Some(i) => {
            proof {
                lemma_first_nul(units@, i as int);
            }
            i
        },
        None => units.len(),
    };
    let r = copy_prefix(units, end);
    assert(units@.take(units@.len() as int) =~= units@);
    r
}

/// The units before the first zero, or none (`position(..).unwrap_or(0)`).
pub fn prefix_before_nul_or_empty(units: &[u16]) -> (r: Vec<u16>)
    ensures
        r@ == before_nul_or_empty(units@),
{
    let end = match find_nul(units) {
        Some(i) => {
            proof {
                lemma_first_nul(units@, i as int);
            }
            i
        },
        None => 0,
    };
    let r = copy_prefix(units, end);
    assert(units@.take(0) =~= Seq::<u16>::empty());
    r
}

fn copy_prefix(units: &[u16], end: usize) -> (r: Vec<u16>)
    requires
        end <= units@.len(),
    ensures
        r@ == units@.take(end as int),
{
    let mut r: Vec<u16> = Vec::new();
    let mut i: usize = 0;
    while i < end
        invariant
            i <= end <= units@.len(),
            r@ == units@.take(i as int),
        decreases end - i,
    {
        r.push(units[i]);
        assert(units@.take(i + 1) =~= units@.take(i as int).push(units@[i as int]));
        i = i + 1;
    }
    r
}

// ---------------------------------------------------------------------------
// Lower-case hexadecimal
// ---------------------------------------------------------------------------

/// The lower-case hex digit for a value below sixteen.
pub open spec fn hex_digit(n: nat) -> char {
    if n < 10 {
        ('0' as int + n) as char
    } else {
        ('a' as int + n - 10) as char
    }
}

/// `{:x}` of a byte array: two lower-case hex digits per byte, high nibble
/// first.
pub open spec fn lower_hex(bytes: Seq<u8>) -> Seq<char>
    decreases bytes.len(),
{
    if bytes.len() == 0 {
        Seq::empty()
    } else {
        lower_hex(bytes.drop_last()) + seq![
            hex_digit((bytes.last() / 16) as nat),
            hex_digit((bytes.last() % 16) as nat),
        ]
    }
}

fn hex_char(n: u8) -> (c: char)
    requires
        n < 16,
    ensures
        c == hex_digit(n as nat),
{
    if n < 10 {
        (('0' as u8) + n) as char
    } else {
        (('a' as u8) + (n - 10)) as char
    }
}

/// Append the lower-case hex digits of `bytes` to `out`.
pub fn push_lower_hex(out: &mut Vec<char>, bytes: &[u8])
    ensures
        final(out)@ == old(out)@ + lower_hex(bytes@),
{
    let mut i: usize = 0;
    while i < bytes.len()
        invariant
            i <= bytes@.len(),
            out@ == old(out)@ + lower_hex(bytes@.take(i as int)),
        decreases bytes@.len() - i,
    {
        let b = bytes[i];
        assert(bytes@.take(i + 1).drop_last() =~= bytes@.take(i as int));
        out.push(hex_char(b / 16));
        out.push(hex_char(b % 16));
        assert(out@ =~= old(out)@ + lower_hex(bytes@.take(i + 1)));
        i = i + 1;
    }
    assert(bytes@.take(bytes@.len() as int) =~= bytes@);
}

} // verus!
