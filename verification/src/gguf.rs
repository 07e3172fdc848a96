//! The metadata at the head of a GGUF model file.
use vstd::prelude::*;
use vstd::utf8;
use crate::numeral;
use crate::outside;
use crate::text;

verus! {

pub const MAX_METADATA_ENTRIES: u64 = 100_000;

pub const MAX_STRING_BYTES: u64 = 67_108_864;

pub const MAX_ARRAY_ITEMS: u64 = 10_000_000;

pub const MAX_RETAINED_ITEMS: u64 = 1_024;

// ---------------------------------------------------------------------------
// Values
// ---------------------------------------------------------------------------

/// A metadata value. Floating-point numbers are held as their bits.
#[derive(Debug)]
pub enum GgufValue {
    Uint(u64),
    Int(i64),
    Float32(u32),
    Float64(u64),
    Bool(bool),
    Text(String),
    Array { element_type: u32, values: Vec<u64> },
}

/// What a metadata value holds.
#[verifier::ext_equal]
pub enum GgufDatum {
    Uint(u64),
    Int(i64),
    Float32(u32),
    Float64(u64),
    Bool(bool),
    Text(Seq<char>),
    Array { element_type: u32, values: Seq<u64> },
}

impl View for GgufValue {
    type V = GgufDatum;

    open spec fn view(&self) -> GgufDatum {
        match *self {
            GgufValue::Uint(n) => GgufDatum::Uint(n),
            GgufValue::Int(n) => GgufDatum::Int(n),
            GgufValue::Float32(b) => GgufDatum::Float32(b),
            GgufValue::Float64(b) => GgufDatum::Float64(b),
            GgufValue::Bool(b) => GgufDatum::Bool(b),
            GgufValue::Text(s) => GgufDatum::Text(s@),
            GgufValue::Array { element_type, values } => GgufDatum::Array {
                element_type,
                values: values@,
            },
        }
    }
}

impl GgufDatum {
    /// The number that the value stands for: an integer that is not negative, or a truth
    /// value as 0 or 1.
    pub open spec fn number(self) -> Option<u64> {
        match self {
            GgufDatum::Uint(n) => Some(n),
            GgufDatum::Int(n) => if n >= 0 {
                Some(n as u64)
            } else {
                None
            },
            GgufDatum::Bool(b) => Some(
                if b {
                    1
                } else {
                    0
                },
            ),
            _ => None,
        }
    }

    /// The text that the value is.
    pub open spec fn text(self) -> Option<Seq<char>> {
        match self {
            GgufDatum::Text(s) => Some(s),
            _ => None,
        }
    }
}

impl GgufValue {
    /// The number that the value stands for.
    pub fn as_u64(&self) -> (r: Option<u64>)
        ensures
            r == self@.number(),
    {
        match self {
            GgufValue::Uint(n) => Some(*n),
            GgufValue::Int(n) => if *n >= 0 {
                Some(*n as u64)
            } else {
                None
            },
            GgufValue::Bool(b) => Some(
                if *b {
                    1
                } else {
                    0
                },
            ),
            _ => None,
        }
    }

    /// The text that the value is.
    pub fn as_str(&self) -> (r: Option<&str>)
        ensures
            text::opt_str(r) == self@.text(),
    {
        match self {
            GgufValue::Text(s) => Some(s.as_str()),
            _ => None,
        }
    }
}

/// Why the metadata cannot be read.
#[derive(Clone, Copy, Debug, PartialEq, Eq, Structural)]
pub enum GgufError {
    /// The bytes end before the metadata does.
    Truncated,
    /// The file does not begin with the mark of the format.
    NotGguf,
    UnsupportedVersion(u32),
    TooManyEntries(u64),
    StringTooLarge(u64),
    NotUtf8,
    ArrayTooLarge(u64),
    UnsupportedType(u32),
}

// ---------------------------------------------------------------------------
// The format
// ---------------------------------------------------------------------------

/// `s` without its first `n` bytes.
pub open spec fn past(s: Seq<u8>, n: nat) -> Seq<u8> {
    if n <= s.len() {
        s.skip(n as int)
    } else {
        Seq::empty()
    }
}

/// The number in the first two bytes, the lower byte first.
pub open spec fn le16(s: Seq<u8>) -> int {
    s[0] + 0x100 * s[1]
}

/// The number in the first four bytes, the lowest byte first.
pub open spec fn le32(s: Seq<u8>) -> int {
    s[0] + 0x100 * s[1] + 0x1_0000 * s[2] + 0x100_0000 * s[3]
}

/// The number in the first eight bytes, the lowest byte first.
pub open spec fn le64(s: Seq<u8>) -> int {
    le32(s) + 0x1_0000_0000 * le32(past(s, 4))
}

/// The number that an unsigned one below `2 * half` stands for in two's complement.
pub open spec fn signed(n: int, half: int) -> int {
    if n >= half {
        n - 2 * half
    } else {
        n
    }
}

/// The 32-bit number at the front, with the number of bytes that it takes.
pub open spec fn word_at(s: Seq<u8>) -> Result<(u32, nat), GgufError> {
    if s.len() < 4 {
        Err(GgufError::Truncated)
    } else {
        Ok((le32(s) as u32, 4))
    }
}

/// The 64-bit number at the front, with the number of bytes that it takes.
pub open spec fn long_at(s: Seq<u8>) -> Result<(u64, nat), GgufError> {
    if s.len() < 8 {
        Err(GgufError::Truncated)
    } else {
        Ok((le64(s) as u64, 8))
    }
}

/// The text at the front: its length in bytes, then the bytes in UTF-8.
#[verifier::opaque]
pub open spec fn string_at(s: Seq<u8>) -> Result<(Seq<char>, nat), GgufError> {
    match long_at(s) {
        Err(e) => Err(e),
        Ok((len, _)) => if len > MAX_STRING_BYTES {
            Err(GgufError::StringTooLarge(len))
        } else if s.len() < 8 + len {
            Err(GgufError::Truncated)
        } else {
            let bytes = s.subrange(8, 8 + len);
            if utf8::valid_utf8(bytes) {
                Ok((utf8::decode_utf8(bytes), (8 + len) as nat))
            } else {
                Err(GgufError::NotUtf8)
            }
        },
    }
}

/// The value at the front whose type is not an array.
#[verifier::opaque]
pub open spec fn scalar_at(s: Seq<u8>, value_type: u32) -> Result<(GgufDatum, nat), GgufError> {
    if value_type == 0 || value_type == 1 || value_type == 7 {
        if s.len() < 1 {
            Err(GgufError::Truncated)
        } else if value_type == 0 {
            Ok((GgufDatum::Uint(s[0] as u64), 1))
        } else if value_type == 1 {
            Ok((GgufDatum::Int(signed(s[0] as int, 0x80) as i64), 1))
        } else {
            Ok((GgufDatum::Bool(s[0] != 0), 1))
        }
    } else if value_type == 2 || value_type == 3 {
        if s.len() < 2 {
            Err(GgufError::Truncated)
        } else if value_type == 2 {
            Ok((GgufDatum::Uint(le16(s) as u64), 2))
        } else {
            Ok((GgufDatum::Int(signed(le16(s), 0x8000) as i64), 2))
        }
    } else if value_type == 4 || value_type == 5 || value_type == 6 {
        match word_at(s) {
            Err(e) => Err(e),
            Ok((n, used)) => Ok(
                (
                    if value_type == 4 {
                        GgufDatum::Uint(n as u64)
                    } else if value_type == 5 {
                        GgufDatum::Int(signed(n as int, 0x8000_0000) as i64)
                    } else {
                        GgufDatum::Float32(n)
                    },
                    used,
                ),
            ),
        }
    } else if value_type == 8 {
        match string_at(s) {
            Err(e) => Err(e),
            Ok((t, used)) => Ok((GgufDatum::Text(t), used)),
        }
    } else if value_type == 10 || value_type == 11 || value_type == 12 {
        match long_at(s) {
            Err(e) => Err(e),
            Ok((n, used)) => Ok(
                (
                    if value_type == 10 {
                        GgufDatum::Uint(n)
                    } else if value_type == 11 {
                        GgufDatum::Int(signed(n as int, 0x8000_0000_0000_0000) as i64)
                    } else {
                        GgufDatum::Float64(n)
                    },
                    used,
                ),
            ),
        }
    } else {
        Err(GgufError::UnsupportedType(value_type))
    }
}

/// The value at the front, of the given type.
pub open spec fn typed_at(s: Seq<u8>, value_type: u32) -> Result<(GgufDatum, nat), GgufError>
    decreases s.len(), 1nat,
{
    if value_type == 9 {
        value_at(s)
    } else {
        scalar_at(s, value_type)
    }
}

/// The value at the front, after its type.
pub open spec fn value_at(s: Seq<u8>) -> Result<(GgufDatum, nat), GgufError>
    decreases s.len(), 0nat,
{
    match word_at(s) {
        Err(e) => Err(e),
        Ok((value_type, _)) => if value_type != 9 {
            match scalar_at(past(s, 4), value_type) {
                Err(e) => Err(e),
                Ok((v, used)) => Ok((v, 4 + used)),
            }
        } else {
            match (word_at(past(s, 4)), long_at(past(s, 8))) {
                (Err(e), _) => Err(e),
                (_, Err(e)) => Err(e),
                (Ok((element_type, _)), Ok((len, _))) => if len > MAX_ARRAY_ITEMS {
                    Err(GgufError::ArrayTooLarge(len))
                } else {
                    match items_at(past(s, 16), element_type, len as nat) {
                        Err(e) => Err(e),
                        Ok((numbers, used)) => Ok(
                            (
                                GgufDatum::Array {
                                    element_type,
                                    values: if retains(element_type, len) {
                                        numbers
                                    } else {
                                        Seq::empty()
                                    },
                                },
                                16 + used,
                            ),
                        ),
                    }
                },
            }
        },
    }
}

/// The numbers among the `n` values at the front, all of the given type.
pub open spec fn items_at(s: Seq<u8>, element_type: u32, n: nat) -> Result<
    (Seq<u64>, nat),
    GgufError,
>
    decreases s.len(), 2 + n,
{
    if n == 0 {
        Ok((Seq::empty(), 0))
    } else {
        match typed_at(s, element_type) {
            Err(e) => Err(e),
            Ok((v, used)) => before(
                own_numbers(v),
                used,
                items_at(past(s, used), element_type, (n - 1) as nat),
            ),
        }
    }
}

/// The number that a value stands for, as a row of at most one.
pub open spec fn own_numbers(v: GgufDatum) -> Seq<u64> {
    match v.number() {
        Some(n) => seq![n],
        None => Seq::empty(),
    }
}

/// A row read in two parts: `front`, which took `used` bytes, and `rest`.
pub open spec fn before<T>(
    front: Seq<T>,
    used: nat,
    rest: Result<(Seq<T>, nat), GgufError>,
) -> Result<(Seq<T>, nat), GgufError> {
    match rest {
        Err(e) => Err(e),
        Ok((row, n)) => Ok((front + row, used + n)),
    }
}

proof fn lemma_before_joins<T>(
    a: Seq<T>,
    n: nat,
    b: Seq<T>,
    m: nat,
    rest: Result<(Seq<T>, nat), GgufError>,
)
    ensures
        before(a, n, before(b, m, rest)) == before(a + b, n + m, rest),
{
    if let Ok((row, _)) = rest {
        assert(a + (b + row) =~= (a + b) + row);
    }
}

/// Whether an array keeps its numbers: it is short, and its elements are integers.
pub open spec fn retains(element_type: u32, len: u64) -> bool {
    len <= MAX_RETAINED_ITEMS && (element_type <= 5 || element_type == 10 || element_type == 11)
}

/// The entry at the front: a key and a value.
pub open spec fn entry_at(s: Seq<u8>) -> Result<((Seq<char>, GgufDatum), nat), GgufError> {
    match string_at(s) {
        Err(e) => Err(e),
        Ok((key, key_used)) => match value_at(past(s, key_used)) {
            Err(e) => Err(e),
            Ok((v, used)) => Ok(((key, v), key_used + used)),
        },
    }
}

/// The `n` entries at the front.
pub open spec fn entries_at(s: Seq<u8>, n: nat) -> Result<
    (Seq<(Seq<char>, GgufDatum)>, nat),
    GgufError,
>
    decreases n,
{
    if n == 0 {
        Ok((Seq::empty(), 0))
    } else {
        match entry_at(s) {
            Err(e) => Err(e),
            Ok((entry, used)) => before(
                seq![entry],
                used,
                entries_at(past(s, used), (n - 1) as nat),
            ),
        }
    }
}

/// The entries of a file: after the mark of the format, the version, the number of tensors
/// and the number of entries.
pub open spec fn entries_of(s: Seq<u8>) -> Result<Seq<(Seq<char>, GgufDatum)>, GgufError> {
    if s.len() < 4 {
        Err(GgufError::Truncated)
    } else if s.take(4) != seq![0x47u8, 0x47, 0x55, 0x46] {
        Err(GgufError::NotGguf)
    } else {
        match word_at(past(s, 4)) {
            Err(e) => Err(e),
            Ok((version, _)) => if version != 2 && version != 3 {
                Err(GgufError::UnsupportedVersion(version))
            } else {
                match (long_at(past(s, 8)), long_at(past(s, 16))) {
                    (Err(e), _) => Err(e),
                    (_, Err(e)) => Err(e),
                    (Ok(_), Ok((count, _))) => if count > MAX_METADATA_ENTRIES {
                        Err(GgufError::TooManyEntries(count))
                    } else {
                        match entries_at(past(s, 24), count as nat) {
                            Err(e) => Err(e),
                            Ok((entries, _)) => Ok(entries),
                        }
                    },
                }
            },
        }
    }
}

/// The value of the last entry with the given key.
pub open spec fn lookup(entries: Seq<(Seq<char>, GgufDatum)>, key: Seq<char>) -> Option<GgufDatum>
    decreases entries.len(),
{
    if entries.len() == 0 {
        None
    } else if entries.last().0 == key {
        Some(entries.last().1)
    } else {
        lookup(entries.drop_last(), key)
    }
}

/// The size that the entry `suffix` of the file's architecture gives.
pub open spec fn arch_size(entries: Seq<(Seq<char>, GgufDatum)>, suffix: Seq<char>) -> Option<
    usize,
> {
    match lookup(entries, "general.architecture"@) {
        None => None,
        Some(a) => match a.text() {
            None => None,
            Some(arch) => match lookup(entries, arch + "."@ + suffix) {
                None => None,
                Some(v) => match v.number() {
                    Some(n) => if n <= usize::MAX {
                        Some(n as usize)
                    } else {
                        None
                    },
                    None => None,
                },
            },
        },
    }
}

/// `a`, or `b` where there is none.
pub open spec fn or_size(a: Option<usize>, b: Option<usize>) -> Option<usize> {
    match a {
        Some(_) => a,
        None => b,
    }
}

/// What the panel reads from the metadata of a model.
#[derive(Clone, Copy, Debug, PartialEq, Eq, Structural)]
pub struct GgufMetadata {
    pub context_length: Option<usize>,
    pub block_count: Option<usize>,
    pub head_count: Option<usize>,
    pub head_count_kv: Option<usize>,
    pub key_head_dim: Option<usize>,
    pub value_head_dim: Option<usize>,
}

/// The size of a head where the file does not give it: the embedding shared out among the
/// heads.
pub open spec fn shared_head_dim(entries: Seq<(Seq<char>, GgufDatum)>) -> Option<usize> {
    match (arch_size(entries, "embedding_length"@), arch_size(entries, "attention.head_count"@)) {
        (Some(embedding), Some(count)) => if count > 0 {
            Some(embedding / count)
        } else {
            None
        },
        _ => None,
    }
}

/// What the panel reads from the entries of a file.
pub open spec fn metadata_in(entries: Seq<(Seq<char>, GgufDatum)>) -> GgufMetadata {
    let head_count = arch_size(entries, "attention.head_count"@);
    GgufMetadata {
        context_length: arch_size(entries, "context_length"@),
        block_count: arch_size(entries, "block_count"@),
        head_count,
        head_count_kv: or_size(arch_size(entries, "attention.head_count_kv"@), head_count),
        key_head_dim: or_size(
            arch_size(entries, "attention.key_length"@),
            shared_head_dim(entries),
        ),
        value_head_dim: or_size(
            arch_size(entries, "attention.value_length"@),
            shared_head_dim(entries),
        ),
    }
}

/// What the panel reads from a file, of which `s` is the front or the whole.
pub open spec fn metadata_of(s: Seq<u8>) -> Result<GgufMetadata, GgufError> {
    match entries_of(s) {
        Err(e) => Err(e),
        Ok(entries) => Ok(metadata_in(entries)),
    }
}

// ---------------------------------------------------------------------------
// Reading
// ---------------------------------------------------------------------------

/// What was read from `bytes` at `at` is what the format says: the value, and the place
/// behind it.
pub open spec fn read_as<T>(
    bytes: Seq<u8>,
    at: usize,
    expected: Result<(T, nat), GgufError>,
    got: Result<(T, usize), GgufError>,
) -> bool {
    match got {
        Err(e) => expected == Err::<(T, nat), GgufError>(e),
        Ok((v, next)) => at <= next <= bytes.len() && expected == Ok::<(T, nat), GgufError>(
            (v, (next - at) as nat),
        ),
    }
}

fn read_u32(bytes: &[u8], at: usize) -> (r: Result<(u32, usize), GgufError>)
    requires
        at <= bytes@.len(),
    ensures
        read_as(bytes@, at, word_at(bytes@.skip(at as int)), r),
{
    if bytes.len() - at < 4 {
        return Err(GgufError::Truncated);
    }
    let n: u32 = bytes[at] as u32 + 0x100 * (bytes[at + 1] as u32) + 0x1_0000 * (bytes[at
        + 2] as u32) + 0x100_0000 * (bytes[at + 3] as u32);
    Ok((n, at + 4))
}

fn read_u64(bytes: &[u8], at: usize) -> (r: Result<(u64, usize), GgufError>)
    requires
        at <= bytes@.len(),
    ensures
        read_as(bytes@, at, long_at(bytes@.skip(at as int)), r),
{
    if bytes.len() - at < 8 {
        return Err(GgufError::Truncated);
    }
    let ghost s = bytes@.skip(at as int);
    assert(past(s, 4) =~= bytes@.skip(at + 4));
    match (read_u32(bytes, at), read_u32(bytes, at + 4)) {
        (Ok((low, _)), Ok((high, _))) => Ok((low as u64 + 0x1_0000_0000 * (high as u64), at + 8)),
        _ => Err(GgufError::Truncated),
    }
}

fn read_string(bytes: &[u8], at: usize) -> (r: Result<(String, usize), GgufError>)
    requires
        at <= bytes@.len(),
    ensures
        match r {
            Err(e) => string_at(bytes@.skip(at as int)) == Err::<(Seq<char>, nat), GgufError>(e),
            Ok((t, next)) => at <= next <= bytes@.len() && string_at(bytes@.skip(at as int)) == Ok::<
                (Seq<char>, nat),
                GgufError,
            >((t@, (next - at) as nat)),
        },
{
    reveal(string_at);
    let ghost s = bytes@.skip(at as int);
    let (len, from): (u64, usize) = match read_u64(bytes, at) {
        Ok(p) => p,
        Err(e) => {
            return Err(e);
        },
    };
    if len > MAX_STRING_BYTES {
        return Err(GgufError::StringTooLarge(len));
    }
    let n: usize = len as usize;
    if bytes.len() - from < n {
        return Err(GgufError::Truncated);
    }
    let body = vstd::slice::slice_subrange(bytes, from, from + n);
    assert(body@ =~= s.subrange(8, 8 + len));
    match outside::utf8_text(body) {
        Some(t) => Ok((t, from + n)),
        None => Err(GgufError::NotUtf8),
    }
}

/// A value read from `bytes` at `at` is what the format says.
pub open spec fn value_read_as(
    bytes: Seq<u8>,
    at: usize,
    expected: Result<(GgufDatum, nat), GgufError>,
    got: Result<(GgufValue, usize), GgufError>,
) -> bool {
    match got {
        Err(e) => expected == Err::<(GgufDatum, nat), GgufError>(e),
        Ok((v, next)) => at <= next <= bytes.len() && expected == Ok::<
            (GgufDatum, nat),
            GgufError,
        >((v@, (next - at) as nat)),
    }
}

fn read_scalar(bytes: &[u8], at: usize, value_type: u32) -> (r: Result<
    (GgufValue, usize),
    GgufError,
>)
    requires
        at <= bytes@.len(),
    ensures
        value_read_as(bytes@, at, scalar_at(bytes@.skip(at as int), value_type), r),
{
    reveal(scalar_at);
    let left: usize = bytes.len() - at;
    if value_type == 0 || value_type == 1 || value_type == 7 {
        if left < 1 {
            return Err(GgufError::Truncated);
        }
        let b: u8 = bytes[at];
        let v = if value_type == 0 {
            GgufValue::Uint(b as u64)
        } else if value_type == 1 {
            GgufValue::Int(
                if b >= 0x80 {
                    b as i64 - 0x100
                } else {
                    b as i64
                },
            )
        } else {
            GgufValue::Bool(b != 0)
        };
        Ok((v, at + 1))
    } else if value_type == 2 || value_type == 3 {
        if left < 2 {
            return Err(GgufError::Truncated);
        }
        let n: u32 = bytes[at] as u32 + 0x100 * (bytes[at + 1] as u32);
        let v = if value_type == 2 {
            GgufValue::Uint(n as u64)
        } else {
            GgufValue::Int(
                if n >= 0x8000 {
                    n as i64 - 0x1_0000
                } else {
                    n as i64
                },
            )
        };
        Ok((v, at + 2))
    } else if value_type == 4 || value_type == 5 || value_type == 6 {
        match read_u32(bytes, at) {
            Err(e) => Err(e),
            Ok((n, next)) => {
                let v = if value_type == 4 {
                    GgufValue::Uint(n as u64)
                } else if value_type == 5 {
                    GgufValue::Int(
                        if n >= 0x8000_0000 {
                            n as i64 - 0x1_0000_0000
                        } else {
                            n as i64
                        },
                    )
                } else {
                    GgufValue::Float32(n)
                };
                Ok((v, next))
            },
        }
    } else if value_type == 8 {
        match read_string(bytes, at) {
            Err(e) => Err(e),
            Ok((t, next)) => Ok((GgufValue::Text(t), next)),
        }
    } else if value_type == 10 || value_type == 11 || value_type == 12 {
        match read_u64(bytes, at) {
            Err(e) => Err(e),
            Ok((n, next)) => {
                let v = if value_type == 10 {
                    GgufValue::Uint(n)
                } else if value_type == 11 {
                    GgufValue::Int(
                        if n >= 0x8000_0000_0000_0000 {
                            (n - 0x8000_0000_0000_0000) as i64 + i64::MIN
                        } else {
                            n as i64
                        },
                    )
                } else {
                    GgufValue::Float64(n)
                };
                Ok((v, next))
            },
        }
    } else {
        Err(GgufError::UnsupportedType(value_type))
    }
}

fn read_typed_value(bytes: &[u8], at: usize, value_type: u32) -> (r: Result<
    (GgufValue, usize),
    GgufError,
>)
    requires
        at <= bytes@.len(),
    ensures
        value_read_as(bytes@, at, typed_at(bytes@.skip(at as int), value_type), r),
    decreases bytes@.len() - at, 1nat,
{
    if value_type == 9 {
        read_value(bytes, at)
    } else {
        read_scalar(bytes, at, value_type)
    }
}

fn read_value(bytes: &[u8], at: usize) -> (r: Result<(GgufValue, usize), GgufError>)
    requires
        at <= bytes@.len(),
    ensures
        value_read_as(bytes@, at, value_at(bytes@.skip(at as int)), r),
    decreases bytes@.len() - at, 0nat,
{
    let ghost s = bytes@.skip(at as int);
    let (value_type, from): (u32, usize) = match read_u32(bytes, at) {
        Ok(p) => p,
        Err(e) => {
            return Err(e);
        },
    };
    assert(past(s, 4) =~= bytes@.skip(from as int));
    if value_type != 9 {
        return read_scalar(bytes, from, value_type);
    }
    let (element_type, from): (u32, usize) = match read_u32(bytes, from) {
        Ok(p) => p,
        Err(e) => {
            return Err(e);
        },
    };
    assert(past(s, 8) =~= bytes@.skip(from as int));
    let (len, from): (u64, usize) = match read_u64(bytes, from) {
        Ok(p) => p,
        Err(e) => {
            return Err(e);
        },
    };
    assert(past(s, 16) =~= bytes@.skip(from as int));
    if len > MAX_ARRAY_ITEMS {
        return Err(GgufError::ArrayTooLarge(len));
    }
    let retain = len <= MAX_RETAINED_ITEMS && (element_type <= 5 || element_type == 10
        || element_type == 11);
    match read_items(bytes, from, element_type, len, retain) {
        Err(e) => Err(e),
        Ok((values, next)) => Ok((GgufValue::Array { element_type, values }, next)),
    }
}

fn read_items(bytes: &[u8], from: usize, element_type: u32, len: u64, retain: bool) -> (r: Result<
    (Vec<u64>, usize),
    GgufError,
>)
    requires
        from <= bytes@.len(),
    ensures
        match r {
            Err(e) => items_at(bytes@.skip(from as int), element_type, len as nat) == Err::<
                (Seq<u64>, nat),
                GgufError,
            >(e),
            Ok((values, next)) => from <= next <= bytes@.len() && (items_at(
                bytes@.skip(from as int),
                element_type,
                len as nat,
            ) matches Ok((numbers, used)) && used == next - from && values@ == (if retain {
                numbers
            } else {
                Seq::empty()
            })),
        },
    decreases bytes@.len() - from, 2nat,
{
    let mut values: Vec<u64> = Vec::new();
    let mut cur: usize = from;
    let mut i: u64 = 0;
    let ghost mut numbers: Seq<u64> = Seq::empty();
    proof {
        if let Ok((row, _)) = items_at(bytes@.skip(from as int), element_type, len as nat) {
            assert(numbers + row =~= row);
        }
    }
    while i < len
        invariant
            i <= len,
            from <= cur <= bytes@.len(),
            values@ == (if retain {
                numbers
            } else {
                Seq::empty()
            }),
            items_at(bytes@.skip(from as int), element_type, len as nat) == before(
                numbers,
                (cur - from) as nat,
                items_at(bytes@.skip(cur as int), element_type, (len - i) as nat),
            ),
        decreases len - i,
    {
        let ghost rest = bytes@.skip(cur as int);
        match read_typed_value(bytes, cur, element_type) {
            Err(e) => {
                return Err(e);
            },
            Ok((v, next)) => {
                proof {
                    let used = (next - cur) as nat;
                    assert(past(rest, used) =~= bytes@.skip(next as int));
                    let tail = items_at(
                        bytes@.skip(next as int),
                        element_type,
                        (len - i - 1) as nat,
                    );
                    lemma_before_joins(numbers, (cur - from) as nat, own_numbers(v@), used, tail);
                    numbers = numbers + own_numbers(v@);
                }
                if retain {
                    if let Some(n) = v.as_u64() {
                        values.push(n);
                    }
                }
                cur = next;
            },
        }
        i += 1;
    }
    assert(numbers + Seq::<u64>::empty() =~= numbers);
    Ok((values, cur))
}

/// What the entries hold.
pub open spec fn entry_views(entries: Seq<(String, GgufValue)>) -> Seq<(Seq<char>, GgufDatum)> {
    Seq::new(entries.len(), |i: int| (entries[i].0@, entries[i].1@))
}

fn read_entry(bytes: &[u8], at: usize) -> (r: Result<(String, GgufValue, usize), GgufError>)
    requires
        at <= bytes@.len(),
    ensures
        match r {
            Err(e) => entry_at(bytes@.skip(at as int)) == Err::<
                ((Seq<char>, GgufDatum), nat),
                GgufError,
            >(e),
            Ok((key, value, next)) => at <= next <= bytes@.len() && entry_at(bytes@.skip(at as int))
                == Ok::<((Seq<char>, GgufDatum), nat), GgufError>(
                ((key@, value@), (next - at) as nat),
            ),
        },
{
    let ghost rest = bytes@.skip(at as int);
    let (key, mid): (String, usize) = match read_string(bytes, at) {
        Ok(p) => p,
        Err(e) => {
            return Err(e);
        },
    };
    assert(past(rest, (mid - at) as nat) =~= bytes@.skip(mid as int));
    match read_value(bytes, mid) {
        Ok((value, next)) => Ok((key, value, next)),
        Err(e) => Err(e),
    }
}

fn read_entry_list(bytes: &[u8], from: usize, count: u64) -> (r: Result<
    Vec<(String, GgufValue)>,
    GgufError,
>)
    requires
        from <= bytes@.len(),
    ensures
        match r {
            Err(e) => entries_at(bytes@.skip(from as int), count as nat) == Err::<
                (Seq<(Seq<char>, GgufDatum)>, nat),
                GgufError,
            >(e),
            Ok(entries) => entries_at(bytes@.skip(from as int), count as nat) matches Ok((row, _))
                && row == entry_views(entries@),
        },
{
    let mut entries: Vec<(String, GgufValue)> = Vec::new();
    let mut cur: usize = from;
    let mut i: u64 = 0;
    let ghost mut row: Seq<(Seq<char>, GgufDatum)> = Seq::empty();
    assert(entry_views(entries@) =~= row);
    proof {
        if let Ok((all, _)) = entries_at(bytes@.skip(from as int), count as nat) {
            assert(row + all =~= all);
        }
    }
    while i < count
        invariant
            i <= count,
            from <= cur <= bytes@.len(),
            row == entry_views(entries@),
            entries_at(bytes@.skip(from as int), count as nat) == before(
                row,
                (cur - from) as nat,
                entries_at(bytes@.skip(cur as int), (count - i) as nat),
            ),
        decreases count - i,
    {
        match read_entry(bytes, cur) {
            Err(e) => {
                return Err(e);
            },
            Ok((key, value, next)) => {
                let ghost one: Seq<(Seq<char>, GgufDatum)> = seq![(key@, value@)];
                entries.push((key, value));
                proof {
                    let tail = entries_at(bytes@.skip(next as int), (count - i - 1) as nat);
                    assert(past(bytes@.skip(cur as int), (next - cur) as nat) =~= bytes@.skip(
                        next as int,
                    ));
                    lemma_before_joins(row, (cur - from) as nat, one, (next - cur) as nat, tail);
                    assert(entry_views(entries@) =~= row + one);
                    row = row + one;
                }
                cur = next;
            },
        }
        i += 1;
    }
    assert(row + Seq::<(Seq<char>, GgufDatum)>::empty() =~= row);
    Ok(entries)
}

fn read_entries(bytes: &[u8]) -> (r: Result<Vec<(String, GgufValue)>, GgufError>)
    ensures
        match r {
            Err(e) => entries_of(bytes@) == Err::<Seq<(Seq<char>, GgufDatum)>, GgufError>(e),
            Ok(entries) => entries_of(bytes@) == Ok::<Seq<(Seq<char>, GgufDatum)>, GgufError>(
                entry_views(entries@),
            ),
        },
{
    let ghost s = bytes@;
    if bytes.len() < 4 {
        return Err(GgufError::Truncated);
    }
    if bytes[0] != 0x47 || bytes[1] != 0x47 || bytes[2] != 0x55 || bytes[3] != 0x46 {
        proof {
            let mark = seq![0x47u8, 0x47, 0x55, 0x46];
            assert(s.take(4)[0] == s[0] && s.take(4)[1] == s[1] && s.take(4)[2] == s[2]
                && s.take(4)[3] == s[3]);
            assert(mark[0] == 0x47 && mark[1] == 0x47 && mark[2] == 0x55 && mark[3] == 0x46);
        }
        return Err(GgufError::NotGguf);
    }
    assert(s.take(4) =~= seq![0x47u8, 0x47, 0x55, 0x46]);
    assert(past(s, 4) =~= bytes@.skip(4));
    let (version, from): (u32, usize) = match read_u32(bytes, 4) {
        Ok(p) => p,
        Err(e) => {
            return Err(e);
        },
    };
    if version != 2 && version != 3 {
        return Err(GgufError::UnsupportedVersion(version));
    }
    assert(past(s, 8) =~= bytes@.skip(from as int));
    let (_tensors, from): (u64, usize) = match read_u64(bytes, from) {
        Ok(p) => p,
        Err(e) => {
            return Err(e);
        },
    };
    assert(past(s, 16) =~= bytes@.skip(from as int));
    let (count, from): (u64, usize) = match read_u64(bytes, from) {
        Ok(p) => p,
        Err(e) => {
            return Err(e);
        },
    };
    assert(past(s, 24) =~= bytes@.skip(from as int));
    if count > MAX_METADATA_ENTRIES {
        return Err(GgufError::TooManyEntries(count));
    }
    read_entry_list(bytes, from, count)
}

fn find_value<'a>(entries: &'a Vec<(String, GgufValue)>, key: &str) -> (r: Option<&'a GgufValue>)
    ensures
        match r {
            Some(v) => lookup(entry_views(entries@), key@) == Some(v@),
            None => lookup(entry_views(entries@), key@) is None,
        },
{
    let ghost all = entry_views(entries@);
    let mut i: usize = entries.len();
    assert(all.take(i as int) =~= all);
    while i > 0
        invariant
            i <= entries@.len(),
            all == entry_views(entries@),
            lookup(all, key@) == lookup(all.take(i as int), key@),
        decreases i,
    {
        i -= 1;
        assert(all.take(i + 1).drop_last() =~= all.take(i as int));
        assert(all.take(i + 1).last() == all[i as int]);
        if text::same(&entries[i].0, key) {
            return Some(&entries[i].1);
        }
    }
    assert(all.take(0) =~= Seq::empty());
    None
}

fn find_arch_size(entries: &Vec<(String, GgufValue)>, suffix: &str) -> (r: Option<usize>)
    ensures
        r == arch_size(entry_views(entries@), suffix@),
{
    let Some(named) = find_value(entries, "general.architecture") else {
        return None;
    };
    let Some(arch) = named.as_str() else {
        return None;
    };
    let mut key = arch.to_string();
    key.append(".");
    key.append(suffix);
    let Some(v) = find_value(entries, &key) else {
        return None;
    };
    let Some(n) = v.as_u64() else {
        return None;
    };
    if n <= usize::MAX as u64 {
        Some(n as usize)
    } else {
        None
    }
}

fn first_size(a: Option<usize>, b: Option<usize>) -> (r: Option<usize>)
    ensures
        r == or_size(a, b),
{
    match a {
        Some(_) => a,
        None => b,
    }
}

/// Reads what the panel needs from a file, of which `bytes` is the front or the whole.
pub fn read_metadata(bytes: &[u8]) -> (r: Result<GgufMetadata, GgufError>)
    ensures
        r == metadata_of(bytes@),
{
    let entries: Vec<(String, GgufValue)> = match read_entries(bytes) {
        Ok(entries) => entries,
        Err(e) => {
            return Err(e);
        },
    };
    let embedding_length = find_arch_size(&entries, "embedding_length");
    let head_count = find_arch_size(&entries, "attention.head_count");
    let shared: Option<usize> = match (embedding_length, head_count) {
        (Some(embedding), Some(count)) => if count > 0 {
            Some(embedding / count)
        } else {
            None
        },
        _ => None,
    };
    Ok(
        GgufMetadata {
            context_length: find_arch_size(&entries, "context_length"),
            block_count: find_arch_size(&entries, "block_count"),
            head_count,
            head_count_kv: first_size(
                find_arch_size(&entries, "attention.head_count_kv"),
                head_count,
            ),
            key_head_dim: first_size(find_arch_size(&entries, "attention.key_length"), shared),
            value_head_dim: first_size(find_arch_size(&entries, "attention.value_length"), shared),
        },
    )
}

// ---------------------------------------------------------------------------
// Reading the front of a file
// ---------------------------------------------------------------------------

proof fn lemma_past_longer(s: Seq<u8>, t: Seq<u8>, n: nat)
    requires
        n <= s.len(),
    ensures
        past(s + t, n) == past(s, n) + t,
        past(s, n).len() == s.len() - n,
{
    assert(past(s + t, n) =~= past(s, n) + t);
}

proof fn lemma_numbers_longer(s: Seq<u8>, t: Seq<u8>)
    ensures
        word_at(s) is Ok ==> word_at(s + t) == word_at(s),
        long_at(s) is Ok ==> long_at(s + t) == long_at(s),
{
    if s.len() >= 4 {
        lemma_past_longer(s, t, 4);
        if s.len() >= 8 {
            assert forall|i: int| 0 <= i < 4 implies past(s + t, 4)[i] == past(s, 4)[i] by {}
        }
    }
}

proof fn lemma_string_longer(s: Seq<u8>, t: Seq<u8>)
    requires
        !(string_at(s) matches Err(GgufError::Truncated)),
    ensures
        string_at(s + t) == string_at(s),
        string_at(s) matches Ok((_, used)) ==> used <= s.len(),
{
    reveal(string_at);
    lemma_numbers_longer(s, t);
    if let Ok((len, _)) = long_at(s) {
        if len <= MAX_STRING_BYTES {
            assert((s + t).subrange(8, 8 + len) =~= s.subrange(8, 8 + len));
        }
    }
}

proof fn lemma_scalar_longer(s: Seq<u8>, t: Seq<u8>, value_type: u32)
    requires
        !(scalar_at(s, value_type) matches Err(GgufError::Truncated)),
    ensures
        scalar_at(s + t, value_type) == scalar_at(s, value_type),
        scalar_at(s, value_type) matches Ok((_, used)) ==> used <= s.len(),
{
    reveal(scalar_at);
    lemma_numbers_longer(s, t);
    if value_type == 8 {
        lemma_string_longer(s, t);
    }
}

proof fn lemma_typed_longer(s: Seq<u8>, t: Seq<u8>, value_type: u32)
    requires
        !(typed_at(s, value_type) matches Err(GgufError::Truncated)),
    ensures
        typed_at(s + t, value_type) == typed_at(s, value_type),
        typed_at(s, value_type) matches Ok((_, used)) ==> used <= s.len(),
    decreases s.len(), 1nat,
{
    if value_type == 9 {
        lemma_value_longer(s, t);
    } else {
        lemma_scalar_longer(s, t, value_type);
    }
}

proof fn lemma_value_longer(s: Seq<u8>, t: Seq<u8>)
    requires
        !(value_at(s) matches Err(GgufError::Truncated)),
    ensures
        value_at(s + t) == value_at(s),
        value_at(s) matches Ok((_, used)) ==> used <= s.len(),
    decreases s.len(), 0nat,
{
    lemma_numbers_longer(s, t);
    lemma_past_longer(s, t, 4);
    if let Ok((value_type, _)) = word_at(s) {
        if value_type != 9 {
            lemma_scalar_longer(past(s, 4), t, value_type);
        } else {
            lemma_numbers_longer(past(s, 4), t);
            lemma_past_longer(s, t, 8);
            lemma_numbers_longer(past(s, 8), t);
            if let Ok((element_type, _)) = word_at(past(s, 4)) {
                if let Ok((len, _)) = long_at(past(s, 8)) {
                    lemma_past_longer(s, t, 16);
                    if len <= MAX_ARRAY_ITEMS {
                        lemma_items_longer(past(s, 16), t, element_type, len as nat);
                    }
                }
            }
        }
    }
}

proof fn lemma_items_longer(s: Seq<u8>, t: Seq<u8>, element_type: u32, n: nat)
    requires
        !(items_at(s, element_type, n) matches Err(GgufError::Truncated)),
    ensures
        items_at(s + t, element_type, n) == items_at(s, element_type, n),
        items_at(s, element_type, n) matches Ok((_, used)) ==> used <= s.len(),
    decreases s.len(), 2 + n,
{
    if n > 0 {
        lemma_typed_longer(s, t, element_type);
        if let Ok((_, used)) = typed_at(s, element_type) {
            lemma_past_longer(s, t, used);
            lemma_items_longer(past(s, used), t, element_type, (n - 1) as nat);
        }
    }
}

proof fn lemma_entries_longer(s: Seq<u8>, t: Seq<u8>, n: nat)
    requires
        !(entries_at(s, n) matches Err(GgufError::Truncated)),
    ensures
        entries_at(s + t, n) == entries_at(s, n),
    decreases n,
{
    if n > 0 {
        lemma_string_longer(s, t);
        if let Ok((_, key_used)) = string_at(s) {
            lemma_past_longer(s, t, key_used);
            lemma_value_longer(past(s, key_used), t);
            if let Ok((_, used)) = entry_at(s) {
                lemma_past_longer(s, t, used);
                lemma_entries_longer(past(s, used), t, (n - 1) as nat);
            }
        }
    }
}

/// A file can be read from its front: where the metadata does not break off in the bytes at
/// hand, what comes after them changes nothing.
pub proof fn law_front_of_file_is_enough(s: Seq<u8>, t: Seq<u8>)
    requires
        metadata_of(s) != Err::<GgufMetadata, GgufError>(GgufError::Truncated),
    ensures
        metadata_of(s + t) == metadata_of(s),
{
    assert((s + t).take(4) =~= s.take(4));
    if s.take(4) == seq![0x47u8, 0x47, 0x55, 0x46] {
        lemma_past_longer(s, t, 4);
        lemma_numbers_longer(past(s, 4), t);
        if let Ok((version, _)) = word_at(past(s, 4)) {
            if version == 2 || version == 3 {
                lemma_past_longer(s, t, 8);
                lemma_numbers_longer(past(s, 8), t);
                lemma_past_longer(s, t, 16);
                lemma_numbers_longer(past(s, 16), t);
                if let Ok((count, _)) = long_at(past(s, 16)) {
                    lemma_past_longer(s, t, 24);
                    if count <= MAX_METADATA_ENTRIES {
                        lemma_entries_longer(past(s, 24), t, count as nat);
                    }
                }
            }
        }
    }
}

/// The sizes that a file gives itself are never replaced by ones worked out from others, and
/// the number of key and value heads is there whenever the number of heads is.
pub proof fn law_given_sizes_stand(s: Seq<u8>)
    requires
        metadata_of(s) is Ok,
    ensures
        entries_of(s) matches Ok(entries) && metadata_of(s) matches Ok(m) && (arch_size(
            entries,
            "attention.key_length"@,
        ) is Some ==> m.key_head_dim == arch_size(entries, "attention.key_length"@)) && (arch_size(
            entries,
            "attention.value_length"@,
        ) is Some ==> m.value_head_dim == arch_size(entries, "attention.value_length"@)) && (
        m.head_count is Some ==> m.head_count_kv is Some),
{
}

// ---------------------------------------------------------------------------
// Why a file is refused
// ---------------------------------------------------------------------------

impl GgufError {
    /// What an error says.
    pub open spec fn text(self) -> Seq<char> {
        match self {
            GgufError::Truncated => "failed to fill whole buffer"@,
            GgufError::NotGguf => "not a GGUF file"@,
            GgufError::UnsupportedVersion(version) => "unsupported GGUF version "@
                + numeral::decimal(version as nat) + "; expected 2 or 3"@,
            GgufError::TooManyEntries(n) => "GGUF metadata has too many entries: "@
                + numeral::decimal(n as nat),
            GgufError::StringTooLarge(n) => "GGUF string is too large: "@ + numeral::decimal(
                n as nat,
            ) + " bytes"@,
            GgufError::NotUtf8 => "GGUF string is not UTF-8"@,
            GgufError::ArrayTooLarge(n) => "GGUF metadata array is too large: "@
                + numeral::decimal(n as nat) + " items"@,
            GgufError::UnsupportedType(t) => "unsupported GGUF metadata value type "@
                + numeral::decimal(t as nat),
        }
    }

    /// What the error says.
    pub fn message(&self) -> (r: String)
        ensures
            r@ == self.text(),
    {
        proof {
            reveal_strlit("");
        }
        match *self {
            GgufError::Truncated => "failed to fill whole buffer".to_string(),
            GgufError::NotGguf => "not a GGUF file".to_string(),
            GgufError::UnsupportedVersion(version) => with_number(
                "unsupported GGUF version ",
                version as u64,
                "; expected 2 or 3",
            ),
            GgufError::TooManyEntries(n) => with_number(
                "GGUF metadata has too many entries: ",
                n,
                "",
            ),
            GgufError::StringTooLarge(n) => with_number("GGUF string is too large: ", n, " bytes"),
            GgufError::NotUtf8 => "GGUF string is not UTF-8".to_string(),
            GgufError::ArrayTooLarge(n) => with_number(
                "GGUF metadata array is too large: ",
                n,
                " items",
            ),
            GgufError::UnsupportedType(t) => with_number(
                "unsupported GGUF metadata value type ",
                t as u64,
                "",
            ),
        }
    }
}

fn with_number(before: &str, n: u64, after: &str) -> (r: String)
    ensures
        r@ == before@ + numeral::decimal(n as nat) + after@,
        after@.len() == 0 ==> r@ == before@ + numeral::decimal(n as nat),
{
    let mut out = before.to_string();
    out.append(&numeral::number_text(n));
    out.append(after);
    out
}

/// Why the `n` entries at the front cannot be read, where `previous` is the key before them: a
/// key has its own reason, and a value is named by its key and the one before.
pub open spec fn entries_refusal(s: Seq<u8>, n: nat, previous: Seq<char>) -> Option<Seq<char>>
    decreases n,
{
    if n == 0 {
        None
    } else {
        match string_at(s) {
            Err(e) => Some(e.text()),
            Ok((key, key_used)) => match value_at(past(s, key_used)) {
                Err(_) => Some(
                    "read GGUF metadata value for "@ + key + " after "@ + previous,
                ),
                Ok((_, used)) => entries_refusal(
                    past(s, key_used + used),
                    (n - 1) as nat,
                    key,
                ),
            },
        }
    }
}

/// Why the metadata of a file cannot be read, where it cannot.
pub open spec fn refusal_of(s: Seq<u8>) -> Option<Seq<char>> {
    if s.len() < 4 {
        Some("read GGUF magic"@)
    } else if s.take(4) != seq![0x47u8, 0x47, 0x55, 0x46] {
        Some(GgufError::NotGguf.text())
    } else {
        match word_at(past(s, 4)) {
            Err(_) => Some("read GGUF version"@),
            Ok((version, _)) => if version != 2 && version != 3 {
                Some(GgufError::UnsupportedVersion(version).text())
            } else {
                match (long_at(past(s, 8)), long_at(past(s, 16))) {
                    (Err(e), _) => Some(e.text()),
                    (_, Err(e)) => Some(e.text()),
                    (Ok(_), Ok((count, _))) => if count > MAX_METADATA_ENTRIES {
                        Some(GgufError::TooManyEntries(count).text())
                    } else {
                        entries_refusal(past(s, 24), count as nat, "<none>"@)
                    },
                }
            },
        }
    }
}

fn refused_entry(bytes: &[u8], from: usize, count: u64) -> (r: Option<String>)
    requires
        from <= bytes@.len(),
    ensures
        text::opt_text(r) == entries_refusal(bytes@.skip(from as int), count as nat, "<none>"@),
{
    let mut cur: usize = from;
    let mut previous = "<none>".to_string();
    let mut i: u64 = 0;
    while i < count
        invariant
            i <= count,
            cur <= bytes@.len(),
            entries_refusal(bytes@.skip(from as int), count as nat, "<none>"@) == entries_refusal(
                bytes@.skip(cur as int),
                (count - i) as nat,
                previous@,
            ),
        decreases count - i,
    {
        let ghost rest = bytes@.skip(cur as int);
        let (key, mid): (String, usize) = match read_string(bytes, cur) {
            Ok(p) => p,
            Err(e) => {
                return Some(e.message());
            },
        };
        assert(past(rest, (mid - cur) as nat) =~= bytes@.skip(mid as int));
        match read_value(bytes, mid) {
            Err(_) => {
                let mut out = "read GGUF metadata value for ".to_string();
                out.append(&key);
                out.append(" after ");
                out.append(&previous);
                return Some(out);
            },
            Ok((_, next)) => {
                assert(past(rest, (next - cur) as nat) =~= bytes@.skip(next as int));
                previous = key;
                cur = next;
            },
        }
        i += 1;
    }
    None
}

/// Why the metadata of a file cannot be read, in words; nothing where it can be.
pub fn refusal(bytes: &[u8]) -> (r: Option<String>)
    ensures
        text::opt_text(r) == refusal_of(bytes@),
        r is None <==> metadata_of(bytes@) is Ok,
{
    let ghost s = bytes@;
    proof {
        law_refusals_are_told(s);
    }
    if bytes.len() < 4 {
        return Some("read GGUF magic".to_string());
    }
    if bytes[0] != 0x47 || bytes[1] != 0x47 || bytes[2] != 0x55 || bytes[3] != 0x46 {
        proof {
            let mark = seq![0x47u8, 0x47, 0x55, 0x46];
            assert(s.take(4)[0] == s[0] && s.take(4)[1] == s[1] && s.take(4)[2] == s[2]
                && s.take(4)[3] == s[3]);
            assert(mark[0] == 0x47 && mark[1] == 0x47 && mark[2] == 0x55 && mark[3] == 0x46);
        }
        return Some(GgufError::NotGguf.message());
    }
    assert(s.take(4) =~= seq![0x47u8, 0x47, 0x55, 0x46]);
    assert(past(s, 4) =~= bytes@.skip(4));
    let (version, from): (u32, usize) = match read_u32(bytes, 4) {
        Ok(p) => p,
        Err(_) => {
            return Some("read GGUF version".to_string());
        },
    };
    if version != 2 && version != 3 {
        return Some(GgufError::UnsupportedVersion(version).message());
    }
    assert(past(s, 8) =~= bytes@.skip(from as int));
    let (_tensors, from): (u64, usize) = match read_u64(bytes, from) {
        Ok(p) => p,
        Err(e) => {
            return Some(e.message());
        },
    };
    assert(past(s, 16) =~= bytes@.skip(from as int));
    let (count, from): (u64, usize) = match read_u64(bytes, from) {
        Ok(p) => p,
        Err(e) => {
            return Some(e.message());
        },
    };
    assert(past(s, 24) =~= bytes@.skip(from as int));
    if count > MAX_METADATA_ENTRIES {
        return Some(GgufError::TooManyEntries(count).message());
    }
    refused_entry(bytes, from, count)
}

proof fn lemma_refused_entries(s: Seq<u8>, n: nat, previous: Seq<char>)
    ensures
        entries_refusal(s, n, previous) is None <==> entries_at(s, n) is Ok,
    decreases n,
{
    if n > 0 {
        if let Ok((key, key_used)) = string_at(s) {
            if let Ok((_, used)) = value_at(past(s, key_used)) {
                lemma_refused_entries(past(s, key_used + used), (n - 1) as nat, key);
            }
        }
    }
}

/// A file is refused in words exactly where its metadata cannot be read.
pub proof fn law_refusals_are_told(s: Seq<u8>)
    ensures
        refusal_of(s) is None <==> metadata_of(s) is Ok,
{
    if let Ok((count, _)) = long_at(past(s, 16)) {
        lemma_refused_entries(past(s, 24), count as nat, "<none>"@);
    }
}

// ---------------------------------------------------------------------------
// Laws
// ---------------------------------------------------------------------------

/// The bytes of a number are its digits to the base of 256, the lowest first.
pub proof fn law_lower_bytes_come_first(s: Seq<u8>)
    requires
        s.len() >= 8,
    ensures
        le16(s) % 0x100 == s[0] && le16(s) / 0x100 == s[1],
        le32(s) % 0x100 == s[0] && le32(s) / 0x100 == s[1] + 0x100 * s[2] + 0x1_0000 * s[3],
        le32(s) % 0x1_0000 == le16(s) && le32(s) / 0x1_0000 == le16(s.skip(2)),
        le64(s) % 0x1_0000_0000 == le32(s) && le64(s) / 0x1_0000_0000 == le32(s.skip(4)),
        word_at(s) is Ok && (word_at(s)->Ok_0).0 == le32(s) && (word_at(s)->Ok_0).1 == 4,
        long_at(s) is Ok && (long_at(s)->Ok_0).0 == le64(s) && (long_at(s)->Ok_0).1 == 8,
{
    let (a, b) = (s.skip(2), s.skip(4));
    assert(a[0] == s[2] && a[1] == s[3]);
    assert(past(s, 4) == b);
    assert(0 <= le16(s) < 0x1_0000 && le32(s) == le16(s) + 0x1_0000 * le16(a));
    assert(0 <= le32(s) <= u32::MAX && 0 <= le32(b) <= u32::MAX);
    assert(0 <= le64(s) <= u64::MAX);
}

/// A number of a signed type differs from the one that its bytes are by a whole number of
/// ranges, and lies in the range of its type; one of an unsigned type is what its bytes are.
pub proof fn law_numbers_of_each_type(s: Seq<u8>)
    requires
        s.len() >= 8,
    ensures
        scalar_at(s, 0) == Ok::<(GgufDatum, nat), GgufError>((GgufDatum::Uint(s[0] as u64), 1)),
        scalar_at(s, 1) matches Ok((GgufDatum::Int(n), used)) && used == 1 && -0x80 <= n < 0x80 && (n
            == s[0] || n == s[0] - 0x100),
        scalar_at(s, 2) matches Ok((GgufDatum::Uint(n), used)) && used == 2 && n == le16(s),
        scalar_at(s, 3) matches Ok((GgufDatum::Int(n), used)) && used == 2 && -0x8000 <= n < 0x8000
            && (n == le16(s) || n == le16(s) - 0x1_0000),
        scalar_at(s, 4) matches Ok((GgufDatum::Uint(n), used)) && used == 4 && n == le32(s),
        scalar_at(s, 5) matches Ok((GgufDatum::Int(n), used)) && used == 4 && -0x8000_0000 <= n
            < 0x8000_0000 && (n == le32(s) || n == le32(s) - 0x1_0000_0000),
        scalar_at(s, 7) matches Ok((GgufDatum::Bool(b), used)) && used == 1 && (b <==> s[0] != 0),
        scalar_at(s, 10) matches Ok((GgufDatum::Uint(n), used)) && used == 8 && n == le64(s),
        scalar_at(s, 11) matches Ok((GgufDatum::Int(n), used)) && used == 8 && (n == le64(s) || n
            == le64(s) - 0x1_0000_0000_0000_0000),
{
    reveal(scalar_at);
}

/// A text that is written with its length in front is read back.
pub proof fn law_texts_are_read_back(t: Seq<char>, s: Seq<u8>)
    requires
        utf8::encode_utf8(t).len() <= MAX_STRING_BYTES,
        s.len() >= 8 + utf8::encode_utf8(t).len(),
        le64(s) == utf8::encode_utf8(t).len(),
        s.subrange(8, 8 + utf8::encode_utf8(t).len() as int) == utf8::encode_utf8(t),
    ensures
        string_at(s) == Ok::<(Seq<char>, nat), GgufError>(
            (t, 8 + utf8::encode_utf8(t).len()),
        ),
        scalar_at(s, 8) == Ok::<(GgufDatum, nat), GgufError>(
            (GgufDatum::Text(t), 8 + utf8::encode_utf8(t).len()),
        ),
{
    reveal(string_at);
    reveal(scalar_at);
    utf8::encode_utf8_valid_utf8(t);
    utf8::encode_utf8_decode_utf8(t);
}

/// The numbers of an array stand one behind the other.
pub proof fn law_items_stand_in_a_row(s: Seq<u8>, n: nat)
    ensures
        items_at(s, 4, n) matches Ok((row, used)) ==> {
            &&& row.len() == n
            &&& used == 4 * n <= s.len()
            &&& forall|i: int| 0 <= i < n ==> #[trigger] row[i] == le32(past(s, (4 * i) as nat))
        },
        4 * n <= s.len() ==> items_at(s, 4, n) is Ok,
    decreases n,
{
    reveal(scalar_at);
    if n > 0 && s.len() >= 4 {
        let m = (n - 1) as nat;
        let t = past(s, 4);
        law_items_stand_in_a_row(t, m);
        assert(typed_at(s, 4) == scalar_at(s, 4));
        assert(typed_at(s, 4) == Ok::<(GgufDatum, nat), GgufError>(
            (GgufDatum::Uint(le32(s) as u64), 4),
        ));
        if let Ok((row, used)) = items_at(t, 4, m) {
            let all = seq![le32(s) as u64] + row;
            assert(own_numbers(GgufDatum::Uint(le32(s) as u64)) =~= seq![le32(s) as u64]);
            assert(items_at(s, 4, n) == Ok::<(Seq<u64>, nat), GgufError>((all, 4 + used)));
            assert forall|i: int| 0 <= i < n implies #[trigger] all[i] == le32(
                past(s, (4 * i) as nat),
            ) by {
                if i == 0 {
                    assert(past(s, 0) =~= s);
                } else {
                    assert(row[i - 1] == le32(past(t, (4 * (i - 1)) as nat)));
                    assert(past(t, (4 * (i - 1)) as nat) =~= past(s, (4 * i) as nat));
                }
            }
        }
    }
}

/// A short array of integers keeps its numbers; a long one and one of texts keep none.
pub proof fn law_short_arrays_are_kept(s: Seq<u8>)
    requires
        s.len() >= 16,
        le32(s) == 9,
        value_at(s) is Ok,
    ensures
        ({
            let element_type = le32(past(s, 4));
            let len = le64(past(s, 8));
            &&& len <= MAX_ARRAY_ITEMS
            &&& (value_at(s)->Ok_0).0 is Array
            &&& (value_at(s)->Ok_0).0->element_type == element_type
            &&& element_type == 4 && len <= 1024 ==> (value_at(s)->Ok_0).0->values.len() == len
                && forall|i: int|
                0 <= i < len ==> #[trigger] (value_at(s)->Ok_0).0->values[i] == le32(
                    past(past(s, 16), (4 * i) as nat),
                )
            &&& len > 1024 ==> (value_at(s)->Ok_0).0->values.len() == 0
            &&& element_type == 8 ==> (value_at(s)->Ok_0).0->values.len() == 0
        }),
{
    let len = le64(past(s, 8));
    assert(0 <= len <= u64::MAX);
    law_items_stand_in_a_row(past(s, 16), len as nat);
}

proof fn lemma_entry_count(s: Seq<u8>, n: nat)
    ensures
        entries_at(s, n) matches Ok((row, _)) ==> row.len() == n,
    decreases n,
{
    if n > 0 {
        if let Ok((_, used)) = entry_at(s) {
            lemma_entry_count(past(s, used), (n - 1) as nat);
        }
    }
}

/// A file that can be read begins with the mark of the format and one of the two versions, and
/// has as many entries as it says.
pub proof fn law_readable_files(s: Seq<u8>)
    ensures
        entries_of(s) matches Ok(entries) ==> {
            &&& s.len() >= 24
            &&& s[0] == 'G' as u8 && s[1] == 'G' as u8 && s[2] == 'U' as u8 && s[3] == 'F' as u8
            &&& le32(past(s, 4)) == 2 || le32(past(s, 4)) == 3
            &&& entries.len() == le64(past(s, 16)) <= MAX_METADATA_ENTRIES
        },
        s.len() >= 4 && (s[0] != 'G' as u8 || s[3] != 'F' as u8) ==> metadata_of(s) == Err::<
            GgufMetadata,
            GgufError,
        >(GgufError::NotGguf),
        s.len() < 4 ==> metadata_of(s) == Err::<GgufMetadata, GgufError>(GgufError::Truncated),
{
    if s.len() >= 4 {
        let mark = seq![0x47u8, 0x47, 0x55, 0x46];
        assert(mark[0] == 0x47 && mark[1] == 0x47 && mark[2] == 0x55 && mark[3] == 0x46);
        let front = s.take(4);
        assert(front[0] == s[0] && front[1] == s[1] && front[2] == s[2] && front[3] == s[3]);
    }
    if entries_of(s) is Ok {
        let count = le64(past(s, 16));
        lemma_entry_count(past(s, 24), count as nat);
    }
}

/// Of several entries with one key the last counts, and other entries do not matter.
pub proof fn law_last_entry_counts(
    entries: Seq<(Seq<char>, GgufDatum)>,
    key: Seq<char>,
    other: Seq<char>,
    value: GgufDatum,
)
    ensures
        lookup(entries.push((key, value)), key) == Some(value),
        other != key ==> lookup(entries.push((other, value)), key) == lookup(entries, key),
        lookup(Seq::empty(), key) is None,
{
    assert(entries.push((key, value)).drop_last() =~= entries);
    assert(entries.push((other, value)).drop_last() =~= entries);
}

/// Each size is the number under its own name below the file's architecture; without an
/// architecture there is none.
pub proof fn law_sizes_stand_under_their_names(
    entries: Seq<(Seq<char>, GgufDatum)>,
    arch: Seq<char>,
    n: usize,
)
    requires
        lookup(entries, "general.architecture"@) == Some(GgufDatum::Text(arch)),
    ensures
        ({
            let m = metadata_in(entries);
            let value = Some(GgufDatum::Uint(n as u64));
            &&& lookup(entries, arch + ".context_length"@) == value ==> m.context_length == Some(n)
            &&& lookup(entries, arch + ".context_length"@) is None ==> m.context_length is None
            &&& lookup(entries, arch + ".block_count"@) == value ==> m.block_count == Some(n)
            &&& lookup(entries, arch + ".block_count"@) is None ==> m.block_count is None
            &&& lookup(entries, arch + ".attention.head_count"@) == value ==> m.head_count == Some(n)
            &&& lookup(entries, arch + ".attention.head_count"@) is None ==> m.head_count is None
            &&& lookup(entries, arch + ".attention.head_count_kv"@) == value ==> m.head_count_kv
                == Some(n)
            &&& lookup(entries, arch + ".attention.head_count_kv"@) is None ==> m.head_count_kv
                == m.head_count
            &&& lookup(entries, arch + ".attention.key_length"@) == value ==> m.key_head_dim
                == Some(n)
            &&& lookup(entries, arch + ".attention.value_length"@) == value ==> m.value_head_dim
                == Some(n)
        }),
{
    lemma_names_below(arch);
}

/// The size of a head that a file does not give is the share of each head in the embedding: all
/// the heads together have no more than the embedding, and with one more each they would have.
pub proof fn law_heads_share_the_embedding(
    entries: Seq<(Seq<char>, GgufDatum)>,
    arch: Seq<char>,
    embedding: usize,
    heads: usize,
)
    requires
        lookup(entries, "general.architecture"@) == Some(GgufDatum::Text(arch)),
        lookup(entries, arch + ".embedding_length"@) == Some(GgufDatum::Uint(embedding as u64)),
        lookup(entries, arch + ".attention.head_count"@) == Some(GgufDatum::Uint(heads as u64)),
        lookup(entries, arch + ".attention.key_length"@) is None,
        lookup(entries, arch + ".attention.value_length"@) is None,
    ensures
        ({
            let m = metadata_in(entries);
            &&& m.key_head_dim == m.value_head_dim
            &&& heads == 0 ==> m.key_head_dim is None
            &&& heads > 0 ==> m.key_head_dim is Some && m.key_head_dim->0 * heads <= embedding < (
            m.key_head_dim->0 + 1) * heads
        }),
{
    lemma_names_below(arch);
    if heads > 0 {
        let d = embedding / heads;
        assert(d * heads <= embedding < (d + 1) * heads) by (nonlinear_arith)
            requires
                heads > 0,
                d == embedding / heads,
        ;
    }
}

proof fn lemma_names_below(arch: Seq<char>)
    ensures
        arch + ".context_length"@ == arch + "."@ + "context_length"@,
        arch + ".block_count"@ == arch + "."@ + "block_count"@,
        arch + ".embedding_length"@ == arch + "."@ + "embedding_length"@,
        arch + ".attention.head_count"@ == arch + "."@ + "attention.head_count"@,
        arch + ".attention.head_count_kv"@ == arch + "."@ + "attention.head_count_kv"@,
        arch + ".attention.key_length"@ == arch + "."@ + "attention.key_length"@,
        arch + ".attention.value_length"@ == arch + "."@ + "attention.value_length"@,
{
    reveal_strlit(".");
    reveal_strlit(".context_length");
    reveal_strlit("context_length");
    assert(arch + ".context_length"@ =~= arch + "."@ + "context_length"@);
    reveal_strlit(".block_count");
    reveal_strlit("block_count");
    assert(arch + ".block_count"@ =~= arch + "."@ + "block_count"@);
    reveal_strlit(".embedding_length");
    reveal_strlit("embedding_length");
    assert(arch + ".embedding_length"@ =~= arch + "."@ + "embedding_length"@);
    reveal_strlit(".attention.head_count");
    reveal_strlit("attention.head_count");
    assert(arch + ".attention.head_count"@ =~= arch + "."@ + "attention.head_count"@);
    reveal_strlit(".attention.head_count_kv");
    reveal_strlit("attention.head_count_kv");
    assert(arch + ".attention.head_count_kv"@ =~= arch + "."@ + "attention.head_count_kv"@);
    reveal_strlit(".attention.key_length");
    reveal_strlit("attention.key_length");
    assert(arch + ".attention.key_length"@ =~= arch + "."@ + "attention.key_length"@);
    reveal_strlit(".attention.value_length");
    reveal_strlit("attention.value_length");
    assert(arch + ".attention.value_length"@ =~= arch + "."@ + "attention.value_length"@);
}

/// Integers that are not negative stand for themselves, and negative ones, texts, arrays and
/// floating-point numbers for no number.
pub proof fn law_values_as_numbers(v: GgufDatum, n: u64)
    ensures
        v.number() == Some(n) ==> v == GgufDatum::Uint(n) || v == GgufDatum::Int(n as i64)
            || v is Bool,
        GgufDatum::Uint(n).number() == Some(n),
        v matches GgufDatum::Int(i) ==> (i >= 0 <==> v.number() is Some) && (i >= 0 ==> v.number()->0
            == i),
        GgufDatum::Bool(true).number() == Some(1u64),
        GgufDatum::Bool(false).number() == Some(0u64),
        v is Text || v is Array || v is Float32 || v is Float64 ==> v.number() is None,
        v is Text <==> v.text() is Some,
        v matches GgufDatum::Text(t) ==> v.text() == Some(t),
{
}

} // verus!
