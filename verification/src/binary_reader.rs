use vstd::prelude::*;

use vstd::string::StringSliceAdditionalSpecFns;

use crate::error::DcxError;

verus! {

/// What a byte sequence decodes to as UTF-8 text: `Some` of the characters
/// exactly when the bytes are valid UTF-8, `None` otherwise. A function of
/// the bytes alone.
pub uninterp spec fn utf8_decoding_of(b: Seq<u8>) -> Option<Seq<char>>;

/// Relies on String::from_utf8: whether a byte sequence is valid UTF-8 and
/// what it decodes to are functions of the bytes alone, and bytes in the
/// ASCII range are always valid UTF-8, decoding to one character per byte.
#[verifier::external_body]
fn decode_utf8(bytes: Vec<u8>) -> (r: Result<String, DcxError>)
    ensures
        r is Ok <==> utf8_decoding_of(bytes@) is Some,
        r is Ok ==> r.unwrap()@ == utf8_decoding_of(bytes@).unwrap(),
        r is Err ==> r->Err_0 == DcxError::FieldValidation,
        all_ascii(bytes@) ==> r is Ok && r.unwrap()@ == ascii_chars(bytes@),
{
    match String::from_utf8(bytes) {
        Ok(s) => Ok(s),
        Err(_) => Err(DcxError::FieldValidation),
    }
}

/// The unsigned value of the four bytes starting at `i`, big-endian.
pub open spec fn be_u32_at(m: Seq<u8>, i: int) -> int {
    (m[i] as int) * 0x1000000 + (m[i + 1] as int) * 0x10000 + (m[i + 2] as int) * 0x100 + (m[i
        + 3] as int)
}

/// The unsigned value of the four bytes starting at `i`, little-endian.
pub open spec fn le_u32_at(m: Seq<u8>, i: int) -> int {
    (m[i + 3] as int) * 0x1000000 + (m[i + 2] as int) * 0x10000 + (m[i + 1] as int) * 0x100 + (
    m[i] as int)
}

/// The two's-complement signed reading of an unsigned 32-bit value.
pub open spec fn as_signed_32(u: int) -> int {
    if u >= 0x80000000 {
        u - 0x100000000
    } else {
        u
    }
}

/// The signed 32-bit value of the four bytes at `i` under the given endianness.
pub open spec fn i32_at(m: Seq<u8>, i: int, big_endian: bool) -> int {
    if big_endian {
        as_signed_32(be_u32_at(m, i))
    } else {
        as_signed_32(le_u32_at(m, i))
    }
}

/// The four bytes starting at `i` are exactly `a`, `b`, `c`, `d`.
pub open spec fn tag_at(m: Seq<u8>, i: int, a: u8, b: u8, c: u8, d: u8) -> bool {
    m[i] == a && m[i + 1] == b && m[i + 2] == c && m[i + 3] == d
}

/// The first failure of two checks, if either fails.
pub open spec fn also(a: Option<DcxError>, b: Option<DcxError>) -> Option<DcxError> {
    if a is Some {
        a
    } else {
        b
    }
}

/// How reading a fixed four-byte tag at `p` fails, if it does: the read runs
/// out of bounds, or the bytes are not the expected tag.
pub open spec fn tag_err(m: Seq<u8>, p: int, a: u8, b: u8, c: u8, d: u8) -> Option<DcxError> {
    if p + 4 > m.len() {
        Some(DcxError::OutOfBounds)
    } else if !tag_at(m, p, a, b, c, d) {
        Some(DcxError::FieldValidation)
    } else {
        None
    }
}

/// How reading a fixed big-endian 32-bit field at `p` fails, if it does.
pub open spec fn i32_err(m: Seq<u8>, p: int, v: int) -> Option<DcxError> {
    if p + 4 > m.len() {
        Some(DcxError::OutOfBounds)
    } else if i32_at(m, p, true) != v {
        Some(DcxError::FieldValidation)
    } else {
        None
    }
}

/// How reading a fixed byte at `p` fails, if it does.
pub open spec fn byte_err(m: Seq<u8>, p: int, v: u8) -> Option<DcxError> {
    if p + 1 > m.len() {
        Some(DcxError::OutOfBounds)
    } else if m[p] != v {
        Some(DcxError::FieldValidation)
    } else {
        None
    }
}

/// The failure of a plain read that needs the buffer to reach at least `n`.
pub open spec fn bounds_err(m: Seq<u8>, n: int) -> Option<DcxError> {
    if n > m.len() {
        Some(DcxError::OutOfBounds)
    } else {
        None
    }
}

/// Every byte of `b` is in the ASCII range.
pub open spec fn all_ascii(b: Seq<u8>) -> bool {
    forall|i: int| 0 <= i < b.len() ==> b[i] < 0x80
}

/// The characters that a sequence of ASCII bytes decodes to.
pub open spec fn ascii_chars(b: Seq<u8>) -> Seq<char> {
    b.map_values(|x: u8| x as char)
}

/// A seekable, endian-aware view over an in-memory byte buffer with a
/// save/restore position stack and strict bounds-checked typed reads.
///
/// The buffer itself is never mutated by reads; only the position and the
/// position stack move. Multi-byte integers are read under the current
/// `big_endian` flag, which may be toggled at any time.
pub struct BinaryReader {
    pub big_endian: bool,
    pub steps: Vec<usize>,
    pub memory: Vec<u8>,
    pub position: usize,
}

impl BinaryReader {
    /// The reader starts at position 0 with an empty position stack.
    pub fn new(big_endian: bool, bytes: Vec<u8>) -> (r: BinaryReader)
        ensures
            r.big_endian == big_endian,
            r.memory@ == bytes@,
            r.position == 0,
            r.steps@.len() == 0,
    {
        BinaryReader { big_endian, steps: Vec::new(), memory: bytes, position: 0 }
    }

    /// The total length of the underlying buffer.
    pub fn len(&mut self) -> (r: usize)
        ensures
            *final(self) == *old(self),
            r == old(self).memory@.len(),
    {
        self.memory.len()
    }

    /// Advances the position by `length`; fails without moving if that would
    /// leave the end of the buffer behind.
    pub fn skip(&mut self, length: usize) -> (r: Result<(), DcxError>)
        ensures
            final(self).big_endian == old(self).big_endian,
            final(self).memory@ == old(self).memory@,
            final(self).steps@ == old(self).steps@,
            if old(self).position + length <= old(self).memory@.len() {
                r == Ok::<(), DcxError>(()) && final(self).position == old(self).position + length
            } else {
                r == Err::<(), DcxError>(DcxError::OutOfBounds) && final(self).position == old(self).position
            },
    {
        if self.position <= self.memory.len() && length <= self.memory.len() - self.position {
            self.position = self.position + length;
            Ok(())
        } else {
            Err(DcxError::OutOfBounds)
        }
    }

    /// Jumps to `offset`, lets `read_func` read there, and restores the
    /// saved position: "read a field at absolute offset X, then resume
    /// where I was". The caller's function must be callable on any reader
    /// state.
    pub fn get_value<T, F: FnOnce(&mut BinaryReader) -> T>(
        &mut self,
        offset: usize,
        read_func: F,
    ) -> (result: T)
        requires
            forall|s: &mut BinaryReader| #[trigger] call_requires(read_func, (s,)),
            forall|s: &mut BinaryReader, t: T|
                #[trigger] call_ensures(read_func, (s,), t) ==> mut_ref_future(s).big_endian
                    == mut_ref_current(s).big_endian && mut_ref_future(s).memory@
                    == mut_ref_current(s).memory@ && mut_ref_future(s).steps@ == mut_ref_current(
                    s,
                ).steps@,
        ensures
            final(self).big_endian == old(self).big_endian,
            final(self).memory@ == old(self).memory@,
            final(self).steps@ == old(self).steps@,
            final(self).position == old(self).position,
            exists|s: &mut BinaryReader|
                #[trigger] call_ensures(read_func, (s,), result) && mut_ref_current(s).position
                    == offset && mut_ref_current(s).memory@ == old(self).memory@
                    && mut_ref_current(s).big_endian == old(self).big_endian,
    {
        self.step_in(offset);
        let result = read_func(self);
        let _ = self.step_out();
        assert(self.steps@ =~= old(self).steps@);
        result
    }

    /// Saves the current position on the stack and jumps to `offset`.
    pub fn step_in(&mut self, offset: usize)
        ensures
            final(self).big_endian == old(self).big_endian,
            final(self).memory@ == old(self).memory@,
            final(self).position == offset,
            final(self).steps@ == old(self).steps@.push(old(self).position),
    {
        self.steps.push(self.position);
        self.position = offset;
    }

    /// Restores the most recently saved position; fails if the stack is empty.
    pub fn step_out(&mut self) -> (r: Result<(), DcxError>)
        ensures
            final(self).big_endian == old(self).big_endian,
            final(self).memory@ == old(self).memory@,
            if old(self).steps@.len() > 0 {
                r == Ok::<(), DcxError>(()) && final(self).position == old(self).steps@.last()
                    && final(self).steps@ == old(self).steps@.drop_last()
            } else {
                r == Err::<(), DcxError>(DcxError::CursorStackUnderflow) && *final(self) == *old(self)
            },
    {
        if self.steps.len() == 0 {
            return Err(DcxError::CursorStackUnderflow);
        }
        match self.steps.pop() {
            Some(p) => {
                self.position = p;
                Ok(())
            },
            None => Err(DcxError::CursorStackUnderflow),
        }
    }

    /// Reads one byte at the current position and advances past it.
    pub fn read_byte(&mut self) -> (r: Result<u8, DcxError>)
        ensures
            final(self).big_endian == old(self).big_endian,
            final(self).memory@ == old(self).memory@,
            final(self).steps@ == old(self).steps@,
            if old(self).position + 1 <= old(self).memory@.len() {
                r == Ok::<u8, DcxError>(old(self).memory@[old(self).position as int]) && final(self).position == old(self).position + 1
            } else {
                r == Err::<u8, DcxError>(DcxError::OutOfBounds) && final(self).position == old(self).position
            },
    {
        if self.position < self.memory.len() {
            let b = self.memory[self.position];
            self.position = self.position + 1;
            Ok(b)
        } else {
            Err(DcxError::OutOfBounds)
        }
    }

    /// Reads a byte at an absolute offset without touching the position or
    /// the stack.
    pub fn get_byte(&mut self, offset: usize) -> (r: Result<u8, DcxError>)
        ensures
            *final(self) == *old(self),
            if offset < old(self).memory@.len() {
                r == Ok::<u8, DcxError>(old(self).memory@[offset as int])
            } else {
                r == Err::<u8, DcxError>(DcxError::OutOfBounds)
            },
    {
        if offset < self.memory.len() {
            Ok(self.memory[offset])
        } else {
            Err(DcxError::OutOfBounds)
        }
    }

    /// Reads `count` bytes at the current position and advances past them.
    pub fn read_bytes(&mut self, count: usize) -> (r: Result<Vec<u8>, DcxError>)
        ensures
            final(self).big_endian == old(self).big_endian,
            final(self).memory@ == old(self).memory@,
            final(self).steps@ == old(self).steps@,
            if old(self).position + count <= old(self).memory@.len() {
                r is Ok && r.unwrap()@ == old(self).memory@.subrange(
                    old(self).position as int,
                    old(self).position + count,
                ) && final(self).position == old(self).position + count
            } else {
                r == Err::<Vec<u8>, DcxError>(DcxError::OutOfBounds) && final(self).position == old(self).position
            },
    {
        if self.position <= self.memory.len() && count <= self.memory.len() - self.position {
            let total: usize = self.memory.len();
            let mut out: Vec<u8> = Vec::new();
            let mut k: usize = 0;
            while k < count
                invariant
                    self.memory@.len() == total,
                    self.position + count <= self.memory@.len(),
                    k <= count,
                    out@ == self.memory@.subrange(self.position as int, self.position + k),
                decreases count - k,
            {
                out.push(self.memory[self.position + k]);
                k = k + 1;
                assert(out@ =~= self.memory@.subrange(self.position as int, self.position + k));
            }
            self.position = self.position + count;
            Ok(out)
        } else {
            Err(DcxError::OutOfBounds)
        }
    }

    /// Reads `length` bytes at an absolute offset without touching the
    /// position or the stack.
    pub fn get_bytes(&mut self, offset: usize, length: usize) -> (r: Result<Vec<u8>, DcxError>)
        ensures
            *final(self) == *old(self),
            if offset + length <= old(self).memory@.len() {
                r is Ok && r.unwrap()@ == old(self).memory@.subrange(
                    offset as int,
                    offset + length,
                )
            } else {
                r == Err::<Vec<u8>, DcxError>(DcxError::OutOfBounds)
            },
    {
        if offset <= self.memory.len() && length <= self.memory.len() - offset {
            let total: usize = self.memory.len();
            let mut out: Vec<u8> = Vec::new();
            let mut k: usize = 0;
            while k < length
                invariant
                    self.memory@.len() == total,
                    offset + length <= self.memory@.len(),
                    k <= length,
                    out@ == self.memory@.subrange(offset as int, offset + k),
                decreases length - k,
            {
                out.push(self.memory[offset + k]);
                k = k + 1;
                assert(out@ =~= self.memory@.subrange(offset as int, offset + k));
            }
            Ok(out)
        } else {
            Err(DcxError::OutOfBounds)
        }
    }

    /// Reads a 32-bit integer at the current position under the current
    /// endianness and advances past it.
    pub fn read_i32(&mut self) -> (r: Result<i32, DcxError>)
        ensures
            final(self).big_endian == old(self).big_endian,
            final(self).memory@ == old(self).memory@,
            final(self).steps@ == old(self).steps@,
            if old(self).position + 4 <= old(self).memory@.len() {
                r is Ok && r.unwrap() as int == i32_at(
                    old(self).memory@,
                    old(self).position as int,
                    old(self).big_endian,
                ) && final(self).position == old(self).position + 4
            } else {
                r == Err::<i32, DcxError>(DcxError::OutOfBounds) && final(self).position == old(self).position
            },
    {
        if self.position <= self.memory.len() && 4 <= self.memory.len() - self.position {
            let b0 = self.memory[self.position];
            let b1 = self.memory[self.position + 1];
            let b2 = self.memory[self.position + 2];
            let b3 = self.memory[self.position + 3];
            self.position = self.position + 4;
            let u: u32 = if self.big_endian {
                (b0 as u32) * 0x1000000 + (b1 as u32) * 0x10000 + (b2 as u32) * 0x100 + (b3 as u32)
            } else {
                (b3 as u32) * 0x1000000 + (b2 as u32) * 0x10000 + (b1 as u32) * 0x100 + (b0 as u32)
            };
            let r: i32 = if u >= 0x80000000 {
                ((u as i64) - 0x100000000i64) as i32
            } else {
                u as i32
            };
            Ok(r)
        } else {
            Err(DcxError::OutOfBounds)
        }
    }

    /// Reads a 32-bit integer at an absolute offset without touching the
    /// position or the stack.
    pub fn get_i32(&mut self, offset: usize) -> (r: Result<i32, DcxError>)
        ensures
            final(self).big_endian == old(self).big_endian,
            final(self).memory@ == old(self).memory@,
            final(self).steps@ == old(self).steps@,
            final(self).position == old(self).position,
            if offset + 4 <= old(self).memory@.len() {
                r is Ok && r.unwrap() as int == i32_at(
                    old(self).memory@,
                    offset as int,
                    old(self).big_endian,
                )
            } else {
                r == Err::<i32, DcxError>(DcxError::OutOfBounds)
            },
    {
        self.step_in(offset);
        let r = self.read_i32();
        match self.step_out() {
            Ok(()) => {},
            Err(_) => {},
        }
        assert(self.steps@ =~= old(self).steps@);
        r
    }

    /// Reads `length` bytes at the current position, decoded as UTF-8 text,
    /// and advances past them. Bytes that are not valid UTF-8 are a
    /// field-validation failure; a span of ASCII bytes always decodes, to
    /// one character per byte.
    pub fn read_ascii(&mut self, length: usize) -> (r: Result<String, DcxError>)
        ensures
            final(self).big_endian == old(self).big_endian,
            final(self).memory@ == old(self).memory@,
            final(self).steps@ == old(self).steps@,
            if old(self).position + length <= old(self).memory@.len() {
                final(self).position == old(self).position + length && {
                    let span = old(self).memory@.subrange(
                        old(self).position as int,
                        old(self).position + length,
                    );
                    &&& match utf8_decoding_of(span) {
                        Some(text) => r is Ok && r.unwrap()@ == text,
                        None => r == Err::<String, DcxError>(DcxError::FieldValidation),
                    }
                    &&& all_ascii(span) ==> r is Ok && r.unwrap()@ == ascii_chars(span)
                }
            } else {
                r == Err::<String, DcxError>(DcxError::OutOfBounds) && final(self).position == old(
                    self,
                ).position
            },
    {
        let bytes = match self.read_bytes(length) {
            Ok(v) => v,
            Err(e) => {
                return Err(e);
            },
        };
        decode_utf8(bytes)
    }

    /// Reads `length` bytes at an absolute offset, decoded as UTF-8 text,
    /// without touching the position or the stack.
    pub fn get_ascii(&mut self, offset: usize, length: usize) -> (r: Result<String, DcxError>)
        ensures
            final(self).big_endian == old(self).big_endian,
            final(self).memory@ == old(self).memory@,
            final(self).steps@ == old(self).steps@,
            final(self).position == old(self).position,
            if offset + length <= old(self).memory@.len() {
                let span = old(self).memory@.subrange(offset as int, offset + length);
                &&& match utf8_decoding_of(span) {
                    Some(text) => r is Ok && r.unwrap()@ == text,
                    None => r == Err::<String, DcxError>(DcxError::FieldValidation),
                }
                &&& all_ascii(span) ==> r is Ok && r.unwrap()@ == ascii_chars(span)
            } else {
                r == Err::<String, DcxError>(DcxError::OutOfBounds)
            },
    {
        self.step_in(offset);
        let r = self.read_ascii(length);
        match self.step_out() {
            Ok(()) => {},
            Err(_) => {},
        }
        assert(self.steps@ =~= old(self).steps@);
        r
    }

    /// Reads as many bytes as the first candidate is long and demands that
    /// they spell one of the candidate ASCII strings, returning the matched
    /// one.
    #[verifier::loop_isolation(false)]
    pub fn assert_ascii(&mut self, values: &[&str]) -> (r: Result<String, DcxError>)
        requires
            values@.len() > 0,
            values@[0].spec_bytes().len() <= usize::MAX,
        ensures
            final(self).big_endian == old(self).big_endian,
            final(self).memory@ == old(self).memory@,
            final(self).steps@ == old(self).steps@,
            ({
                let want = values@[0].spec_bytes().len() as int;
                if old(self).position + want <= old(self).memory@.len() {
                    let span = old(self).memory@.subrange(
                        old(self).position as int,
                        old(self).position + want,
                    );
                    final(self).position == old(self).position + want && if (exists|j: int|
                        0 <= j < values@.len() && values@[j].spec_bytes() == span) {
                        r is Ok && (exists|j: int|
                            0 <= j < values@.len() && values@[j].spec_bytes() == span
                                && r.unwrap()@ == values@[j]@)
                    } else {
                        r == Err::<String, DcxError>(DcxError::FieldValidation)
                    }
                } else {
                    r == Err::<String, DcxError>(DcxError::OutOfBounds) && final(self).position
                        == old(self).position
                }
            }),
    {
        let want = values[0].len();
        let bytes = match self.read_bytes(want) {
            Ok(v) => v,
            Err(e) => {
                return Err(e);
            },
        };
        let mut j: usize = 0;
        while j < values.len()
            invariant
                j <= values@.len(),
                forall|q: int| 0 <= q < j ==> values@[q].spec_bytes() != bytes@,
            decreases values@.len() - j,
        {
            if Self::bytes_match(values[j].as_bytes(), &bytes) {
                return Ok(values[j].to_owned());
            }
            j = j + 1;
        }
        Err(DcxError::FieldValidation)
    }

    /// Whether a slice and a vector hold the same bytes.
    #[verifier::loop_isolation(false)]
    fn bytes_match(a: &[u8], b: &Vec<u8>) -> (r: bool)
        ensures
            r == (a@ == b@),
    {
        if a.len() != b.len() {
            return false;
        }
        let mut k: usize = 0;
        while k < a.len()
            invariant
                k <= a@.len(),
                a@.len() == b@.len(),
                forall|q: int| 0 <= q < k ==> a@[q] == b@[q],
            decreases a@.len() - k,
        {
            if a[k] != b[k] {
                return false;
            }
            k = k + 1;
        }
        assert(a@ =~= b@);
        true
    }

    #[verifier::loop_isolation(false)]
    /// Returns `value` unchanged when it is one of `options`; any other value
    /// is a field-validation failure. This is the validation primitive every
    /// fixed-field check of the container format is built from.
    pub fn assert_value(&mut self, value: i64, options: &[i64]) -> (r: Result<i64, DcxError>)
        ensures
            *final(self) == *old(self),
            if options@.contains(value) {
                r == Ok::<i64, DcxError>(value)
            } else {
                r == Err::<i64, DcxError>(DcxError::FieldValidation)
            },
    {
        let mut k: usize = 0;
        while k < options.len()
            invariant
                k <= options@.len(),
                forall|j: int| 0 <= j < k ==> options@[j] != value,
            decreases options@.len() - k,
        {
            if options[k] == value {
                return Ok(value);
            }
            k = k + 1;
        }
        Err(DcxError::FieldValidation)
    }

    #[verifier::loop_isolation(false)]
    /// Reads one byte and demands that it is one of `options`.
    pub fn assert_byte(&mut self, options: &[u8]) -> (r: Result<u8, DcxError>)
        ensures
            final(self).big_endian == old(self).big_endian,
            final(self).memory@ == old(self).memory@,
            final(self).steps@ == old(self).steps@,
            if old(self).position + 1 <= old(self).memory@.len() {
                final(self).position == old(self).position + 1 && if options@.contains(
                    old(self).memory@[old(self).position as int],
                ) {
                    r == Ok::<u8, DcxError>(old(self).memory@[old(self).position as int])
                } else {
                    r == Err::<u8, DcxError>(DcxError::FieldValidation)
                }
            } else {
                r == Err::<u8, DcxError>(DcxError::OutOfBounds) && final(self).position == old(self).position
            },
    {
        let value = match self.read_byte() {
            Ok(v) => v,
            Err(e) => {
                return Err(e);
            },
        };
        let mut k: usize = 0;
        while k < options.len()
            invariant
                k <= options@.len(),
                forall|j: int| 0 <= j < k ==> options@[j] != value,
            decreases options@.len() - k,
        {
            if options[k] == value {
                return Ok(value);
            }
            k = k + 1;
        }
        Err(DcxError::FieldValidation)
    }

    #[verifier::loop_isolation(false)]
    /// Reads a 32-bit integer and demands that it is one of `options`.
    pub fn assert_i32(&mut self, options: &[i32]) -> (r: Result<i32, DcxError>)
        ensures
            final(self).big_endian == old(self).big_endian,
            final(self).memory@ == old(self).memory@,
            final(self).steps@ == old(self).steps@,
            if old(self).position + 4 <= old(self).memory@.len() {
                final(self).position == old(self).position + 4 && if exists|j: int|
                    0 <= j < options@.len() && options@[j] as int == i32_at(
                        old(self).memory@,
                        old(self).position as int,
                        old(self).big_endian,
                    ) {
                    r is Ok && r.unwrap() as int == i32_at(
                        old(self).memory@,
                        old(self).position as int,
                        old(self).big_endian,
                    )
                } else {
                    r == Err::<i32, DcxError>(DcxError::FieldValidation)
                }
            } else {
                r == Err::<i32, DcxError>(DcxError::OutOfBounds) && final(self).position == old(self).position
            },
    {
        let value = match self.read_i32() {
            Ok(v) => v,
            Err(e) => {
                return Err(e);
            },
        };
        let mut k: usize = 0;
        while k < options.len()
            invariant
                k <= options@.len(),
                forall|j: int| 0 <= j < k ==> options@[j] != value,
            decreases options@.len() - k,
        {
            if options[k] == value {
                return Ok(value);
            }
            k = k + 1;
        }
        Err(DcxError::FieldValidation)
    }
}

} // verus!
