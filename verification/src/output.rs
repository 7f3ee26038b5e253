//! The primitive writer: scalars, length-prefixed strings, and the pool that
//! turns a repeated string into a two-byte reference.

use crate::error::ConversionError;
use crate::wire::append_bytes;
use crate::wire::be16;
use crate::wire::be32;
use crate::wire::be64;
use crate::wire::u16_be_bytes;
use crate::wire::u32_be_bytes;
use crate::wire::u64_be_bytes;
use vstd::hash_map::StringHashMap;
use vstd::prelude::*;
use vstd::string::StringExecFns;
use vstd::utf8::encode_utf8;

verus! {

/// The number of distinct strings that one stream can intern. Their indices
/// run from 0; 65535 is not one of them, it announces a string that follows.
pub const MAX_POOL_ENTRIES: usize = 65534;

/// The short that stands where a pool index would, before a string that the
/// pool does not hold yet.
pub const NEW_ENTRY: u16 = 0xFFFF;

/// What a stream is, seen from outside: the bytes written so far, and the
/// strings interned so far, in the order in which they first came.
#[verifier::ext_equal]
pub struct Stream {
    pub bytes: Seq<u8>,
    pub pool: Seq<Seq<char>>,
}

/// A stream together with the fate of the writes made to it. Writes chain:
/// once one has failed, those that follow change nothing.
#[verifier::ext_equal]
pub struct Written {
    pub stream: Stream,
    pub result: Result<(), ConversionError>,
}

impl Stream {
    /// The start of a chain of writes to this stream.
    pub open spec fn begin(self) -> Written {
        Written { stream: self, result: Ok(()) }
    }
}

impl Written {
    /// A failed chain: the stream as it stands, and the failure.
    pub open spec fn fail(self, error: ConversionError) -> Written {
        if self.result is Ok {
            Written { stream: self.stream, result: Err(error) }
        } else {
            self
        }
    }

    /// Bytes appended as they are.
    pub open spec fn raw(self, data: Seq<u8>) -> Written {
        if self.result is Ok {
            Written {
                stream: Stream { bytes: self.stream.bytes + data, pool: self.stream.pool },
                result: self.result,
            }
        } else {
            self
        }
    }

    /// One byte.
    pub open spec fn byte(self, value: u8) -> Written {
        self.raw(seq![value])
    }

    /// A 16-bit unsigned integer.
    pub open spec fn short(self, value: u16) -> Written {
        self.raw(be16(value))
    }

    /// A 32-bit signed integer, in two's complement.
    pub open spec fn int32(self, value: i32) -> Written {
        self.raw(be32(value as u32))
    }

    /// A 64-bit signed integer, in two's complement.
    pub open spec fn int64(self, value: i64) -> Written {
        self.raw(be64(value as u64))
    }

    /// An IEEE-754 single, given by its bits.
    pub open spec fn float_bits(self, bits: u32) -> Written {
        self.raw(be32(bits))
    }

    /// An IEEE-754 double, given by its bits.
    pub open spec fn double_bits(self, bits: u64) -> Written {
        self.raw(be64(bits))
    }

    /// A string as its UTF-8 bytes behind their count. A string of more than
    /// 65535 bytes fails, and nothing of it is written.
    pub open spec fn utf(self, text: Seq<char>) -> Written {
        let payload = encode_utf8(text);
        if payload.len() > FastDataOutput::MAX_UNSIGNED_SHORT {
            self.fail(
                ConversionError::StringTooLong(
                    payload.len() as usize,
                    FastDataOutput::MAX_UNSIGNED_SHORT as usize,
                ),
            )
        } else {
            self.short(payload.len() as u16).raw(payload)
        }
    }

    /// A string through the pool. One that the pool holds becomes its index.
    /// One that it does not hold is announced and written out, and joins the
    /// pool at the next index. A new string that is too long fails behind its
    /// announcement, whatever the pool holds; a new string that fits, but
    /// finds the pool full, fails before anything is written.
    pub open spec fn interned(self, text: Seq<char>) -> Written {
        if self.result is Err {
            self
        } else if self.stream.pool.contains(text) {
            self.short(self.stream.pool.index_of(text) as u16)
        } else if encode_utf8(text).len() > FastDataOutput::MAX_UNSIGNED_SHORT {
            self.short(NEW_ENTRY).utf(text)
        } else if self.stream.pool.len() >= MAX_POOL_ENTRIES {
            self.fail(ConversionError::StringPoolFull(MAX_POOL_ENTRIES))
        } else {
            let literal = self.short(NEW_ENTRY).utf(text);
            Written {
                stream: Stream { bytes: literal.stream.bytes, pool: self.stream.pool.push(text) },
                result: literal.result,
            }
        }
    }
}

/// A byte sink with a string pool.
pub struct FastDataOutput {
    writer: Vec<u8>,
    string_pool: StringHashMap<u16>,
    interned_strings: Vec<String>,
}

impl View for FastDataOutput {
    type V = Stream;

    closed spec fn view(&self) -> Stream {
        Stream { bytes: self.writer@, pool: self.interned_strings@.map_values(|s: String| s@) }
    }
}

impl FastDataOutput {
    /// The longest string or blob that one length prefix can announce, in
    /// bytes.
    pub const MAX_UNSIGNED_SHORT: u16 = 65535;

    /// The table finds exactly the strings of the pool, each at its index.
    pub closed spec fn wf(&self) -> bool {
        &&& self.interned_strings.len() <= MAX_POOL_ENTRIES
        &&& forall|i: int|
            0 <= i < self.interned_strings.len() ==> {
                &&& self.string_pool@.contains_key(#[trigger] self.interned_strings[i]@)
                &&& self.string_pool@[self.interned_strings[i]@] == i
            }
        &&& forall|s: Seq<char>|
            self.string_pool@.contains_key(s) ==> {
                &&& (#[trigger] self.string_pool@[s]) < self.interned_strings.len()
                &&& self.interned_strings[self.string_pool@[s] as int]@ == s
            }
    }

    /// In a well-formed stream no string is interned twice, and the pool is
    /// within its limit.
    pub proof fn lemma_pool_is_sound(&self)
        requires
            self.wf(),
        ensures
            self@.pool.no_duplicates(),
            self@.pool.len() <= MAX_POOL_ENTRIES,
    {
    }

    /// A stream that appends to `writer`, with an empty pool.
    pub fn new(writer: Vec<u8>) -> (out: Self)
        ensures
            out.wf(),
            out@ == (Stream { bytes: writer@, pool: Seq::empty() }),
    {
        let out = FastDataOutput {
            writer,
            string_pool: StringHashMap::new(),
            interned_strings: Vec::new(),
        };
        out
    }

    /// The bytes written so far.
    pub fn as_bytes(&self) -> (bytes: &Vec<u8>)
        ensures
            bytes@ == self@.bytes,
    {
        &self.writer
    }

    /// Gives the bytes back.
    pub fn into_inner(self) -> (bytes: Vec<u8>)
        ensures
            bytes@ == self@.bytes,
    {
        self.writer
    }

    /// Writes one byte.
    pub fn write_byte(&mut self, value: u8) -> (res: Result<(), ConversionError>)
        requires
            old(self).wf(),
        ensures
            final(self).wf(),
            (Written { stream: final(self)@, result: res }) == old(self)@.begin().byte(value),
    {
        self.writer.push(value);
        Ok(())
    }

    /// Writes a 16-bit unsigned integer, most significant byte first.
    pub fn write_short(&mut self, value: u16) -> (res: Result<(), ConversionError>)
        requires
            old(self).wf(),
        ensures
            final(self).wf(),
            (Written { stream: final(self)@, result: res }) == old(self)@.begin().short(value),
    {
        let bytes = u16_be_bytes(value);
        append_bytes(&mut self.writer, bytes.as_slice());
        Ok(())
    }

    /// Writes a 32-bit signed integer, most significant byte first.
    pub fn write_int(&mut self, value: i32) -> (res: Result<(), ConversionError>)
        requires
            old(self).wf(),
        ensures
            final(self).wf(),
            (Written { stream: final(self)@, result: res }) == old(self)@.begin().int32(value),
    {
        let bytes = u32_be_bytes(value as u32);
        append_bytes(&mut self.writer, bytes.as_slice());
        Ok(())
    }

    /// Writes a 64-bit signed integer, most significant byte first.
    pub fn write_long(&mut self, value: i64) -> (res: Result<(), ConversionError>)
        requires
            old(self).wf(),
        ensures
            final(self).wf(),
            (Written { stream: final(self)@, result: res }) == old(self)@.begin().int64(value),
    {
        let bytes = u64_be_bytes(value as u64);
        append_bytes(&mut self.writer, bytes.as_slice());
        Ok(())
    }

    /// Writes the single whose IEEE-754 bits are `bits`.
    pub fn write_float(&mut self, bits: u32) -> (res: Result<(), ConversionError>)
        requires
            old(self).wf(),
        ensures
            final(self).wf(),
            (Written { stream: final(self)@, result: res }) == old(self)@.begin().float_bits(bits),
    {
        let bytes = u32_be_bytes(bits);
        append_bytes(&mut self.writer, bytes.as_slice());
        Ok(())
    }

    /// Writes the double whose IEEE-754 bits are `bits`.
    pub fn write_double(&mut self, bits: u64) -> (res: Result<(), ConversionError>)
        requires
            old(self).wf(),
        ensures
            final(self).wf(),
            (Written { stream: final(self)@, result: res }) == old(self)@.begin().double_bits(bits),
    {
        let bytes = u64_be_bytes(bits);
        append_bytes(&mut self.writer, bytes.as_slice());
        Ok(())
    }

    /// The body of `write_utf`, on the bytes alone.
    fn put_utf(writer: &mut Vec<u8>, s: &str) -> (res: Result<(), ConversionError>)
        ensures
            (Written { stream: Stream { bytes: final(writer)@, pool: Seq::empty() }, result: res })
                == (Stream { bytes: old(writer)@, pool: Seq::empty() }).begin().utf(s@),
    {
        let bytes = s.as_bytes();
        if bytes.len() > Self::MAX_UNSIGNED_SHORT as usize {
            return Err(
                ConversionError::StringTooLong(bytes.len(), Self::MAX_UNSIGNED_SHORT as usize),
            );
        }
        let prefix = u16_be_bytes(bytes.len() as u16);
        append_bytes(writer, prefix.as_slice());
        append_bytes(writer, bytes);
        Ok(())
    }

    /// Writes a string: the count of its UTF-8 bytes as a short, and the
    /// bytes. A string of more than 65535 bytes is refused, and nothing is
    /// written.
    pub fn write_utf(&mut self, s: &str) -> (res: Result<(), ConversionError>)
        requires
            old(self).wf(),
        ensures
            final(self).wf(),
            (Written { stream: final(self)@, result: res }) == old(self)@.begin().utf(s@),
    {
        Self::put_utf(&mut self.writer, s)
    }

    /// Writes a string through the pool. A string that the pool holds is
    /// written as its index. Any other is written as the short 65535 and the
    /// string itself, and joins the pool at the next index. A new string that
    /// is too long is refused behind the short that announces it, whatever
    /// the pool holds; a new string that fits is refused where the pool is
    /// full, and nothing is written.
    pub fn write_interned_utf(&mut self, s: &str) -> (res: Result<(), ConversionError>)
        requires
            old(self).wf(),
        ensures
            final(self).wf(),
            (Written { stream: final(self)@, result: res }) == old(self)@.begin().interned(s@),
    {
        match self.string_pool.get(s) {
            Some(index) => {
                let index: u16 = *index;
                assert(self@.pool[index as int] == s@);
                self.write_short(index)
            },
            None => {
                assert(!self@.pool.contains(s@)) by {
                    if self@.pool.contains(s@) {
                        let i = choose|i: int| 0 <= i < self@.pool.len() && self@.pool[i] == s@;
                        assert(self.string_pool@.contains_key(self.interned_strings[i]@));
                    }
                }
                let fits = s.as_bytes().len() <= Self::MAX_UNSIGNED_SHORT as usize;
                if fits && self.interned_strings.len() >= MAX_POOL_ENTRIES {
                    return Err(ConversionError::StringPoolFull(MAX_POOL_ENTRIES));
                }
                let announcement = u16_be_bytes(NEW_ENTRY);
                append_bytes(&mut self.writer, announcement.as_slice());
                Self::put_utf(&mut self.writer, s)?;
                let index: u16 = self.interned_strings.len() as u16;
                self.string_pool.insert(String::from_str(s), index);
                self.interned_strings.push(String::from_str(s));
                Ok(())
            },
        }
    }

    /// Writes bytes as they are.
    pub fn write_bytes(&mut self, data: &[u8]) -> (res: Result<(), ConversionError>)
        requires
            old(self).wf(),
        ensures
            final(self).wf(),
            (Written { stream: final(self)@, result: res }) == old(self)@.begin().raw(data@),
    {
        append_bytes(&mut self.writer, data);
        Ok(())
    }

    /// Nothing is held back between a write and the sink, so nothing is left
    /// to push out.
    pub fn flush(&mut self) -> (res: Result<(), ConversionError>)
        requires
            old(self).wf(),
        ensures
            final(self).wf(),
            (Written { stream: final(self)@, result: res }) == old(self)@.begin(),
    {
        Ok(())
    }
}

} // verus!
