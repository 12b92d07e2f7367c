//! The six-byte wire form: reading an address out of a buffer and writing it
//! into one.

use vstd::prelude::*;
use crate::address::MacAddress;
use crate::error::MacParseError;

verus! {

/// Bytes of a buffer of length `len` that lie at or after `offset`; none when
/// `offset` is past the end.
pub open spec fn available(len: nat, offset: int) -> nat {
    if 0 <= offset <= len {
        (len - offset) as nat
    } else {
        0
    }
}

/// The error reported when only `avail` bytes are on hand.
pub open spec fn short_by(avail: nat) -> MacParseError {
    MacParseError::InvalidLength { expected: 6, actual: avail as usize }
}

/// What decoding at `offset` yields: the six octets found there, or the
/// length error when fewer than six bytes are available.
pub open spec fn decode_spec(buffer: Seq<u8>, offset: int) -> Result<Seq<u8>, MacParseError> {
    if available(buffer.len(), offset) < 6 {
        Err(short_by(available(buffer.len(), offset)))
    } else {
        Ok(buffer.subrange(offset, offset + 6))
    }
}

/// What encoding at `offset` leaves in the buffer: the six octets laid over
/// positions `offset..offset + 6`, everything else as before. A buffer with
/// fewer than six bytes available is left as it was.
pub open spec fn encode_spec(octets: Seq<u8>, buffer: Seq<u8>, offset: int) -> Seq<u8> {
    if available(buffer.len(), offset) < 6 {
        buffer
    } else {
        Seq::new(
            buffer.len(),
            |i: int|
                if offset <= i < offset + 6 {
                    octets[i - offset]
                } else {
                    buffer[i]
                },
        )
    }
}

impl MacAddress {
    /// Reads the six bytes at `offset` as an address.
    ///
    /// Fails, naming the number of bytes that were available, when fewer than
    /// six bytes lie at or after `offset`.
    pub fn decode(buffer: &[u8], offset: usize) -> (result: Result<MacAddress, MacParseError>)
        ensures
            match result {
                Ok(mac) => decode_spec(buffer@, offset as int) == Ok::<Seq<u8>, MacParseError>(mac@),
                Err(e) => decode_spec(buffer@, offset as int) == Err::<Seq<u8>, MacParseError>(e),
            },
    {
        let len = buffer.len();
        let avail: usize = if offset <= len {
            len - offset
        } else {
            0
        };
        if avail < 6 {
            return Err(MacParseError::InvalidLength { expected: 6, actual: avail });
        }
        let bytes: [u8; 6] = [
            buffer[offset],
            buffer[offset + 1],
            buffer[offset + 2],
            buffer[offset + 3],
            buffer[offset + 4],
            buffer[offset + 5],
        ];
        let mac = MacAddress::from_octets(bytes);
        assert(mac@ =~= buffer@.subrange(offset as int, offset + 6));
        Ok(mac)
    }

    /// Writes the six octets into `buffer` at `offset` and returns the number
    /// of bytes written, which is six.
    ///
    /// Fails, leaving the buffer untouched, when fewer than six bytes lie at
    /// or after `offset`.
    pub fn encode(&self, buffer: &mut [u8], offset: usize) -> (result: Result<usize, MacParseError>)
        ensures
            final(buffer)@ == encode_spec(self@, old(buffer)@, offset as int),
            match result {
                Ok(written) => written == 6 && available(old(buffer)@.len(), offset as int) >= 6,
                Err(e) => available(old(buffer)@.len(), offset as int) < 6 && e == short_by(
                    available(old(buffer)@.len(), offset as int),
                ),
            },
    {
        let len = buffer.len();
        let avail: usize = if offset <= len {
            len - offset
        } else {
            0
        };
        if avail < 6 {
            return Err(MacParseError::InvalidLength { expected: 6, actual: avail });
        }
        proof {
            self.lemma_len();
        }
        let mut i: usize = 0;
        while i < 6
            invariant
                i <= 6,
                self@.len() == 6,
                buffer@.len() == old(buffer)@.len(),
                offset + 6 <= len == buffer@.len(),
                forall|j: int|
                    0 <= j < buffer@.len() ==> buffer@[j] == if offset <= j < offset + i {
                        self@[j - offset]
                    } else {
                        old(buffer)@[j]
                    },
            decreases 6 - i,
        {
            buffer[offset + i] = self.octet(i);
            i += 1;
        }
        assert(buffer@ =~= encode_spec(self@, old(buffer)@, offset as int));
        Ok(6)
    }
}

/// Decoding six bytes and encoding the result into a six-byte buffer gives
/// the six bytes back, whatever the buffer held.
pub proof fn lemma_decode_then_encode(bytes: Seq<u8>, buffer: Seq<u8>)
    requires
        bytes.len() == 6,
        buffer.len() == 6,
    ensures
        decode_spec(bytes, 0) == Ok::<Seq<u8>, MacParseError>(bytes),
        encode_spec(bytes, buffer, 0) == bytes,
{
    assert(bytes.subrange(0, 6) =~= bytes);
    assert(encode_spec(bytes, buffer, 0) =~= bytes);
}

/// Wherever an address is read and wherever it is then written, the six
/// bytes written are the six bytes read.
pub proof fn lemma_decode_then_encode_at(
    source: Seq<u8>,
    from: int,
    buffer: Seq<u8>,
    to: int,
)
    requires
        available(source.len(), from) >= 6,
        available(buffer.len(), to) >= 6,
    ensures
        decode_spec(source, from) is Ok,
        encode_spec(decode_spec(source, from)->Ok_0, buffer, to).subrange(to, to + 6)
            == source.subrange(from, from + 6),
{
    let octets = decode_spec(source, from)->Ok_0;
    assert(encode_spec(octets, buffer, to).subrange(to, to + 6) =~= octets);
}

/// Reading back from where an address was written gives that address, and
/// the write changes no byte outside its six.
pub proof fn lemma_encode_then_decode(mac: MacAddress, buffer: Seq<u8>, offset: int)
    requires
        available(buffer.len(), offset) >= 6,
    ensures
        encode_spec(mac@, buffer, offset).len() == buffer.len(),
        decode_spec(encode_spec(mac@, buffer, offset), offset) == Ok::<Seq<u8>, MacParseError>(
            mac@,
        ),
        forall|i: int|
            0 <= i < buffer.len() && !(offset <= i < offset + 6) ==> encode_spec(
                mac@,
                buffer,
                offset,
            )[i] == buffer[i],
{
    mac.lemma_len();
    assert(encode_spec(mac@, buffer, offset).subrange(offset, offset + 6) =~= mac@);
}

/// At offset 0 a buffer shorter than six bytes is refused with its own
/// length, and a buffer of six bytes or more yields its first six.
pub proof fn lemma_decode_by_length(buffer: Seq<u8>)
    requires
        buffer.len() <= usize::MAX,
    ensures
        buffer.len() < 6 ==> decode_spec(buffer, 0) == Err::<Seq<u8>, MacParseError>(
            MacParseError::InvalidLength { expected: 6, actual: buffer.len() as usize },
        ),
        buffer.len() >= 6 ==> decode_spec(buffer, 0) == Ok::<Seq<u8>, MacParseError>(
            buffer.subrange(0, 6),
        ),
{
}

impl<'a> TryFrom<&'a [u8]> for MacAddress {
    type Error = MacParseError;

    /// Takes the first six bytes of a slice as an address, as `decode` does
    /// at offset 0: a longer slice yields its first six bytes, a shorter one
    /// is refused with its length.
    fn try_from(bytes: &'a [u8]) -> (result: Result<Self, MacParseError>)
        ensures
            match result {
                Ok(mac) => decode_spec(bytes@, 0) == Ok::<Seq<u8>, MacParseError>(mac@),
                Err(e) => decode_spec(bytes@, 0) == Err::<Seq<u8>, MacParseError>(e),
            },
    {
        let result = MacAddress::decode(bytes, 0);
        proof {
            if let Ok(mac) = result {
                MacAddress::lemma_from_seq(mac@);
                mac.lemma_view_injective(MacAddress::from_seq(mac@));
            }
        }
        result
    }
}

impl<'a> vstd::std_specs::convert::TryFromSpecImpl<&'a [u8]> for MacAddress {
    open spec fn obeys_try_from_spec() -> bool {
        true
    }

    open spec fn try_from_spec(bytes: &'a [u8]) -> Result<Self, MacParseError> {
        match decode_spec(bytes@, 0) {
            Ok(octets) => Ok(MacAddress::from_seq(octets)),
            Err(e) => Err(e),
        }
    }
}

} // verus!
