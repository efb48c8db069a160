//! Framing of the byte stream that a client sends.
//!
//! A message starts with two 32-bit words, least significant byte first:
//! the id of the object it addresses, then a word whose upper half is the
//! size of the whole message in bytes and whose lower half is the opcode.
//! The argument block follows. Each argument takes one word, except strings
//! and arrays, which take a length word and then their bytes, padded to the
//! next word, and file descriptors, which travel beside the stream and take
//! no bytes at all.

use vstd::prelude::*;
use crate::interface::ArgKind;

verus! {

/// Number of bytes in the header of a message.
pub const HEADER_LEN: usize = 8;

/// The 32-bit word stored at `at`, least significant byte first.
pub open spec fn word_at(bytes: Seq<u8>, at: int) -> u32 {
    (bytes[at] as int + 256 * (bytes[at + 1] as int) + 65536 * (bytes[at + 2] as int) + 16777216
        * (bytes[at + 3] as int)) as u32
}

/// The word read as a two's complement number.
pub open spec fn signed(word: u32) -> i32 {
    if word < 0x8000_0000 {
        word as i32
    } else {
        (word as int - 0x1_0000_0000) as i32
    }
}

/// A length rounded up to whole words.
pub open spec fn padded(len: int) -> int {
    (len + 3) / 4 * 4
}

/// Reads the word stored at `at`.
pub fn read_word(bytes: &Vec<u8>, at: usize) -> (word: u32)
    requires
        at + 4 <= bytes.len(),
    ensures
        word == word_at(bytes@, at as int),
{
    let b0: u32 = bytes[at] as u32;
    let b1: u32 = bytes[at + 1] as u32;
    let b2: u32 = bytes[at + 2] as u32;
    let b3: u32 = bytes[at + 3] as u32;
    b0 + 256 * b1 + 65536 * b2 + 16777216 * b3
}

/// Reads a word as a two's complement number.
pub fn to_signed(word: u32) -> (value: i32)
    ensures
        value == signed(word),
{
    if word < 0x8000_0000 {
        word as i32
    } else {
        let low: u32 = word - 0x8000_0000;
        (low as i32) + i32::MIN
    }
}

/// What the start of a client's buffered bytes holds.
#[derive(Copy, Clone, PartialEq, Eq, Structural, Debug)]
pub enum Frame {
    /// Not all bytes of the next message have arrived.
    Incomplete,
    /// The header announces a size no message can have.
    Malformed,
    /// A whole message of `size` bytes, header included.
    Complete { object: u32, opcode: u32, size: usize },
}

/// The frame at the start of `bytes`.
pub open spec fn frame_of(bytes: Seq<u8>) -> Frame {
    if bytes.len() < 8 {
        Frame::Incomplete
    } else {
        let word = word_at(bytes, 4);
        let size = word as int / 65536;
        if size < 8 || size % 4 != 0 {
            Frame::Malformed
        } else if bytes.len() < size {
            Frame::Incomplete
        } else {
            Frame::Complete {
                object: word_at(bytes, 0),
                opcode: (word as int % 65536) as u32,
                size: size as usize,
            }
        }
    }
}

/// Decodes the header of the next message in `bytes`.
pub fn decode_header(bytes: &Vec<u8>) -> (frame: Frame)
    ensures
        frame == frame_of(bytes@),
        frame matches Frame::Complete { size, .. } ==> 8 <= size <= bytes.len(),
{
    if bytes.len() < HEADER_LEN {
        return Frame::Incomplete;
    }
    let object: u32 = read_word(bytes, 0);
    let word: u32 = read_word(bytes, 4);
    let size: usize = (word / 65536) as usize;
    let opcode: u32 = word % 65536;
    if size < HEADER_LEN || size % 4 != 0 {
        Frame::Malformed
    } else if bytes.len() < size {
        Frame::Incomplete
    } else {
        Frame::Complete { object, opcode, size }
    }
}

/// One decoded argument. Strings and arrays are given by where their bytes
/// lie in the argument block.
#[derive(Copy, Clone, PartialEq, Eq, Structural, Debug)]
pub enum Argument {
    Int(i32),
    Uint(u32),
    Fixed(i32),
    /// The bytes of the string, without its terminating zero.
    Str { offset: usize, len: usize },
    Object(u32),
    NewId(u32),
    Array { offset: usize, len: usize },
    Fd,
}

/// The argument of kind `kind` that starts at `at`, with the offset of what
/// follows it, or `None` where the block does not hold such an argument.
pub open spec fn parse_one(block: Seq<u8>, kind: ArgKind, at: int) -> Option<(Argument, int)> {
    if kind == ArgKind::Fd {
        Some((Argument::Fd, at))
    } else if at + 4 > block.len() {
        None
    } else {
        let word = word_at(block, at);
        match kind {
            ArgKind::Int => Some((Argument::Int(signed(word)), at + 4)),
            ArgKind::Uint => Some((Argument::Uint(word), at + 4)),
            ArgKind::Fixed => Some((Argument::Fixed(signed(word)), at + 4)),
            ArgKind::Object => Some((Argument::Object(word), at + 4)),
            ArgKind::NewId => Some((Argument::NewId(word), at + 4)),
            ArgKind::Array => if at + 4 + padded(word as int) <= block.len() {
                Some(
                    (
                        Argument::Array { offset: (at + 4) as usize, len: word as usize },
                        at + 4 + padded(word as int),
                    ),
                )
            } else {
                None
            },
            ArgKind::Str => if word >= 1 && at + 4 + padded(word as int) <= block.len() && block[at
                + 3 + word] == 0 {
                Some(
                    (
                        Argument::Str { offset: (at + 4) as usize, len: (word - 1) as usize },
                        at + 4 + padded(word as int),
                    ),
                )
            } else {
                None
            },
            ArgKind::Fd => Some((Argument::Fd, at)),
        }
    }
}

/// The arguments that `block` holds from offset `at` on for the kinds
/// `signature[k..]`, or `None` where the block does not match them exactly.
pub open spec fn parse_from(block: Seq<u8>, signature: Seq<ArgKind>, k: int, at: int) -> Option<
    Seq<Argument>,
>
    decreases signature.len() - k,
{
    if k >= signature.len() {
        if at == block.len() {
            Some(Seq::empty())
        } else {
            None
        }
    } else {
        match parse_one(block, signature[k], at) {
            None => None,
            Some((argument, next)) => match parse_from(block, signature, k + 1, next) {
                None => None,
                Some(rest) => Some(seq![argument] + rest),
            },
        }
    }
}

/// The arguments that an argument block holds for a signature.
pub open spec fn parse_arguments(block: Seq<u8>, signature: Seq<ArgKind>) -> Option<Seq<Argument>> {
    parse_from(block, signature, 0, 0)
}

/// Decodes the argument of kind `kind` that starts at `at`.
pub fn decode_one(block: &Vec<u8>, kind: ArgKind, at: usize) -> (step: Option<(Argument, usize)>)
    requires
        at <= block.len(),
    ensures
        match parse_one(block@, kind, at as int) {
            None => step is None,
            Some((argument, next)) => step == Some((argument, next as usize)) && at <= next
                <= block.len(),
        },
{
    if let ArgKind::Fd = kind {
        return Some((Argument::Fd, at));
    }
    if block.len() - at < 4 {
        return None;
    }
    let word: u32 = read_word(block, at);
    let start: usize = at + 4;
    let room: usize = block.len() - start;
    match kind {
        ArgKind::Int => Some((Argument::Int(to_signed(word)), start)),
        ArgKind::Uint => Some((Argument::Uint(word), start)),
        ArgKind::Fixed => Some((Argument::Fixed(to_signed(word)), start)),
        ArgKind::Object => Some((Argument::Object(word), start)),
        ArgKind::NewId => Some((Argument::NewId(word), start)),
        ArgKind::Fd => Some((Argument::Fd, at)),
        ArgKind::Array => {
            let len: usize = word as usize;
            if len > room {
                return None;
            }
            let pad: usize = (4 - len % 4) % 4;
            if pad > room - len {
                return None;
            }
            Some((Argument::Array { offset: start, len }, start + len + pad))
        },
        ArgKind::Str => {
            let len: usize = word as usize;
            if len < 1 || len > room {
                return None;
            }
            let pad: usize = (4 - len % 4) % 4;
            if pad > room - len {
                return None;
            }
            if block[start + len - 1] != 0 {
                return None;
            }
            Some((Argument::Str { offset: start, len: len - 1 }, start + len + pad))
        },
    }
}

/// Decodes an argument block against the signature of its request.
///
/// The block matches when it holds one argument of each kind of the
/// signature, in order, and nothing after the last.
pub fn decode_arguments(block: &Vec<u8>, signature: &Vec<ArgKind>) -> (arguments: Option<
    Vec<Argument>,
>)
    ensures
        match parse_arguments(block@, signature@) {
            None => arguments is None,
            Some(parsed) => arguments matches Some(decoded) && decoded@ == parsed,
        },
{
    let mut decoded: Vec<Argument> = Vec::new();
    let mut at: usize = 0;
    let mut k: usize = 0;
    while k < signature.len()
        invariant
            k <= signature.len(),
            at <= block.len(),
            parse_arguments(block@, signature@) == (match parse_from(
                block@,
                signature@,
                k as int,
                at as int,
            ) {
                None => None::<Seq<Argument>>,
                Some(rest) => Some(decoded@ + rest),
            }),
        decreases signature.len() - k,
    {
        match decode_one(block, signature[k], at) {
            None => {
                return None;
            },
            Some((argument, next)) => {
                proof {
                    let rest = parse_from(block@, signature@, k + 1, next as int);
                    if let Some(tail) = rest {
                        assert(decoded@ + (seq![argument] + tail) =~= decoded@.push(argument)
                            + tail);
                    }
                }
                decoded.push(argument);
                at = next;
                k = k + 1;
            },
        }
    }
    if at == block.len() {
        assert(decoded@ + Seq::<Argument>::empty() =~= decoded@);
        Some(decoded)
    } else {
        None
    }
}

/// Index of the first zero byte at or after `from`, or the length of
/// `bytes` where there is none.
pub open spec fn scan_nul(bytes: Seq<u8>, from: int) -> int
    decreases bytes.len() - from,
{
    if from >= bytes.len() || bytes[from] == 0 {
        from
    } else {
        scan_nul(bytes, from + 1)
    }
}

/// The bytes before the first zero byte: what a reader of zero-terminated
/// text sees of `bytes`.
pub open spec fn until_nul(bytes: Seq<u8>) -> Seq<u8> {
    bytes.take(scan_nul(bytes, 0))
}

/// `scan_nul` finds the first zero byte: no byte before its result is zero,
/// and its result is the length or the index of a zero byte.
pub proof fn lemma_scan_nul(bytes: Seq<u8>, from: int)
    requires
        0 <= from <= bytes.len(),
    ensures
        from <= scan_nul(bytes, from) <= bytes.len(),
        forall|i: int| from <= i < scan_nul(bytes, from) ==> bytes[i] != 0,
        scan_nul(bytes, from) < bytes.len() ==> bytes[scan_nul(bytes, from)] == 0,
    decreases bytes.len() - from,
{
    if from < bytes.len() && bytes[from] != 0 {
        lemma_scan_nul(bytes, from + 1);
    }
}

/// Cuts text at its first zero byte.
pub fn truncate_at_nul(bytes: &[u8]) -> (text: Vec<u8>)
    ensures
        text@ == until_nul(bytes@),
{
    let mut text: Vec<u8> = Vec::new();
    let mut i: usize = 0;
    while i < bytes.len() && bytes[i] != 0
        invariant
            i <= bytes.len(),
            text@ == bytes@.take(i as int),
            scan_nul(bytes@, 0) == scan_nul(bytes@, i as int),
        decreases bytes.len() - i,
    {
        text.push(bytes[i]);
        assert(bytes@.take(i as int).push(bytes@[i as int]) =~= bytes@.take(i + 1));
        i = i + 1;
    }
    text
}

/// The four bytes of a word, least significant first.
pub open spec fn word_bytes(word: u32) -> Seq<u8> {
    seq![
        (word % 256) as u8,
        (word / 256 % 256) as u8,
        (word / 65536 % 256) as u8,
        (word / 16777216) as u8,
    ]
}

/// A word written and read back is the same word, whatever stands around
/// it.
pub proof fn lemma_word_round_trip(before: Seq<u8>, word: u32, after: Seq<u8>)
    ensures
        word_at(before + word_bytes(word) + after, before.len() as int) == word,
{
    let bytes = before + word_bytes(word) + after;
    let at = before.len() as int;
    assert(bytes[at] == word_bytes(word)[0]);
    assert(bytes[at + 1] == word_bytes(word)[1]);
    assert(bytes[at + 2] == word_bytes(word)[2]);
    assert(bytes[at + 3] == word_bytes(word)[3]);
}

/// Appends a word.
pub fn push_word(bytes: &mut Vec<u8>, word: u32)
    ensures
        final(bytes)@ == old(bytes)@ + word_bytes(word),
{
    bytes.push((word % 256) as u8);
    bytes.push((word / 256 % 256) as u8);
    bytes.push((word / 65536 % 256) as u8);
    bytes.push((word / 16777216) as u8);
    assert(bytes@ =~= old(bytes)@ + word_bytes(word));
}

/// A message can be framed: its opcode and its size fit their half of the
/// header word, and its argument block is whole words.
pub open spec fn frameable(opcode: u32, block: Seq<u8>) -> bool {
    opcode < 65536 && block.len() % 4 == 0 && 8 + block.len() < 65536
}

/// The bytes of a message: its header, then its argument block.
pub open spec fn framed(object: u32, opcode: u32, block: Seq<u8>) -> Seq<u8> {
    word_bytes(object) + word_bytes(((8 + block.len()) * 65536 + opcode) as u32) + block
}

/// Frames a message, or returns `None` for one that cannot be framed.
pub fn encode_message(object: u32, opcode: u32, block: &[u8]) -> (bytes: Option<Vec<u8>>)
    ensures
        match bytes {
            Some(message) => frameable(opcode, block@) && message@ == framed(object, opcode, block@),
            None => !frameable(opcode, block@),
        },
{
    if opcode >= 65536 || block.len() % 4 != 0 || block.len() >= 65536 - HEADER_LEN {
        return None;
    }
    let size: u32 = (HEADER_LEN + block.len()) as u32;
    let mut message: Vec<u8> = Vec::new();
    push_word(&mut message, object);
    push_word(&mut message, size * 65536 + opcode);
    let mut i: usize = 0;
    while i < block.len()
        invariant
            i <= block.len(),
            message@ == word_bytes(object) + word_bytes(((8 + block@.len()) * 65536 + opcode) as u32)
                + block@.take(i as int),
        decreases block.len() - i,
    {
        message.push(block[i]);
        assert(block@.take(i as int).push(block@[i as int]) =~= block@.take(i + 1));
        assert(message@ =~= word_bytes(object) + word_bytes(
            ((8 + block@.len()) * 65536 + opcode) as u32,
        ) + block@.take(i + 1));
        i = i + 1;
    }
    assert(block@.take(block@.len() as int) =~= block@);
    Some(message)
}

/// What is framed is what is decoded: at the head of a buffer, a framed
/// message is found whole, with its object, its opcode and its argument
/// block, whatever follows it.
pub proof fn lemma_framed_decodes(object: u32, opcode: u32, block: Seq<u8>, rest: Seq<u8>)
    requires
        frameable(opcode, block),
    ensures
        frame_of(framed(object, opcode, block) + rest) == (Frame::Complete {
            object,
            opcode,
            size: (8 + block.len()) as usize,
        }),
        (framed(object, opcode, block) + rest).subrange(8, 8 + block.len() as int) == block,
        (framed(object, opcode, block) + rest).skip(8 + block.len() as int) == rest,
{
    let word = ((8 + block.len()) * 65536 + opcode) as u32;
    let bytes = framed(object, opcode, block) + rest;
    assert(bytes =~= Seq::<u8>::empty() + word_bytes(object) + (word_bytes(word) + block + rest));
    lemma_word_round_trip(Seq::empty(), object, word_bytes(word) + block + rest);
    assert(bytes =~= word_bytes(object) + word_bytes(word) + (block + rest));
    lemma_word_round_trip(word_bytes(object), word, block + rest);
    assert(word_bytes(object).len() == 4);
    assert(bytes.subrange(8, 8 + block.len() as int) =~= block);
    assert(bytes.skip(8 + block.len() as int) =~= rest);
}

/// The bytes of a string argument: the length of the text with its
/// terminator, the text, the terminator, and zeros up to the next word.
pub open spec fn string_bytes(text: Seq<u8>) -> Seq<u8> {
    word_bytes((text.len() + 1) as u32) + text + Seq::new(
        (padded(text.len() as int + 1) - text.len()) as nat,
        |i: int| 0u8,
    )
}

/// Appends a string argument.
pub fn push_string(bytes: &mut Vec<u8>, text: &[u8])
    requires
        text@.len() < u32::MAX,
    ensures
        final(bytes)@ == old(bytes)@ + string_bytes(text@),
{
    let len: usize = text.len();
    push_word(bytes, (len + 1) as u32);
    let mut i: usize = 0;
    while i < len
        invariant
            i <= len,
            len == text@.len(),
            bytes@ == old(bytes)@ + word_bytes((len + 1) as u32) + text@.take(i as int),
        decreases len - i,
    {
        bytes.push(text[i]);
        assert(text@.take(i as int).push(text@[i as int]) =~= text@.take(i + 1));
        assert(bytes@ =~= old(bytes)@ + word_bytes((len + 1) as u32) + text@.take(i + 1));
        i = i + 1;
    }
    assert(text@.take(len as int) =~= text@);
    let fill: usize = 4 - len % 4;
    assert(fill == padded(len as int + 1) - len);
    let mut k: usize = 0;
    while k < fill
        invariant
            k <= fill,
            bytes@ == old(bytes)@ + word_bytes((len + 1) as u32) + text@ + Seq::new(
                k as nat,
                |i: int| 0u8,
            ),
        decreases fill - k,
    {
        bytes.push(0);
        assert(bytes@ =~= old(bytes)@ + word_bytes((len + 1) as u32) + text@ + Seq::new(
            (k + 1) as nat,
            |i: int| 0u8,
        ));
        k = k + 1;
    }
    assert(bytes@ =~= old(bytes)@ + string_bytes(text@));
}

/// A string argument that is written is read back: where it starts, the
/// block holds a string of the length of the text, up to where it ends.
pub proof fn lemma_string_round_trip(before: Seq<u8>, text: Seq<u8>, after: Seq<u8>)
    requires
        text.len() < u32::MAX,
        before.len() + string_bytes(text).len() + after.len() <= usize::MAX,
    ensures
        parse_one(before + string_bytes(text) + after, ArgKind::Str, before.len() as int) == Some(
            (
                Argument::Str { offset: (before.len() + 4) as usize, len: text.len() as usize },
                before.len() as int + string_bytes(text).len(),
            ),
        ),
        (before + string_bytes(text) + after).subrange(
            before.len() as int + 4,
            before.len() as int + 4 + text.len(),
        ) == text,
{
    let word = (text.len() + 1) as u32;
    let zeros = Seq::new((padded(text.len() as int + 1) - text.len()) as nat, |i: int| 0u8);
    let block = before + string_bytes(text) + after;
    let at = before.len() as int;
    assert(block =~= before + word_bytes(word) + (text + zeros + after));
    lemma_word_round_trip(before, word, text + zeros + after);
    assert(block[at + 3 + word] == zeros[0]);
    assert(block.subrange(at + 4, at + 4 + text.len()) =~= text);
}

/// The id by which every connection names the display object.
pub const DISPLAY_ID: u32 = 1;

/// The opcode of the error event of the display object.
pub const ERROR_OPCODE: u32 = 0;

/// Code of an error on the display: an id that names no object, or none
/// that will do.
pub const INVALID_OBJECT: u32 = 0;

/// Code of an error on the display: a message that is no request of the
/// object it addresses.
pub const INVALID_METHOD: u32 = 1;

/// Code of an error on the display: the server could not carry the request
/// out.
pub const IMPLEMENTATION: u32 = 3;

/// The argument block of an error event: the object at fault, the code, the
/// text.
pub open spec fn error_block(object: u32, code: u32, text: Seq<u8>) -> Seq<u8> {
    word_bytes(object) + word_bytes(code) + string_bytes(text)
}

/// Frames a protocol error as the error event of the display object, or
/// returns `None` for a text too long to be framed.
pub fn encode_error(object: u32, code: u32, text: &[u8]) -> (bytes: Option<Vec<u8>>)
    ensures
        match bytes {
            Some(message) => frameable(ERROR_OPCODE, error_block(object, code, text@)) && message@
                == framed(DISPLAY_ID, ERROR_OPCODE, error_block(object, code, text@)),
            None => !frameable(ERROR_OPCODE, error_block(object, code, text@)),
        },
{
    if text.len() >= 65536 {
        assert(string_bytes(text@).len() >= 65536);
        return None;
    }
    let mut block: Vec<u8> = Vec::new();
    push_word(&mut block, object);
    push_word(&mut block, code);
    push_string(&mut block, text);
    assert(block@ =~= error_block(object, code, text@));
    encode_message(DISPLAY_ID, ERROR_OPCODE, block.as_slice())
}

} // verus!
