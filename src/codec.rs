use vstd::bytes::*;
use vstd::endian::{endianness, Endian};
use vstd::prelude::*;
use vstd::string::*;
use vstd::utf8::*;

use crate::error::BrightyError;

verus! {

broadcast use {encode_utf8_valid_utf8, encode_utf8_decode_utf8};

/// Size in bytes of one command frame.
pub const FRAME_LEN: usize = 128;

/// Largest device name, in bytes, that a frame can carry.
pub const MAX_NAME_LEN: usize = 127;

/// Tag byte of a relative step up.
pub const TAG_UP: u8 = 0;

/// Tag byte of a relative step down.
pub const TAG_DOWN: u8 = 1;

/// Tag byte of an absolute brightness.
pub const TAG_ABSOLUTE: u8 = 2;

/// Tags from this value on are invalid; tags between `TAG_ABSOLUTE` and it
/// carry a device name whose byte length is the tag itself.
pub const TAG_LIMIT: u8 = 128;

/// A brightness command as carried by one frame.
#[derive(Debug)]
pub enum SocketMessage {
    /// Set the brightness to this value, before clamping.
    SetBrightnessAbsolute(u32),
    /// Raise the brightness by one step.
    SetRelativeBrightnessUp,
    /// Lower the brightness by one step, down to 0 at most.
    SetRelativeBrightnessDown,
    /// Rebind the daemon to the device of this name.
    ChangeBrightnessFile(String),
}

/// The mathematical value of a command: a device name is its characters.
pub enum Command {
    Absolute(u32),
    Up,
    Down,
    SwitchDevice(Seq<char>),
}

impl View for SocketMessage {
    type V = Command;

    open spec fn view(&self) -> Command {
        match self {
            SocketMessage::SetBrightnessAbsolute(v) => Command::Absolute(*v),
            SocketMessage::SetRelativeBrightnessUp => Command::Up,
            SocketMessage::SetRelativeBrightnessDown => Command::Down,
            SocketMessage::ChangeBrightnessFile(name) => Command::SwitchDevice(name@),
        }
    }
}

/// The four bytes of `x` in the machine's byte order.
pub open spec fn ne_u32_bytes(x: u32) -> Seq<u8> {
    match endianness() {
        Endian::Little => spec_u32_to_le_bytes(x),
        Endian::Big => spec_u32_to_le_bytes(x).reverse(),
    }
}

/// The integer that four bytes in the machine's byte order stand for.
pub open spec fn ne_u32_value(b: Seq<u8>) -> u32 {
    match endianness() {
        Endian::Little => spec_u32_from_le_bytes(b),
        Endian::Big => spec_u32_from_le_bytes(b.reverse()),
    }
}

/// `n` zero bytes.
pub open spec fn zeros(n: int) -> Seq<u8> {
    Seq::new(n as nat, |i: int| 0u8)
}

/// The UTF-8 bytes of a device name.
pub open spec fn name_bytes(name: Seq<char>) -> Seq<u8> {
    encode_utf8(name)
}

/// A command can be encoded: a device name fits in one frame.
pub open spec fn encodable(c: Command) -> bool {
    match c {
        Command::SwitchDevice(name) => name_bytes(name).len() <= MAX_NAME_LEN,
        _ => true,
    }
}

/// A command survives encoding and decoding: besides fitting, a device name
/// is long enough that its length is not taken for another command's tag.
pub open spec fn representable(c: Command) -> bool {
    match c {
        Command::SwitchDevice(name) => TAG_ABSOLUTE < name_bytes(name).len()
            <= MAX_NAME_LEN,
        _ => true,
    }
}

/// The frame that an encodable command is written as: the tag, the payload,
/// then zero padding up to `FRAME_LEN` bytes.
pub open spec fn frame_of(c: Command) -> Seq<u8> {
    match c {
        Command::Up => zeros(FRAME_LEN as int),
        Command::Down => seq![TAG_DOWN] + zeros(FRAME_LEN - 1),
        Command::Absolute(v) => seq![TAG_ABSOLUTE] + ne_u32_bytes(v) + zeros(FRAME_LEN - 5),
        Command::SwitchDevice(name) => {
            let b = name_bytes(name);
            seq![b.len() as u8] + b + zeros(FRAME_LEN - 1 - b.len())
        },
    }
}

/// What the bytes `b` decode to.
pub open spec fn decode_frame(b: Seq<u8>) -> Result<Command, BrightyError> {
    if b.len() < FRAME_LEN {
        Err(BrightyError::TruncatedFrame)
    } else if b[0] == TAG_UP {
        Ok(Command::Up)
    } else if b[0] == TAG_DOWN {
        Ok(Command::Down)
    } else if b[0] == TAG_ABSOLUTE {
        Ok(Command::Absolute(ne_u32_value(b.subrange(1, 5))))
    } else if b[0] < TAG_LIMIT {
        let payload = b.subrange(1, 1 + b[0] as int);
        if valid_utf8(payload) {
            Ok(Command::SwitchDevice(decode_utf8(payload)))
        } else {
            Err(BrightyError::InvalidEncoding)
        }
    } else {
        Err(BrightyError::InvalidTag)
    }
}

/// What encoding the command `c` gives.
pub open spec fn encode_frame(c: Command) -> Result<Seq<u8>, BrightyError> {
    if encodable(c) {
        Ok(frame_of(c))
    } else {
        Err(BrightyError::NameTooLong)
    }
}

/// The value of a decoding result.
pub open spec fn decoded_view(r: Result<SocketMessage, BrightyError>) -> Result<
    Command,
    BrightyError,
> {
    match r {
        Ok(m) => Ok(m@),
        Err(e) => Err(e),
    }
}

/// The value of an encoding result.
pub open spec fn encoded_view(r: Result<[u8; 128], BrightyError>) -> Result<
    Seq<u8>,
    BrightyError,
> {
    match r {
        Ok(f) => Ok(f@),
        Err(e) => Err(e),
    }
}

/// Relies on `u32::to_ne_bytes`: the memory representation of `x`, in the
/// machine's byte order.
#[verifier::external_body]
fn u32_to_ne_bytes(x: u32) -> (r: [u8; 4])
    ensures
        r@ == ne_u32_bytes(x),
{
    x.to_ne_bytes()
}

/// Relies on `u32::from_ne_bytes`: the integer whose memory representation,
/// in the machine's byte order, is `b`.
#[verifier::external_body]
fn u32_from_ne_bytes(b: [u8; 4]) -> (r: u32)
    ensures
        r == ne_u32_value(b@),
{
    u32::from_ne_bytes(b)
}

/// Relies on `String::from_utf8`: it succeeds exactly on valid UTF-8, and the
/// string then holds the characters those bytes encode.
#[verifier::external_body]
fn string_from_utf8(b: Vec<u8>) -> (r: Option<String>)
    ensures
        r is Some <==> valid_utf8(b@),
        r matches Some(s) ==> s@ == decode_utf8(b@),
{
    String::from_utf8(b).ok()
}

/// Round trip: a representable command encodes successfully, and decoding
/// its frame gives the same command back.
pub proof fn lemma_round_trip(c: Command)
    requires
        representable(c),
    ensures
        encode_frame(c) == Ok::<Seq<u8>, BrightyError>(frame_of(c)),
        frame_of(c).len() == FRAME_LEN,
        decode_frame(frame_of(c)) == Ok::<Command, BrightyError>(c),
{
    let f = frame_of(c);
    match c {
        Command::Absolute(v) => {
            lemma_auto_spec_u32_to_from_le_bytes();
            let le = spec_u32_to_le_bytes(v);
            assert(le.reverse().reverse() =~= le);
            assert(f.subrange(1, 5) =~= ne_u32_bytes(v));
        },
        Command::SwitchDevice(name) => {
            let b = name_bytes(name);
            assert(f.subrange(1, 1 + f[0] as int) =~= b);
        },
        _ => {},
    }
}

impl SocketMessage {
    /// Decodes the first frame of `buff`. Bytes past `FRAME_LEN` are ignored.
    pub fn from_buff(buff: &[u8]) -> (r: Result<Self, BrightyError>)
        ensures
            decoded_view(r) == decode_frame(buff@),
    {
        if buff.len() < FRAME_LEN {
            return Err(BrightyError::TruncatedFrame);
        }
        let tag = buff[0];
        if tag == TAG_UP {
            Ok(SocketMessage::SetRelativeBrightnessUp)
        } else if tag == TAG_DOWN {
            Ok(SocketMessage::SetRelativeBrightnessDown)
        } else if tag == TAG_ABSOLUTE {
            let bits: [u8; 4] = [buff[1], buff[2], buff[3], buff[4]];
            assert(bits@ =~= buff@.subrange(1, 5));
            Ok(SocketMessage::SetBrightnessAbsolute(u32_from_ne_bytes(bits)))
        } else if tag < TAG_LIMIT {
            let len = tag as usize;
            let mut payload: Vec<u8> = Vec::new();
            let mut i: usize = 0;
            while i < len
                invariant
                    i <= len,
                    1 + len <= buff@.len(),
                    payload@ =~= buff@.subrange(1, 1 + i as int),
                decreases len - i,
            {
                payload.push(buff[i + 1]);
                i = i + 1;
            }
            match string_from_utf8(payload) {
                Some(name) => Ok(SocketMessage::ChangeBrightnessFile(name)),
                None => Err(BrightyError::InvalidEncoding),
            }
        } else {
            Err(BrightyError::InvalidTag)
        }
    }

    /// Encodes the command as one frame; fails only on a device name longer
    /// than `MAX_NAME_LEN` bytes.
    pub fn to_buff(&self) -> (r: Result<[u8; 128], BrightyError>)
        ensures
            encoded_view(r) == encode_frame(self@),
    {
        let mut out = [0u8; 128];
        assert(out@ =~= zeros(FRAME_LEN as int));
        match self {
            SocketMessage::SetBrightnessAbsolute(n) => {
                let bits = u32_to_ne_bytes(*n);
                out[0] = TAG_ABSOLUTE;
                let mut i: usize = 0;
                while i < 4
                    invariant
                        i <= 4,
                        bits@ == ne_u32_bytes(*n),
                        out@.len() == FRAME_LEN,
                        out@[0] == TAG_ABSOLUTE,
                        forall|k: int| 1 <= k < 1 + i ==> out@[k] == bits@[k - 1],
                        forall|k: int| 1 + i <= k < FRAME_LEN ==> out@[k] == 0u8,
                    decreases 4 - i,
                {
                    out[i + 1] = bits[i];
                    i = i + 1;
                }
                assert(out@ =~= frame_of(self@));
                Ok(out)
            },
            SocketMessage::SetRelativeBrightnessUp => Ok(out),
            SocketMessage::SetRelativeBrightnessDown => {
                out[0] = TAG_DOWN;
                assert(out@ =~= frame_of(self@));
                Ok(out)
            },
            SocketMessage::ChangeBrightnessFile(name) => {
                let bytes = name.as_str().as_bytes_vec();
                let len = bytes.len();
                if len > MAX_NAME_LEN {
                    return Err(BrightyError::NameTooLong);
                }
                out[0] = len as u8;
                let mut i: usize = 0;
                while i < len
                    invariant
                        i <= len <= MAX_NAME_LEN,
                        bytes@ == name_bytes(name@),
                        bytes@.len() == len,
                        out@.len() == FRAME_LEN,
                        out@[0] == len as u8,
                        forall|k: int| 1 <= k < 1 + i ==> out@[k] == bytes@[k - 1],
                        forall|k: int| 1 + i <= k < FRAME_LEN ==> out@[k] == 0u8,
                    decreases len - i,
                {
                    out[i + 1] = bytes[i];
                    i = i + 1;
                }
                assert(out@ =~= frame_of(self@));
                Ok(out)
            },
        }
    }
}

} // verus!
