//! Command and response units exchanged with a card (ISO/IEC 7816-4, short form).

use vstd::prelude::*;
use crate::error::CardError;

verus! {

/// The most bytes a response may hold.
pub const RESPONSE_CAPACITY: usize = 2048;

/// Instruction byte of GET DATA.
pub const INS_GET_DATA: u8 = 0xCA;

/// Instruction byte of SELECT.
pub const INS_SELECT: u8 = 0xA4;

/// Bytes of the probe sent to every card: GET DATA for tag `00 6E`.
pub open spec fn spec_probe_bytes() -> Seq<u8> {
    seq![0x00u8, 0xCAu8, 0x00u8, 0x6Eu8]
}

/// Bytes of a SELECT by application identifier: header, length, identifier.
pub open spec fn spec_select_bytes(aid: Seq<u8>) -> Seq<u8> {
    seq![0x00u8, 0xA4u8, 0x04u8, 0x00u8, aid.len() as u8] + aid
}

/// Whether `bytes` is laid out as a short-form command: a four-byte header,
/// then nothing, or an expected-length byte, or a length byte with that many
/// data bytes, or the latter followed by an expected-length byte.
pub open spec fn spec_well_formed(bytes: Seq<u8>) -> bool {
    bytes.len() == 4 || bytes.len() == 5 || (bytes.len() >= 6 && bytes[4] > 0 && (bytes.len() == 5
        + bytes[4] || bytes.len() == 6 + bytes[4]))
}

/// The data of a response: all but its last two bytes. A response too short
/// to carry a status word has no data.
pub open spec fn spec_body(response: Seq<u8>) -> Seq<u8> {
    if response.len() >= 2 {
        response.subrange(0, response.len() - 2)
    } else {
        Seq::empty()
    }
}

/// The status word of a response: its last two bytes, where it has them.
pub open spec fn spec_status_word(response: Seq<u8>) -> Option<(u8, u8)> {
    if response.len() >= 2 {
        Some((response[response.len() - 2], response[response.len() - 1]))
    } else {
        None
    }
}

/// Whether a response carries no data.
pub open spec fn spec_empty_body(response: Seq<u8>) -> bool {
    response.len() <= 2
}

/// The two readings of "no data" agree.
pub proof fn lemma_empty_body(response: Seq<u8>)
    ensures
        spec_empty_body(response) <==> spec_body(response).len() == 0,
{
}

/// A command for a card. Its bytes are fixed when it is made.
#[derive(Debug)]
pub struct ApduCommand {
    bytes: Vec<u8>,
}

impl View for ApduCommand {
    type V = Seq<u8>;

    closed spec fn view(&self) -> Seq<u8> {
        self.bytes@
    }
}

impl ApduCommand {
    #[verifier::type_invariant]
    spec fn well_formed(self) -> bool {
        spec_well_formed(self.bytes@)
    }

    /// The probe sent to every card.
    pub fn probe() -> (c: ApduCommand)
        ensures
            c@ == spec_probe_bytes(),
    {
        let mut bytes: Vec<u8> = Vec::new();
        bytes.push(0x00u8);
        bytes.push(INS_GET_DATA);
        bytes.push(0x00u8);
        bytes.push(0x6Eu8);
        assert(bytes@ =~= spec_probe_bytes());
        ApduCommand { bytes }
    }

    /// A SELECT of the application named by `aid`. The identifier's length
    /// must fit the one length byte: between 1 and 255 bytes.
    pub fn select_application(aid: &Vec<u8>) -> (c: Option<ApduCommand>)
        ensures
            c.is_some() <==> 1 <= aid@.len() <= 255,
            c.is_some() ==> c.unwrap()@ == spec_select_bytes(aid@),
    {
        let n: usize = aid.len();
        if n < 1 || n > 255 {
            return None;
        }
        let mut bytes: Vec<u8> = Vec::new();
        bytes.push(0x00u8);
        bytes.push(INS_SELECT);
        bytes.push(0x04u8);
        bytes.push(0x00u8);
        bytes.push(n as u8);
        let mut i: usize = 0;
        while i < n
            invariant
                n == aid@.len(),
                1 <= n <= 255,
                i <= n,
                bytes@ == spec_select_bytes(aid@).subrange(0, 5 + i),
            decreases n - i,
        {
            bytes.push(aid[i]);
            i = i + 1;
            assert(bytes@ =~= spec_select_bytes(aid@).subrange(0, 5 + i));
        }
        assert(bytes@ =~= spec_select_bytes(aid@));
        Some(ApduCommand { bytes })
    }

    /// A command made of `bytes`, where they are laid out as one.
    pub fn from_bytes(bytes: Vec<u8>) -> (c: Option<ApduCommand>)
        ensures
            c.is_some() <==> spec_well_formed(bytes@),
            c.is_some() ==> c.unwrap()@ == bytes@,
    {
        let n: usize = bytes.len();
        let ok: bool = if n == 4 || n == 5 {
            true
        } else if n >= 6 {
            let lc: usize = bytes[4] as usize;
            lc > 0 && (n == 5 + lc || n == 6 + lc)
        } else {
            false
        };
        if ok {
            Some(ApduCommand { bytes })
        } else {
            None
        }
    }

    /// The bytes to put on the wire, laid out as a short-form command.
    pub fn as_bytes(&self) -> (b: &Vec<u8>)
        ensures
            b@ == self@,
            spec_well_formed(b@),
    {
        proof {
            use_type_invariant(self);
        }
        &self.bytes
    }

    /// The class byte.
    pub fn class(&self) -> (b: u8)
        ensures
            self@.len() >= 4,
            b == self@[0],
    {
        proof {
            use_type_invariant(self);
        }
        self.bytes[0]
    }

    /// The instruction byte.
    pub fn instruction(&self) -> (b: u8)
        ensures
            self@.len() >= 4,
            b == self@[1],
    {
        proof {
            use_type_invariant(self);
        }
        self.bytes[1]
    }

    /// The two parameter bytes.
    pub fn parameters(&self) -> (p: (u8, u8))
        ensures
            self@.len() >= 4,
            p == (self@[2], self@[3]),
    {
        proof {
            use_type_invariant(self);
        }
        (self.bytes[2], self.bytes[3])
    }
}

/// What a card sent back: data, then a two-byte status word.
#[derive(Debug)]
pub struct ApduResponse {
    bytes: Vec<u8>,
}

impl View for ApduResponse {
    type V = Seq<u8>;

    closed spec fn view(&self) -> Seq<u8> {
        self.bytes@
    }
}

impl ApduResponse {
    #[verifier::type_invariant]
    spec fn within_capacity(self) -> bool {
        self.bytes@.len() <= RESPONSE_CAPACITY
    }

    /// Takes the bytes a card sent. More than the receive buffer holds is
    /// refused, never cut short.
    pub fn from_bytes(bytes: Vec<u8>) -> (r: Result<ApduResponse, CardError>)
        ensures
            r.is_ok() <==> bytes@.len() <= RESPONSE_CAPACITY,
            r.is_ok() ==> r.unwrap()@ == bytes@,
            r.is_err() ==> r.unwrap_err() == CardError::ResponseTooLarge,
    {
        if bytes.len() > RESPONSE_CAPACITY {
            Err(CardError::ResponseTooLarge)
        } else {
            Ok(ApduResponse { bytes })
        }
    }

    /// All bytes as received, never more than the receive buffer holds.
    pub fn as_bytes(&self) -> (b: &Vec<u8>)
        ensures
            b@ == self@,
            b@.len() <= RESPONSE_CAPACITY,
    {
        proof {
            use_type_invariant(self);
        }
        &self.bytes
    }

    /// The number of data bytes.
    pub fn body_len(&self) -> (n: usize)
        ensures
            n == spec_body(self@).len(),
    {
        let total: usize = self.bytes.len();
        if total >= 2 {
            total - 2
        } else {
            0
        }
    }

    /// Whether the card sent a status word and nothing else.
    pub fn has_empty_body(&self) -> (b: bool)
        ensures
            b == spec_empty_body(self@),
            b <==> spec_body(self@).len() == 0,
    {
        self.bytes.len() <= 2
    }

    /// A copy of the data bytes.
    pub fn body(&self) -> (b: Vec<u8>)
        ensures
            b@ == spec_body(self@),
    {
        let n: usize = self.body_len();
        let mut out: Vec<u8> = Vec::new();
        let mut i: usize = 0;
        while i < n
            invariant
                n == spec_body(self@).len(),
                i <= n,
                self.bytes@ == self@,
                out@ == spec_body(self@).subrange(0, i as int),
            decreases n - i,
        {
            out.push(self.bytes[i]);
            i = i + 1;
            assert(out@ =~= spec_body(self@).subrange(0, i as int));
        }
        assert(out@ =~= spec_body(self@));
        out
    }

    /// The status word, where the card sent one.
    pub fn status_word(&self) -> (sw: Option<(u8, u8)>)
        ensures
            sw == spec_status_word(self@),
    {
        let total: usize = self.bytes.len();
        if total >= 2 {
            Some((self.bytes[total - 2], self.bytes[total - 1]))
        } else {
            None
        }
    }

    /// Whether the card reported "file or data object not found" (`6A 82`).
    pub fn is_not_found(&self) -> (b: bool)
        ensures
            b <==> spec_status_word(self@) == Some((0x6Au8, 0x82u8)),
    {
        match self.status_word() {
            Some((sw1, sw2)) => sw1 == 0x6A && sw2 == 0x82,
            None => false,
        }
    }
}

} // verus!
