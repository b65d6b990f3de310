use vstd::prelude::*;
use crate::error::SrdError;
use crate::wire::{
    le_u16_at, lemma_u16_at, read_array32, read_bytes, read_u16_le, u16_le, write_all,
    write_u16_le, write_u8,
};

verus! {

/// Packet type of the NOW-auth challenge.
pub const NOW_AUTH_SRD_CHALLENGE_ID: u16 = 2;

/// The responder's challenge: DH group, public key and nonce.
pub struct NowAuthSrdChallenge {
    pub packet_type: u16,
    pub flags: u16,
    pub key_size: u16,
    pub generator: [u8; 2],
    pub prime: Vec<u8>,
    pub public_key: Vec<u8>,
    pub nonce: [u8; 32],
}

/// The fields of a challenge as mathematical values.
pub struct ChallengeModel {
    pub packet_type: u16,
    pub flags: u16,
    pub key_size: u16,
    pub generator: Seq<u8>,
    pub prime: Seq<u8>,
    pub public_key: Seq<u8>,
    pub nonce: Seq<u8>,
}

impl View for NowAuthSrdChallenge {
    type V = ChallengeModel;

    open spec fn view(&self) -> ChallengeModel {
        ChallengeModel {
            packet_type: self.packet_type,
            flags: self.flags,
            key_size: self.key_size,
            generator: self.generator@,
            prime: self.prime@,
            public_key: self.public_key@,
            nonce: self.nonce@,
        }
    }
}

/// Prime and public key are each `key_size` bytes long.
pub open spec fn challenge_valid(m: ChallengeModel) -> bool {
    &&& m.generator.len() == 2
    &&& m.prime.len() == m.key_size
    &&& m.public_key.len() == m.key_size
    &&& m.nonce.len() == 32
}

pub open spec fn challenge_bytes(m: ChallengeModel) -> Seq<u8> {
    u16_le(m.packet_type) + u16_le(m.flags) + u16_le(m.key_size) + m.generator + m.prime
        + m.public_key + m.nonce
}

/// What the decoder makes of `b`: `None` when `b` is too short.
pub open spec fn challenge_parse(b: Seq<u8>) -> Option<ChallengeModel> {
    if b.len() < 8 {
        None
    } else {
        let k = le_u16_at(b, 4) as int;
        if b.len() < 40 + 2 * k {
            None
        } else {
            Some(
                ChallengeModel {
                    packet_type: le_u16_at(b, 0),
                    flags: le_u16_at(b, 2),
                    key_size: le_u16_at(b, 4),
                    generator: b.subrange(6, 8),
                    prime: b.subrange(8, 8 + k),
                    public_key: b.subrange(8 + k, 8 + 2 * k),
                    nonce: b.subrange(8 + 2 * k, 40 + 2 * k),
                },
            )
        }
    }
}

/// Decoding an encoded valid challenge gives the same challenge back.
pub proof fn lemma_challenge_round_trip(m: ChallengeModel)
    requires
        challenge_valid(m),
    ensures
        challenge_parse(challenge_bytes(m)) == Some(m),
{
    let b = challenge_bytes(m);
    let k = m.key_size as int;
    assert(b.subrange(0, 2) =~= u16_le(m.packet_type));
    assert(b.subrange(2, 4) =~= u16_le(m.flags));
    assert(b.subrange(4, 6) =~= u16_le(m.key_size));
    lemma_u16_at(b, 0, m.packet_type);
    lemma_u16_at(b, 2, m.flags);
    lemma_u16_at(b, 4, m.key_size);
    assert(b.subrange(6, 8) =~= m.generator);
    assert(b.subrange(8, 8 + k) =~= m.prime);
    assert(b.subrange(8 + k, 8 + 2 * k) =~= m.public_key);
    assert(b.subrange(8 + 2 * k, 40 + 2 * k) =~= m.nonce);
}

impl NowAuthSrdChallenge {
    pub fn new(
        key_size: u16,
        g_data: &[u8],
        prime: Vec<u8>,
        public_key: Vec<u8>,
        nonce: [u8; 32],
    ) -> (r: NowAuthSrdChallenge)
        requires
            g_data@.len() == 2,
        ensures
            r@ == (ChallengeModel {
                packet_type: NOW_AUTH_SRD_CHALLENGE_ID,
                flags: 0,
                key_size,
                generator: g_data@,
                prime: prime@,
                public_key: public_key@,
                nonce: nonce@,
            }),
    {
        let generator: [u8; 2] = [g_data[0], g_data[1]];
        assert(generator@ =~= g_data@);
        NowAuthSrdChallenge {
            packet_type: NOW_AUTH_SRD_CHALLENGE_ID,
            flags: 0,
            key_size,
            generator,
            prime,
            public_key,
            nonce,
        }
    }

    pub fn write_to(&self, buffer: &mut Vec<u8>)
        ensures
            final(buffer)@ == old(buffer)@ + challenge_bytes(self@),
    {
        let ghost start = buffer@;
        write_u16_le(buffer, self.packet_type);
        write_u16_le(buffer, self.flags);
        write_u16_le(buffer, self.key_size);
        write_u8(buffer, self.generator[0]);
        write_u8(buffer, self.generator[1]);
        write_all(buffer, self.prime.as_slice());
        write_all(buffer, self.public_key.as_slice());
        write_all(buffer, &self.nonce);
        assert(buffer@ =~= start + challenge_bytes(self@));
    }

    /// Reads a challenge from the start of `buffer`.
    pub fn read_from(buffer: &[u8]) -> (r: Result<NowAuthSrdChallenge, SrdError>)
        ensures
            match challenge_parse(buffer@) {
                Some(m) => r matches Ok(c) && c@ == m,
                None => r == Err::<NowAuthSrdChallenge, SrdError>(SrdError::Malformed),
            },
    {
        let len = buffer.len();
        if len < 8 {
            return Err(SrdError::Malformed);
        }
        let packet_type = read_u16_le(buffer, 0);
        let flags = read_u16_le(buffer, 2);
        let key_size = read_u16_le(buffer, 4);
        let k = key_size as usize;
        if len < 40 || (len - 40) / 2 < k {
            return Err(SrdError::Malformed);
        }
        let generator: [u8; 2] = [buffer[6], buffer[7]];
        assert(generator@ =~= buffer@.subrange(6, 8));
        let prime = read_bytes(buffer, 8, k);
        let public_key = read_bytes(buffer, 8 + k, k);
        let nonce = read_array32(buffer, 8 + 2 * k);
        Ok(NowAuthSrdChallenge { packet_type, flags, key_size, generator, prime, public_key, nonce })
    }

    /// Encoded length of the challenge.
    pub fn get_size(&self) -> (r: usize)
        ensures
            r == 40 + 2 * self.key_size,
    {
        40usize + self.key_size as usize * 2
    }

    pub fn get_id(&self) -> (r: u16)
        ensures
            r == NOW_AUTH_SRD_CHALLENGE_ID,
    {
        NOW_AUTH_SRD_CHALLENGE_ID
    }
}

} // verus!
