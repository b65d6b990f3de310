use vstd::prelude::*;
use crate::blob::{blob_bytes, blob_parse, blob_valid, lemma_blob_len, lemma_blob_round_trip, SrdBlob};
use crate::cipher::{
    decrypt_data, encrypt_data, key_material_ok, length_ok, plain_len_ok, spec_decrypt,
    spec_encrypt, CipherSuite,
};
use crate::error::SrdError;
use crate::mac::{compute_mac, mac_equal, spec_mac, views};
use crate::wire::{
    le_u32_at, lemma_u32_at, lemma_u32_le_of_read, read_array32, read_bytes, read_u32_le, u16_le,
    u32_le, write_all,
    write_u16_le, write_u32_le, write_u8, SRD_DELEGATE_MSG_ID, SRD_FLAG_MAC, SRD_SIGNATURE,
};

verus! {

/// DELEGATE: the encrypted credential blob.
#[derive(Debug, PartialEq, Eq, Clone)]
pub struct SrdDelegate {
    pub signature: u32,
    pub packet_type: u8,
    pub seq_num: u8,
    pub flags: u16,
    pub size: u32,
    pub encrypted_blob: Vec<u8>,
    pub mac: [u8; 32],
}

/// The fields of a DELEGATE message as mathematical values.
pub struct DelegateModel {
    pub signature: u32,
    pub packet_type: u8,
    pub seq_num: u8,
    pub flags: u16,
    pub size: u32,
    pub encrypted_blob: Seq<u8>,
    pub mac: Seq<u8>,
}

impl View for SrdDelegate {
    type V = DelegateModel;

    open spec fn view(&self) -> DelegateModel {
        DelegateModel {
            signature: self.signature,
            packet_type: self.packet_type,
            seq_num: self.seq_num,
            flags: self.flags,
            size: self.size,
            encrypted_blob: self.encrypted_blob@,
            mac: self.mac@,
        }
    }
}

/// A message that the framing can carry and read back unchanged.
pub open spec fn delegate_valid(m: DelegateModel) -> bool {
    &&& m.signature == SRD_SIGNATURE
    &&& 1 <= m.packet_type <= 6
    &&& m.encrypted_blob.len() == m.size
    &&& m.mac.len() == 32
}

/// The message without its MAC trailer.
pub open spec fn delegate_inner(m: DelegateModel) -> Seq<u8> {
    u32_le(m.signature) + seq![m.packet_type] + seq![m.seq_num] + u16_le(m.flags) + u32_le(m.size)
        + m.encrypted_blob
}

/// The message as it goes on the wire.
pub open spec fn delegate_bytes(m: DelegateModel) -> Seq<u8> {
    delegate_inner(m) + m.mac
}

/// What the decoder makes of `b`: `None` when the framing is wrong.
pub open spec fn delegate_parse(b: Seq<u8>) -> Option<DelegateModel> {
    if b.len() < 12 {
        None
    } else {
        let n = le_u32_at(b, 8) as int;
        if b.len() < 44 + n || le_u32_at(b, 0) != SRD_SIGNATURE || !(1 <= b[4] <= 6) {
            None
        } else {
            Some(
                DelegateModel {
                    signature: le_u32_at(b, 0),
                    packet_type: b[4],
                    seq_num: b[5],
                    flags: crate::wire::le_u16_at(b, 6),
                    size: le_u32_at(b, 8),
                    encrypted_blob: b.subrange(12, 12 + n),
                    mac: b.subrange(12 + n, 44 + n),
                },
            )
        }
    }
}

/// Decoding an encoded valid DELEGATE gives the same message back.
pub proof fn lemma_delegate_round_trip(m: DelegateModel)
    requires
        delegate_valid(m),
    ensures
        delegate_parse(delegate_bytes(m)) == Some(m),
{
    let b = delegate_bytes(m);
    let n = m.encrypted_blob.len() as int;
    assert(b.subrange(0, 4) =~= u32_le(m.signature));
    assert(b.subrange(6, 8) =~= u16_le(m.flags));
    assert(b.subrange(8, 12) =~= u32_le(m.size));
    lemma_u32_at(b, 0, m.signature);
    crate::wire::lemma_u16_at(b, 6, m.flags);
    lemma_u32_at(b, 8, m.size);
    assert(b.subrange(12, 12 + n) =~= m.encrypted_blob);
    assert(b.subrange(12 + n, 44 + n) =~= m.mac);
}

/// Encoding a decoded DELEGATE gives back exactly the bytes the decoder consumed.
pub proof fn lemma_delegate_reencode(b: Seq<u8>)
    requires
        delegate_parse(b) is Some,
    ensures
        delegate_bytes(delegate_parse(b)->0) == b.subrange(0, 44 + le_u32_at(b, 8) as int),
{
    let m = delegate_parse(b)->0;
    let n = le_u32_at(b, 8) as int;
    lemma_u32_le_of_read(b, 0);
    crate::wire::lemma_u16_le_of_read(b, 6);
    lemma_u32_le_of_read(b, 8);
    let e = delegate_bytes(m);
    assert forall|i: int| 0 <= i < 44 + n implies e[i] == b[i] by {
        if i < 4 {
            assert(e[i] == u32_le(m.signature)[i]);
            assert(b.subrange(0, 4)[i] == b[i]);
        } else if i < 6 {
        } else if i < 8 {
            assert(e[i] == u16_le(m.flags)[i - 6]);
            assert(b.subrange(6, 8)[i - 6] == b[i]);
        } else if i < 12 {
            assert(e[i] == u32_le(m.size)[i - 8]);
            assert(b.subrange(8, 12)[i - 8] == b[i]);
        }
    }
    assert(e =~= b.subrange(0, 44 + n));
}

/// How building a DELEGATE can fail: a blob too long for its length fields, or key
/// material too short for the cipher.
pub open spec fn delegate_new_error(
    blob: (Seq<u8>, Seq<u8>),
    cipher: CipherSuite,
    key: Seq<u8>,
    iv: Seq<u8>,
    e: SrdError,
) -> bool {
    e == SrdError::Malformed && (!blob_valid(blob.0, blob.1) || !key_material_ok(cipher, key, iv))
}

/// How opening a DELEGATE can fail: unusable key material or ciphertext length, or a
/// plaintext that is no credential blob.
pub open spec fn delegate_open_error(
    cipher: CipherSuite,
    data: Seq<u8>,
    key: Seq<u8>,
    iv: Seq<u8>,
    e: SrdError,
) -> bool {
    if !key_material_ok(cipher, key, iv) || !length_ok(cipher, data) {
        e == SrdError::Malformed
    } else {
        e == SrdError::Malformed && blob_parse(spec_decrypt(cipher, data, key, iv)) is None
    }
}

impl SrdDelegate {
    /// Encrypts `srd_blob` under `cipher` and frames it, with a MAC over
    /// `previous_messages` and the new message's inner bytes.
    pub fn new(
        seq_num: u8,
        srd_blob: &SrdBlob,
        cipher: CipherSuite,
        previous_messages: &[Vec<u8>],
        integrity_key: &[u8],
        delegation_key: &[u8],
        iv: &[u8],
    ) -> (r: Result<Self, SrdError>)
        ensures
            match r {
                Err(e) => delegate_new_error(srd_blob@, cipher, delegation_key@, iv@, e),
                Ok(d) => {
                    &&& blob_valid(srd_blob@.0, srd_blob@.1)
                    &&& key_material_ok(cipher, delegation_key@, iv@)
                    &&& d@.signature == SRD_SIGNATURE
                    &&& d@.packet_type == SRD_DELEGATE_MSG_ID
                    &&& d@.seq_num == seq_num
                    &&& d@.flags == SRD_FLAG_MAC
                    &&& d@.encrypted_blob == spec_encrypt(
                        cipher,
                        blob_bytes(srd_blob@.0, srd_blob@.1),
                        delegation_key@,
                        iv@,
                    )
                    &&& d@.encrypted_blob.len() == blob_bytes(srd_blob@.0, srd_blob@.1).len()
                    &&& d@.encrypted_blob.len() % 16 == 0
                    &&& d@.mac == spec_mac(
                        integrity_key@,
                        views(previous_messages@),
                        delegate_inner(d@),
                    )
                    &&& delegate_valid(d@)
                },
            },
    {
        if !srd_blob.is_valid() {
            return Err(SrdError::Malformed);
        }
        let mut v_blob: Vec<u8> = Vec::new();
        srd_blob.write_to(&mut v_blob);
        proof {
            lemma_blob_len(srd_blob@.0, srd_blob@.1);
        }
        let encrypted_blob = match encrypt_data(cipher, v_blob.as_slice(), delegation_key, iv) {
            Ok(v) => v,
            Err(e) => {
                return Err(e);
            },
        };
        let mut response = SrdDelegate {
            signature: SRD_SIGNATURE,
            packet_type: SRD_DELEGATE_MSG_ID,
            seq_num,
            flags: SRD_FLAG_MAC,
            size: encrypted_blob.len() as u32,
            encrypted_blob,
            mac: [0u8; 32],
        };
        let mut inner: Vec<u8> = Vec::new();
        response.write_inner_buffer(&mut inner);
        let mac = compute_mac(previous_messages, inner.as_slice(), integrity_key);
        response.mac = mac;
        assert(delegate_inner(response@) == inner@);
        Ok(response)
    }

    /// Decrypts the blob and reads the credentials from it.
    pub fn get_data(&self, cipher: CipherSuite, key: &[u8], iv: &[u8]) -> (r: Result<
        SrdBlob,
        SrdError,
    >)
        ensures
            match r {
                Err(e) => delegate_open_error(cipher, self.encrypted_blob@, key@, iv@, e),
                Ok(b) => {
                    &&& key_material_ok(cipher, key@, iv@)
                    &&& length_ok(cipher, self.encrypted_blob@)
                    &&& blob_parse(spec_decrypt(cipher, self.encrypted_blob@, key@, iv@)) == Some(
                        b@,
                    )
                },
            },
            forall|u: Seq<u8>, p: Seq<u8>|
                #![trigger spec_encrypt(cipher, blob_bytes(u, p), key@, iv@)]
                blob_valid(u, p) && key_material_ok(cipher, key@, iv@) && length_ok(
                    cipher,
                    self.encrypted_blob@,
                ) && self.encrypted_blob@ == spec_encrypt(cipher, blob_bytes(u, p), key@, iv@)
                    ==> (r matches Ok(b) && b@ == (u, p)),
    {
        let buffer = decrypt_data(cipher, self.encrypted_blob.as_slice(), key, iv)?;
        let r = SrdBlob::read_from(buffer.as_slice());
        assert forall|u: Seq<u8>, p: Seq<u8>|
            #![trigger spec_encrypt(cipher, blob_bytes(u, p), key@, iv@)]
            blob_valid(u, p) && key_material_ok(cipher, key@, iv@) && length_ok(
                cipher,
                self.encrypted_blob@,
            ) && self.encrypted_blob@ == spec_encrypt(cipher, blob_bytes(u, p), key@, iv@)
                implies (r matches Ok(b) && b@ == (u, p)) by {
            lemma_blob_len(u, p);
            lemma_blob_round_trip(u, p);
            assert(plain_len_ok(cipher, blob_bytes(u, p)));
            assert(buffer@ == blob_bytes(u, p));
        }
        r
    }

    /// The responder's handling of DELEGATE: the MAC is checked first, and only a message
    /// whose MAC matches the transcript is decrypted.
    pub fn open(
        &self,
        previous_messages: &[Vec<u8>],
        integrity_key: &[u8],
        cipher: CipherSuite,
        delegation_key: &[u8],
        iv: &[u8],
    ) -> (r: Result<SrdBlob, SrdError>)
        ensures
            self.mac@ != spec_mac(integrity_key@, views(previous_messages@), delegate_inner(self@))
                <==> r == Err::<SrdBlob, SrdError>(SrdError::MacFailure),
            self.mac@ == spec_mac(integrity_key@, views(previous_messages@), delegate_inner(self@))
                ==> match r {
                Err(e) => delegate_open_error(cipher, self.encrypted_blob@, delegation_key@, iv@, e),
                Ok(b) => {
                    &&& key_material_ok(cipher, delegation_key@, iv@)
                    &&& length_ok(cipher, self.encrypted_blob@)
                    &&& blob_parse(spec_decrypt(cipher, self.encrypted_blob@, delegation_key@, iv@))
                        == Some(b@)
                },
            },
    {
        let mut inner: Vec<u8> = Vec::new();
        self.write_inner_buffer(&mut inner);
        assert(inner@ == delegate_inner(self@));
        let expected = compute_mac(previous_messages, inner.as_slice(), integrity_key);
        if !mac_equal(&expected, &self.mac) {
            return Err(SrdError::MacFailure);
        }
        self.get_data(cipher, delegation_key, iv)
    }

    /// Appends the message without its MAC trailer.
    pub fn write_inner_buffer(&self, buffer: &mut Vec<u8>)
        ensures
            final(buffer)@ == old(buffer)@ + delegate_inner(self@),
    {
        let ghost start = buffer@;
        write_u32_le(buffer, self.signature);
        write_u8(buffer, self.packet_type);
        write_u8(buffer, self.seq_num);
        write_u16_le(buffer, self.flags);
        write_u32_le(buffer, self.size);
        write_all(buffer, self.encrypted_blob.as_slice());
        assert(buffer@ =~= start + delegate_inner(self@));
    }

    /// Appends the whole message, MAC trailer included.
    pub fn write_to(&self, buffer: &mut Vec<u8>)
        ensures
            final(buffer)@ == old(buffer)@ + delegate_bytes(self@),
    {
        let ghost start = buffer@;
        self.write_inner_buffer(buffer);
        write_all(buffer, &self.mac);
        assert(buffer@ =~= start + delegate_bytes(self@));
    }

    /// Reads a DELEGATE from the start of `buffer`; bytes after it are left alone.
    pub fn read_from(buffer: &[u8]) -> (r: Result<Self, SrdError>)
        ensures
            match delegate_parse(buffer@) {
                Some(m) => r matches Ok(d) && d@ == m,
                None => r == Err::<Self, SrdError>(SrdError::Malformed),
            },
    {
        let len = buffer.len();
        if len < 12 {
            return Err(SrdError::Malformed);
        }
        let signature = read_u32_le(buffer, 0);
        let packet_type = buffer[4];
        let seq_num = buffer[5];
        let flags = crate::wire::read_u16_le(buffer, 6);
        let size = read_u32_le(buffer, 8);
        let n = size as usize;
        if len < 44 || len - 44 < n || signature != SRD_SIGNATURE || packet_type < 1 || packet_type
            > 6 {
            return Err(SrdError::Malformed);
        }
        let encrypted_blob = read_bytes(buffer, 12, n);
        let mac = read_array32(buffer, 12 + n);
        Ok(SrdDelegate { signature, packet_type, seq_num, flags, size, encrypted_blob, mac })
    }

    pub fn id(&self) -> (r: u8)
        ensures
            r == SRD_DELEGATE_MSG_ID,
    {
        SRD_DELEGATE_MSG_ID
    }

    pub fn signature(&self) -> (r: u32)
        ensures
            r == self.signature,
    {
        self.signature
    }

    pub fn seq_num(&self) -> (r: u8)
        ensures
            r == self.seq_num,
    {
        self.seq_num
    }

    pub fn mac(&self) -> (r: &[u8; 32])
        ensures
            r@ == self.mac@,
    {
        &self.mac
    }

    pub fn set_mac(&mut self, mac: &[u8; 32])
        ensures
            final(self)@ == (DelegateModel { mac: mac@, ..old(self)@ }),
    {
        self.mac = *mac;
    }
}

} // verus!
