use vstd::prelude::*;
use vstd::utf8::encode_utf8;

use crate::compress::{
    deflate_encoder_new, deflate_finish, deflate_output, deflate_write_all,
};
use crate::crc::{crc32, crc32_step};
use crate::mt::{
    lemma_fresh_can_draw, lemma_fresh_step, mt_outputs, mt_state_after, MersenneTwister,
};

verus! {

/// The three 32-bit keys of the traditional PKWARE stream cipher.
pub struct CipherKeys {
    pub key_0: u32,
    pub key_1: u32,
    pub key_2: u32,
}

/// The keys a cipher starts from before the password is fed in.
pub open spec fn initial_keys() -> CipherKeys {
    CipherKeys { key_0: 0x12345678, key_1: 0x23456789, key_2: 0x34567890 }
}

/// The keys after feeding one plaintext byte: key 0 takes a CRC-32 step,
/// key 1 mixes in the low byte of key 0 with 32-bit wrapping arithmetic, and
/// key 2 takes a CRC-32 step with the top byte of key 1.
pub open spec fn keys_update(k: CipherKeys, b: u8) -> CipherKeys {
    let k0 = crc32_step(k.key_0, b);
    let k1 = k.key_1.wrapping_add(k0 & 0xff).wrapping_mul(0x08088405).wrapping_add(1);
    let k2 = crc32_step(k.key_2, (k1 >> 24u32) as u8);
    CipherKeys { key_0: k0, key_1: k1, key_2: k2 }
}

/// The keys after feeding all of `data`, in order.
pub open spec fn keys_after(k: CipherKeys, data: Seq<u8>) -> CipherKeys
    decreases data.len(),
{
    if data.len() == 0 {
        k
    } else {
        keys_update(keys_after(k, data.drop_last()), data.last())
    }
}

/// The keystream byte for the current keys: bits 8 to 15 of the 16-bit
/// product `t * (t ^ 1)`, where `t` is the low half of key 2 with bit 1 set.
pub open spec fn stream_byte(k: CipherKeys) -> u8 {
    let t: u16 = (k.key_2 as u16) | 2u16;
    (t.wrapping_mul(t ^ 1u16) >> 8u16) as u8
}

/// Runs the cipher over `buf` from keys `k`. Each output byte is the input
/// byte xor the keystream byte; the keys are then updated with the
/// plaintext byte, which is the input byte when encrypting (`enc`) and the
/// output byte when decrypting. Gives the final keys and the output.
pub open spec fn cipher(k: CipherKeys, buf: Seq<u8>, enc: bool) -> (CipherKeys, Seq<u8>)
    decreases buf.len(),
{
    if buf.len() == 0 {
        (k, seq![])
    } else {
        let prev = cipher(k, buf.drop_last(), enc);
        let b = buf.last();
        let s = stream_byte(prev.0);
        let plain = if enc {
            b
        } else {
            b ^ s
        };
        (keys_update(prev.0, plain), prev.1.push(b ^ s))
    }
}

/// The twelve-byte encryption header for `seed` and `crc`: eleven bytes
/// drawn from a generator seeded with `seed` (the low byte of each draw),
/// then the top byte of the CRC-32, which unzip uses to check the password.
pub open spec fn header_bytes(seed: u32, crc: u32) -> Seq<u8> {
    mt_outputs(seed, 11).map_values(|o: u32| (o & 0xff) as u8).push(((crc >> 24u32) & 0xff) as u8)
}

/// What `encrypt` produces from the cipher state (`seed`, `keys`): the keys
/// take in the UTF-8 bytes of the password, then the header followed by the
/// data is encrypted. Gives the final keys and the encrypted bytes.
pub open spec fn encrypt_result(
    seed: u32,
    keys: CipherKeys,
    file: Seq<u8>,
    passwd: Seq<char>,
    crc: u32,
) -> (CipherKeys, Seq<u8>) {
    cipher(keys_after(keys, encode_utf8(passwd)), header_bytes(seed, crc) + file, true)
}

/// The traditional PKWARE (ZipCrypto) encryption of one archive member.
pub struct ZipCrypto {
    seed: u32,
    key_0: u32,
    key_1: u32,
    key_2: u32,
}

impl View for ZipCrypto {
    /// The seed of the encryption header and the current keys.
    type V = (u32, CipherKeys);

    closed spec fn view(&self) -> (u32, CipherKeys) {
        (self.seed, CipherKeys { key_0: self.key_0, key_1: self.key_1, key_2: self.key_2 })
    }
}

impl ZipCrypto {
    /// A cipher whose encryption header is drawn with `seed`, with the keys
    /// at their initial values.
    pub fn new(seed: u32) -> (zc: ZipCrypto)
        ensures
            zc@ == (seed, initial_keys()),
    {
        ZipCrypto { seed, key_0: 0x12345678, key_1: 0x23456789, key_2: 0x34567890 }
    }

    /// Compresses the chunks, written one after the other, into a raw
    /// DEFLATE stream at compression `level`.
    pub fn deflate_encode_raw_stream(level: u32, file_raw: Vec<Vec<u8>>) -> (out: Vec<u8>)
        requires
            level <= 10,
        ensures
            out@ == deflate_output(level, file_raw@.map_values(|c: Vec<u8>| c@)),
    {
        let mut e = deflate_encoder_new(level);
        let mut i: usize = 0;
        while i < file_raw.len()
            invariant
                i <= file_raw@.len(),
                crate::compress::deflate_level(e) == level,
                crate::compress::deflate_written(e) == file_raw@.take(i as int).map_values(
                    |c: Vec<u8>| c@,
                ),
            decreases file_raw@.len() - i,
        {
            deflate_write_all(&mut e, file_raw[i].as_slice());
            assert(file_raw@.take(i + 1).map_values(|c: Vec<u8>| c@) =~= file_raw@.take(
                i as int,
            ).map_values(|c: Vec<u8>| c@).push(file_raw@[i as int]@));
            i += 1;
        }
        assert(file_raw@.take(file_raw@.len() as int) =~= file_raw@);
        deflate_finish(e)
    }

    /// Compresses `file_raw`, written in one piece, into a raw DEFLATE
    /// stream at compression `level`.
    pub fn deflate_encode_raw(level: u32, file_raw: Vec<u8>) -> (out: Vec<u8>)
        requires
            level <= 10,
        ensures
            out@ == deflate_output(level, seq![file_raw@]),
    {
        let mut e = deflate_encoder_new(level);
        deflate_write_all(&mut e, file_raw.as_slice());
        assert(Seq::<Seq<u8>>::empty().push(file_raw@) =~= seq![file_raw@]);
        deflate_finish(e)
    }

    /// Feeds one plaintext byte into the keys.
    pub fn update(&mut self, input: u8)
        ensures
            final(self)@ == (old(self)@.0, keys_update(old(self)@.1, input)),
    {
        self.key_0 = crc32(self.key_0, input);
        self.key_1 = self.key_1.wrapping_add(self.key_0 & 0xff).wrapping_mul(0x08088405).wrapping_add(
            1,
        );
        self.key_2 = crc32(self.key_2, (self.key_1 >> 24) as u8);
    }

    /// The keystream byte for the current keys.
    pub fn decrypt_key(&mut self) -> (b: u8)
        ensures
            final(self)@ == old(self)@,
            b == stream_byte(old(self)@.1),
    {
        let k2: u32 = self.key_2;
        let temp: u16 = (k2 as u16 | 2) & 0xffff;
        assert((k2 as u16 | 2u16) & 0xffffu16 == (k2 as u16 | 2u16)) by (bit_vector);
        (temp.wrapping_mul(temp ^ 1) >> 8) as u8
    }

    /// Runs the cipher over `buf`: encrypts when `enc_type` holds, decrypts
    /// otherwise.
    pub fn upd(&mut self, buf: Vec<u8>, enc_type: bool) -> (out: Vec<u8>)
        ensures
            final(self)@.0 == old(self)@.0,
            (final(self)@.1, out@) == cipher(old(self)@.1, buf@, enc_type),
    {
        let mut out_buf: Vec<u8> = vec![];
        let mut i: usize = 0;
        while i < buf.len()
            invariant
                i <= buf@.len(),
                self@.0 == old(self)@.0,
                (self@.1, out_buf@) == cipher(old(self)@.1, buf@.take(i as int), enc_type),
            decreases buf@.len() - i,
        {
            let mut byte = buf[i];
            let stream = self.decrypt_key();
            if !enc_type {
                byte ^= stream;
            }
            self.update(byte);
            if enc_type {
                byte ^= stream;
            }
            out_buf.push(byte);
            assert(buf@.take(i + 1).drop_last() =~= buf@.take(i as int));
            i += 1;
        }
        assert(buf@.take(buf@.len() as int) =~= buf@);
        out_buf
    }

    /// The twelve-byte encryption header for this cipher's seed and `crc`.
    pub fn random_header(&mut self, crc: u32) -> (header: Vec<u8>)
        ensures
            final(self)@ == old(self)@,
            header@ == header_bytes(old(self)@.0, crc),
    {
        let mut mt = MersenneTwister::new(self.seed);
        let mut i: Vec<u8> = Vec::with_capacity(12);
        let mut counter: usize = 0;
        while counter < 11
            invariant
                counter <= 11,
                mt@ == (mt_state_after(self.seed, counter as nat), counter as nat),
                i@ == mt_outputs(self.seed, counter as nat).map_values(|o: u32| (o & 0xff) as u8),
            decreases 11 - counter,
        {
            proof {
                lemma_fresh_can_draw(self.seed, counter as nat);
                lemma_fresh_step(self.seed, counter as nat);
            }
            counter += 1;
            i.push((mt.next() & 0xff) as u8);
            assert(i@ =~= mt_outputs(self.seed, counter as nat).map_values(
                |o: u32| (o & 0xff) as u8,
            ));
        }
        i.push(((crc >> 24) & 0xff) as u8);
        i
    }

    /// Encrypts `file_raw` with password `passwd`: the password's UTF-8
    /// bytes are fed into the keys, then the encryption header (whose last
    /// byte is the top byte of `crc32`) and the data are encrypted.
    pub fn encrypt(&mut self, file_raw: &[u8], passwd: &str, crc32: u32) -> (out: Vec<u8>)
        ensures
            final(self)@.0 == old(self)@.0,
            (final(self)@.1, out@) == encrypt_result(
                old(self)@.0,
                old(self)@.1,
                file_raw@,
                passwd@,
                crc32,
            ),
    {
        let bytes = passwd.as_bytes();
        let mut k: usize = 0;
        while k < bytes.len()
            invariant
                k <= bytes@.len(),
                bytes@ == encode_utf8(passwd@),
                self@ == (old(self)@.0, keys_after(old(self)@.1, bytes@.take(k as int))),
            decreases bytes@.len() - k,
        {
            self.update(bytes[k]);
            assert(bytes@.take(k + 1).drop_last() =~= bytes@.take(k as int));
            k += 1;
        }
        assert(bytes@.take(bytes@.len() as int) =~= bytes@);
        let random_header = self.random_header(crc32);
        let ghost k1 = self@.1;
        let mut encrypt_header = self.upd(random_header, true);
        let ghost k2 = self@.1;
        let mut encrypt_body: Vec<u8> = self.upd(vstd::slice::slice_to_vec(file_raw), true);
        let mut encrypt: Vec<u8> = vec![];
        encrypt.append(&mut encrypt_header);
        encrypt.append(&mut encrypt_body);
        proof {
            lemma_cipher_concat(k1, header_bytes(old(self)@.0, crc32), file_raw@, true);
        }
        encrypt
    }
}

/// Feeding one more byte into the keys updates them with exactly that byte:
/// every byte of a password, however long, reaches the keys.
pub proof fn lemma_keys_after_push(k: CipherKeys, data: Seq<u8>, b: u8)
    ensures
        keys_after(k, data.push(b)) == keys_update(keys_after(k, data), b),
{
    assert(data.push(b).drop_last() =~= data);
}

/// Feeding `a` then `b` into the keys is feeding `a + b`.
pub proof fn lemma_keys_after_concat(k: CipherKeys, a: Seq<u8>, b: Seq<u8>)
    ensures
        keys_after(k, a + b) == keys_after(keys_after(k, a), b),
    decreases b.len(),
{
    if b.len() == 0 {
        assert(a + b =~= a);
    } else {
        lemma_keys_after_concat(k, a, b.drop_last());
        assert((a + b).drop_last() =~= a + b.drop_last());
    }
}

/// `encrypt` first feeds the whole password into the keys, one UTF-8 byte
/// after another, and then encrypts the header and the data from there:
/// the keys it encrypts with are those of the password's first `n` bytes
/// with the remaining bytes fed in after, for every split point `n`.
pub proof fn lemma_encrypt_uses_whole_password(
    seed: u32,
    keys: CipherKeys,
    file: Seq<u8>,
    passwd: Seq<char>,
    crc: u32,
    n: int,
)
    requires
        0 <= n <= encode_utf8(passwd).len(),
    ensures
        encrypt_result(seed, keys, file, passwd, crc) == cipher(
            keys_after(keys_after(keys, encode_utf8(passwd).take(n)), encode_utf8(passwd).skip(n)),
            header_bytes(seed, crc) + file,
            true,
        ),
{
    let pw = encode_utf8(passwd);
    assert(pw.take(n) + pw.skip(n) =~= pw);
    lemma_keys_after_concat(keys, pw.take(n), pw.skip(n));
}

/// Running the cipher over `a + b` is running it over `a`, then over `b`
/// from the keys where the first run ended.
pub proof fn lemma_cipher_concat(k: CipherKeys, a: Seq<u8>, b: Seq<u8>, enc: bool)
    ensures
        cipher(k, a + b, enc) == (
            cipher(cipher(k, a, enc).0, b, enc).0,
            cipher(k, a, enc).1 + cipher(cipher(k, a, enc).0, b, enc).1,
        ),
    decreases b.len(),
{
    if b.len() == 0 {
        assert(a + b =~= a);
    } else {
        lemma_cipher_concat(k, a, b.drop_last(), enc);
        assert((a + b).drop_last() =~= a + b.drop_last());
        let mid = cipher(k, a, enc).0;
        let r = cipher(mid, b.drop_last(), enc);
        assert(cipher(k, a, enc).1 + r.1.push(b.last() ^ stream_byte(r.0)) =~= (cipher(k, a, enc).1
            + r.1).push(b.last() ^ stream_byte(r.0)));
    }
}

/// The cipher emits one byte per input byte.
pub proof fn lemma_cipher_len(k: CipherKeys, buf: Seq<u8>, enc: bool)
    ensures
        cipher(k, buf, enc).1.len() == buf.len(),
    decreases buf.len(),
{
    if buf.len() > 0 {
        lemma_cipher_len(k, buf.drop_last(), enc);
    }
}

/// The encrypted member is the twelve-byte header followed by as many bytes
/// as the data.
pub proof fn lemma_encrypt_len(seed: u32, keys: CipherKeys, file: Seq<u8>, passwd: Seq<char>, crc: u32)
    ensures
        header_bytes(seed, crc).len() == 12,
        encrypt_result(seed, keys, file, passwd, crc).1.len() == 12 + file.len(),
{
    crate::mt::lemma_outputs_len(seed, 11);
    lemma_cipher_len(keys_after(keys, encode_utf8(passwd)), header_bytes(seed, crc) + file, true);
}

/// Decryption undoes encryption: running the cipher in decrypt mode, from
/// the same keys, over the encrypted bytes gives back the plaintext and
/// ends in the same keys.
pub proof fn lemma_decrypt_inverts_encrypt(k: CipherKeys, buf: Seq<u8>)
    ensures
        cipher(k, cipher(k, buf, true).1, false) == (cipher(k, buf, true).0, buf),
    decreases buf.len(),
{
    if buf.len() > 0 {
        let e = cipher(k, buf, true);
        let prev = cipher(k, buf.drop_last(), true);
        lemma_decrypt_inverts_encrypt(k, buf.drop_last());
        assert(e.1.drop_last() =~= prev.1);
        let b = buf.last();
        let s = stream_byte(prev.0);
        assert((b ^ s) ^ s == b) by (bit_vector);
        assert(buf.drop_last().push(b) =~= buf);
    }
}

/// What `encrypt` produced decrypts, from the keys the same password gives,
/// to the encryption header followed by the data; the header is twelve
/// bytes and its last byte is the top byte of the CRC-32, the byte unzip
/// compares to check the password.
pub proof fn lemma_encrypt_decrypts(
    seed: u32,
    keys: CipherKeys,
    file: Seq<u8>,
    passwd: Seq<char>,
    crc: u32,
)
    ensures
        cipher(
            keys_after(keys, encode_utf8(passwd)),
            encrypt_result(seed, keys, file, passwd, crc).1,
            false,
        ).1 == header_bytes(seed, crc) + file,
        header_bytes(seed, crc).len() == 12,
        header_bytes(seed, crc)[11] == ((crc >> 24u32) & 0xff) as u8,
{
    lemma_decrypt_inverts_encrypt(keys_after(keys, encode_utf8(passwd)), header_bytes(seed, crc) + file);
    lemma_encrypt_len(seed, keys, file, passwd, crc);
}

} // verus!
