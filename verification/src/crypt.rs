//! The archive cipher: a fixed 1280-entry key table, the name hash derived
//! from it, and decryption of 32-bit-aligned blobs.

use vstd::prelude::*;

use crate::errors::Error;

verus! {

/// The seed that starts the key-table construction.
pub const CRYPT_SEED: u32 = 0x0010_0001;

/// Truncates a non-negative integer to 32 bits.
pub open spec fn wrap32(x: int) -> u32 {
    (x % 0x1_0000_0000) as u32
}

/// One step of the key-table seed recurrence.
pub open spec fn seed_step(seed: u32) -> u32 {
    ((seed * 125 + 3) % 0x2AAAAB) as u32
}

/// The seed after `n` steps of the recurrence.
pub open spec fn seed_at(n: nat) -> u32
    decreases n,
{
    if n == 0 {
        CRYPT_SEED
    } else {
        seed_step(seed_at((n - 1) as nat))
    }
}

/// The key-table entry at position `k`. Entry `slot * 256 + i` is built from
/// the two seed steps numbered `2 * (5 * i + slot) + 1` and `+ 2`: the first
/// supplies the high 16 bits, the second the low 16 bits.
pub open spec fn table_entry(k: int) -> u32 {
    let i = k % 256;
    let slot = k / 256;
    let n0 = 2 * (5 * i + slot);
    ((seed_at((n0 + 1) as nat) & 0xFFFF) << 16) | (seed_at((n0 + 2) as nat) & 0xFFFF)
}

/// The whole 1280-entry key table.
pub open spec fn crypt_table() -> Seq<u32> {
    Seq::new(1280, |k: int| table_entry(k))
}

/// Advances the key-table seed by one step.
fn advance_seed(seed: u32) -> (r: u32)
    ensures
        r == seed_step(seed),
        r < 0x2AAAAB,
{
    ((seed as u64 * 125 + 3) % 0x2AAAAB) as u32
}

/// Builds the key table; the result is exactly `crypt_table()`.
pub fn build_crypt_table() -> (t: Vec<u32>)
    ensures
        t@ == crypt_table(),
{
    let mut table: Vec<u32> = vec![0u32; 1280];
    let mut seed: u32 = CRYPT_SEED;
    let mut i: usize = 0;
    while i < 256
        invariant
            i <= 256,
            table@.len() == 1280,
            seed == seed_at((10 * i) as nat),
            forall|k: int|
                0 <= k < 1280 && k % 256 < i ==> #[trigger] table@[k] == table_entry(k),
        decreases 256 - i,
    {
        let mut slot: usize = 0;
        while slot < 5
            invariant
                i < 256,
                slot <= 5,
                table@.len() == 1280,
                seed == seed_at((10 * i + 2 * slot) as nat),
                forall|k: int|
                    0 <= k < 1280 && (k % 256 < i || (k % 256 == i && k / 256 < slot))
                        ==> #[trigger] table@[k] == table_entry(k),
            decreases 5 - slot,
        {
            let s1 = advance_seed(seed);
            let hi: u32 = (s1 & 0xFFFF) << 16;
            let s2 = advance_seed(s1);
            let lo: u32 = s2 & 0xFFFF;
            let idx: usize = slot * 256 + i;
            proof {
                assert(idx as int % 256 == i as int);
                assert(idx as int / 256 == slot as int);
                assert(10 * i + 2 * slot == 2 * (5 * i + slot));
                assert(s1 == seed_at((2 * (5 * (i as int) + slot as int) + 1) as nat));
                assert(s2 == seed_at((2 * (5 * (i as int) + slot as int) + 2) as nat));
            }
            table.set(idx, hi | lo);
            assert(table@[idx as int] == table_entry(idx as int));
            seed = s2;
            slot = slot + 1;
        }
        i = i + 1;
    }
    proof {
        assert(table@ =~= crypt_table());
    }
    table
}

/// The four hash kinds: the two probe hashes, the table-offset hash, and the
/// hash used to derive a table decryption key.
#[derive(Debug, Clone, Copy, PartialEq, Eq, Structural)]
pub enum HashKind {
    /// Selects row 0 of the key table; used to derive per-entry keys.
    TableOffset,
    /// Selects row 1; the first probe hash.
    NameA,
    /// Selects row 2; the second probe hash.
    NameB,
    /// Selects row 3; used to key the hash- and block-table ciphers.
    TableKey,
}

impl HashKind {
    /// The row this kind selects in the key table.
    pub open spec fn as_int(self) -> int {
        match self {
            HashKind::TableOffset => 0,
            HashKind::NameA => 1,
            HashKind::NameB => 2,
            HashKind::TableKey => 3,
        }
    }

    /// The row this kind selects, as a machine integer.
    pub fn index(self) -> (r: usize)
        ensures
            r == self.as_int(),
    {
        match self {
            HashKind::TableOffset => 0,
            HashKind::NameA => 1,
            HashKind::NameB => 2,
            HashKind::TableKey => 3,
        }
    }
}

/// The byte the hash actually consumes: ASCII letters are uppercased and a
/// forward slash counts as a backslash.
pub open spec fn spec_canon_byte(b: u8) -> u8 {
    if b == 0x2F {
        0x5C
    } else if 0x61 <= b && b <= 0x7A {
        (b - 0x20) as u8
    } else {
        b
    }
}

/// Canonicalizes one name byte for hashing.
pub fn canon_byte(b: u8) -> (r: u8)
    ensures
        r == spec_canon_byte(b),
{
    if b == 0x2F {
        0x5C
    } else if b >= 0x61 && b <= 0x7A {
        b - 0x20
    } else {
        b
    }
}

/// One step of the name hash: mixes the canonicalized byte into the state.
pub open spec fn hash_step(s1: u32, s2: u32, kind: int, b: u8) -> (u32, u32) {
    let c = spec_canon_byte(b);
    let v = crypt_table()[kind * 256 + c];
    let ns1 = v ^ wrap32(s1 + s2);
    let ns2 = wrap32(c + ns1 + s2 + (s2 << 5) + 3);
    (ns1, ns2)
}

/// The hash state after consuming the whole name.
pub open spec fn hash_fold(name: Seq<u8>, kind: int) -> (u32, u32)
    decreases name.len(),
{
    if name.len() == 0 {
        (0x7FED7FEDu32, 0xEEEEEEEEu32)
    } else {
        let prev = hash_fold(name.drop_last(), kind);
        hash_step(prev.0, prev.1, kind, name.last())
    }
}

/// The name hash of `name` under hash kind `kind`.
pub open spec fn hash_of(name: Seq<u8>, kind: int) -> u32 {
    hash_fold(name, kind).0
}

proof fn lemma_hash_fold_canon_eq(a: Seq<u8>, b: Seq<u8>, kind: int)
    requires
        a.len() == b.len(),
        forall|i: int| 0 <= i < a.len() ==> spec_canon_byte(a[i]) == spec_canon_byte(b[i]),
    ensures
        hash_fold(a, kind) == hash_fold(b, kind),
    decreases a.len(),
{
    if a.len() > 0 {
        assert forall|i: int| 0 <= i < a.drop_last().len() implies spec_canon_byte(
            a.drop_last()[i],
        ) == spec_canon_byte(b.drop_last()[i]) by {
            assert(a.drop_last()[i] == a[i]);
            assert(b.drop_last()[i] == b[i]);
        }
        lemma_hash_fold_canon_eq(a.drop_last(), b.drop_last(), kind);
        assert(spec_canon_byte(a.last()) == spec_canon_byte(b.last()));
    }
}

/// The name hash never distinguishes two names whose bytes agree after
/// canonicalization: ASCII case and the choice between `/` and `\` do not
/// matter.
pub proof fn lemma_hash_ignores_case_and_slashes(a: Seq<u8>, b: Seq<u8>, kind: int)
    requires
        a.len() == b.len(),
        forall|i: int| 0 <= i < a.len() ==> spec_canon_byte(a[i]) == spec_canon_byte(b[i]),
    ensures
        hash_of(a, kind) == hash_of(b, kind),
{
    lemma_hash_fold_canon_eq(a, b, kind);
}

/// One word of decryption: from the state `(s1, s2)` and the cipher word `w`,
/// the plain word and the next state.
pub open spec fn decrypt_word_step(s1: u32, s2: u32, w: u32) -> (u32, u32, u32) {
    let v = crypt_table()[0x400 + (s1 & 0xFF)];
    let s2a = wrap32(s2 + v);
    let out = w ^ wrap32(s1 + s2a);
    let ns1 = wrap32(((!s1) << 21) + 0x11111111) | (s1 >> 11);
    let ns2 = wrap32(out + s2a + (s2a << 5) + 3);
    (out, ns1, ns2)
}

/// Decrypts a sequence of words under `key`: the plain words and the final
/// state.
pub open spec fn decrypt_words(ws: Seq<u32>, key: u32) -> (Seq<u32>, u32, u32)
    decreases ws.len(),
{
    if ws.len() == 0 {
        (Seq::<u32>::empty(), key, 0xEEEEEEEEu32)
    } else {
        let prev = decrypt_words(ws.drop_last(), key);
        let step = decrypt_word_step(prev.1, prev.2, ws.last());
        (prev.0.push(step.0), step.1, step.2)
    }
}

/// The little-endian word at word position `i`.
pub open spec fn word_at(s: Seq<u8>, i: int) -> u32 {
    crate::bytes::le32(s, 4 * i)
}

/// A byte string, grouped into little-endian words.
pub open spec fn words_of(s: Seq<u8>) -> Seq<u32> {
    Seq::new((s.len() / 4) as nat, |i: int| word_at(s, i))
}

/// The four little-endian bytes of a word.
pub open spec fn word_bytes(w: u32) -> Seq<u8> {
    seq![
        (w & 0xFF) as u8,
        ((w >> 8) & 0xFF) as u8,
        ((w >> 16) & 0xFF) as u8,
        ((w >> 24) & 0xFF) as u8,
    ]
}

/// A word sequence, flattened back to little-endian bytes.
pub open spec fn words_bytes(ws: Seq<u32>) -> Seq<u8>
    decreases ws.len(),
{
    if ws.len() == 0 {
        Seq::<u8>::empty()
    } else {
        words_bytes(ws.drop_last()) + word_bytes(ws.last())
    }
}

/// The decryption of a 32-bit-aligned byte string under `key`.
pub open spec fn decrypt_bytes(data: Seq<u8>, key: u32) -> Seq<u8> {
    words_bytes(decrypt_words(words_of(data), key).0)
}

/// The key table, built once and carried by every archive.
pub struct CryptTable {
    table: Vec<u32>,
}

impl CryptTable {
    /// The table holds exactly the 1280 specified entries.
    pub closed spec fn wf(&self) -> bool {
        self.table@ == crypt_table()
    }

    /// Builds the table.
    pub fn new() -> (r: CryptTable)
        ensures
            r.wf(),
    {
        CryptTable { table: build_crypt_table() }
    }

    /// Hashes a name under the given hash kind.
    pub fn hash_name(&self, name: &[u8], kind: HashKind) -> (r: u32)
        requires
            self.wf(),
        ensures
            r == hash_of(name@, kind.as_int()),
    {
        let kidx = kind.index();
        let mut s1: u32 = 0x7FED7FED;
        let mut s2: u32 = 0xEEEEEEEE;
        let mut j: usize = 0;
        while j < name.len()
            invariant
                self.wf(),
                kidx == kind.as_int(),
                j <= name@.len(),
                (s1, s2) == hash_fold(name@.take(j as int), kind.as_int()),
            decreases name@.len() - j,
        {
            proof {
                assert(self.table@.len() == 1280);
            }
            let c = canon_byte(name[j]);
            let idx: usize = kidx * 256 + (c as usize);
            let v = self.table[idx];
            let t: u64 = s1 as u64 + s2 as u64;
            let ns1: u32 = v ^ ((t % 0x1_0000_0000) as u32);
            let sh: u32 = s2 << 5;
            let sum: u64 = c as u64 + ns1 as u64 + s2 as u64 + sh as u64 + 3;
            let ns2: u32 = (sum % 0x1_0000_0000) as u32;
            proof {
                assert(name@.take(j + 1).drop_last() =~= name@.take(j as int));
                assert(name@.take(j + 1).last() == name@[j as int]);
            }
            s1 = ns1;
            s2 = ns2;
            j = j + 1;
        }
        proof {
            assert(name@.take(j as int) =~= name@);
        }
        s1
    }

    /// Decrypts a blob whose length is a multiple of four bytes; a blob of
    /// any other length is rejected.
    pub fn decrypt(&self, data: &[u8], key: u32) -> (r: Result<Vec<u8>, Error>)
        requires
            self.wf(),
        ensures
            data@.len() % 4 == 0 ==> (r matches Ok(v) && v@ == decrypt_bytes(data@, key)
                && v@.len() == data@.len()),
            data@.len() % 4 != 0 ==> r == Err::<Vec<u8>, Error>(Error::CorruptData),
    {
        if data.len() % 4 != 0 {
            return Err(Error::CorruptData);
        }
        let n: usize = data.len() / 4;
        let mut out: Vec<u8> = Vec::new();
        let mut s1: u32 = key;
        let mut s2: u32 = 0xEEEEEEEE;
        let mut i: usize = 0;
        while i < n
            invariant
                self.wf(),
                n == data@.len() / 4,
                data@.len() % 4 == 0,
                data@.len() <= usize::MAX,
                i <= n,
                (s1, s2) == {
                    let st = decrypt_words(words_of(data@).take(i as int), key);
                    (st.1, st.2)
                },
                out@ == words_bytes(decrypt_words(words_of(data@).take(i as int), key).0),
                out@.len() == 4 * i,
            decreases n - i,
        {
            proof {
                assert(self.table@.len() == 1280);
                assert(s1 & 0xFF < 256) by (bit_vector);
            }
            let w = crate::bytes::read_u32_le(data, 4 * i);
            let v = self.table[0x400 + ((s1 & 0xFF) as usize)];
            let t1: u64 = s2 as u64 + v as u64;
            let s2a: u32 = (t1 % 0x1_0000_0000) as u32;
            let t2: u64 = s1 as u64 + s2a as u64;
            let o: u32 = w ^ ((t2 % 0x1_0000_0000) as u32);
            let sh21: u32 = (!s1) << 21;
            let t3: u64 = sh21 as u64 + 0x11111111;
            let ns1: u32 = ((t3 % 0x1_0000_0000) as u32) | (s1 >> 11);
            let sh5: u32 = s2a << 5;
            let t4: u64 = o as u64 + s2a as u64 + sh5 as u64 + 3;
            let ns2: u32 = (t4 % 0x1_0000_0000) as u32;
            proof {
                let ws = words_of(data@);
                assert(ws.take(i + 1).drop_last() =~= ws.take(i as int));
                assert(ws.take(i + 1).last() == ws[i as int]);
                assert(w == word_at(data@, i as int));
            }
            let ghost prev_out = out@;
            proof {
                assert(o & 0xFF < 256 && (o >> 8) & 0xFF < 256 && (o >> 16) & 0xFF < 256 && (o
                    >> 24) & 0xFF < 256) by (bit_vector);
            }
            out.push((o & 0xFF) as u8);
            out.push(((o >> 8) & 0xFF) as u8);
            out.push(((o >> 16) & 0xFF) as u8);
            out.push(((o >> 24) & 0xFF) as u8);
            proof {
                let ws = words_of(data@);
                let prev = decrypt_words(ws.take(i as int), key);
                let step = decrypt_word_step(prev.1, prev.2, ws[i as int]);
                assert(out@ =~= prev_out + word_bytes(o));
                assert(prev.0.push(step.0).drop_last() =~= prev.0);
                assert(words_bytes(prev.0.push(step.0)) == words_bytes(prev.0) + word_bytes(
                    step.0,
                ));
            }
            s1 = ns1;
            s2 = ns2;
            i = i + 1;
        }
        proof {
            assert(words_of(data@).take(n as int) =~= words_of(data@));
        }
        Ok(out)
    }
}

} // verus!
