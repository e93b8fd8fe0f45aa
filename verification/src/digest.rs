//! SHA-256 digests and their hexadecimal notation.
use sha2::Digest;
use vstd::prelude::*;
use vstd::string::*;

verus! {

/// The running hasher of the `sha2` crate.
#[verifier::external_type_specification]
#[verifier::external_body]
pub struct ExSha256(sha2::Sha256);

/// The bytes that a running hasher has taken in so far.
pub uninterp spec fn absorbed(hasher: sha2::Sha256) -> Seq<u8>;

/// The SHA-256 digest of a byte string.
pub uninterp spec fn sha256(data: Seq<u8>) -> Seq<u8>;

/// `sha2::Sha256::new`: a hasher that has taken in nothing.
#[verifier::external_body]
fn new_hasher() -> (res: sha2::Sha256)
    ensures
        absorbed(res) == Seq::<u8>::empty(),
{
    sha2::Sha256::new()
}

/// `sha2::Sha256::update`: the hasher takes in `data` behind what it had taken in before.
#[verifier::external_body]
fn update_hasher(hasher: &mut sha2::Sha256, data: &[u8])
    ensures
        absorbed(*final(hasher)) == absorbed(*old(hasher)) + data@,
{
    hasher.update(data)
}

/// `sha2::Sha256::finalize`: the digest of everything the hasher took in. It has 32 bytes, and
/// it depends on those bytes alone, not on how they were cut into pieces.
#[verifier::external_body]
fn finish_hasher(hasher: sha2::Sha256) -> (res: Vec<u8>)
    ensures
        res@ == sha256(absorbed(hasher)),
        res@.len() == 32,
{
    hasher.finalize().to_vec()
}

/// A hexadecimal digit in lower case.
pub open spec fn hex_digit(d: int) -> char {
    if d < 10 {
        (48 + d) as char
    } else {
        (87 + d) as char
    }
}

/// The characters `0` to `9` and `a` to `f`.
pub open spec fn is_hex(c: char) -> bool {
    '0' <= c <= '9' || 'a' <= c <= 'f'
}

/// Two lower-case hexadecimal digits for each byte.
pub open spec fn hex(data: Seq<u8>) -> Seq<char>
    decreases data.len(),
{
    if data.len() == 0 {
        Seq::empty()
    } else {
        hex(data.drop_last()).push(hex_digit(data.last() as int / 16)).push(
            hex_digit(data.last() as int % 16),
        )
    }
}

/// A hexadecimal digit in lower case.
fn hex_char(d: u8) -> (res: char)
    requires
        d < 16,
    ensures
        res == hex_digit(d as int),
{
    if d < 10 {
        (48 + d) as char
    } else {
        (87 + d) as char
    }
}

/// Two lower-case hexadecimal digits for each byte of `data`.
pub fn hex_text(data: &Vec<u8>) -> (res: String)
    ensures
        res@ == hex(data@),
{
    let mut out = String::new();
    let mut i: usize = 0;
    assert(data@.take(0) =~= Seq::<u8>::empty());
    while i < data.len()
        invariant
            i <= data@.len(),
            out@ == hex(data@.take(i as int)),
        decreases data@.len() - i,
    {
        assert(data@.take(i + 1).drop_last() =~= data@.take(i as int));
        out.push(hex_char(data[i] / 16));
        out.push(hex_char(data[i] % 16));
        i = i + 1;
    }
    assert(data@.take(i as int) =~= data@);
    out
}

/// A digest in the making: the hash and the length of the bytes fed in.
pub struct StreamDigest {
    hasher: sha2::Sha256,
    length: u64,
}

impl StreamDigest {
    /// The bytes fed in so far.
    pub closed spec fn bytes(self) -> Seq<u8> {
        absorbed(self.hasher)
    }

    /// The count of the bytes is kept alongside the hash.
    pub closed spec fn wf(self) -> bool {
        self.length == absorbed(self.hasher).len()
    }

    /// A digest of nothing.
    pub fn new() -> (res: StreamDigest)
        ensures
            res.wf(),
            res.bytes() == Seq::<u8>::empty(),
    {
        StreamDigest { hasher: new_hasher(), length: 0 }
    }

    /// Takes in the next bytes.
    pub fn feed(&mut self, data: &[u8])
        requires
            old(self).wf(),
            old(self).bytes().len() + data@.len() <= u64::MAX,
        ensures
            final(self).wf(),
            final(self).bytes() == old(self).bytes() + data@,
    {
        update_hasher(&mut self.hasher, data);
        self.length = self.length + data.len() as u64;
    }

    /// How many bytes were fed in.
    pub fn len(&self) -> (res: u64)
        requires
            self.wf(),
        ensures
            res == self.bytes().len(),
    {
        self.length
    }

    /// The digest of the bytes fed in, in hexadecimal.
    pub fn finish(self) -> (res: String)
        ensures
            res@ == hex(sha256(self.bytes())),
            res@.len() == 64,
            forall|i: int| 0 <= i < res@.len() ==> is_hex(#[trigger] res@[i]),
    {
        let bytes = finish_hasher(self.hasher);
        proof {
            lemma_hex_shape(bytes@);
        }
        hex_text(&bytes)
    }
}

/// The SHA-256 digest of `data` in hexadecimal: 64 lower-case digits.
pub fn sha256_hex(data: &[u8]) -> (res: String)
    ensures
        res@ == hex(sha256(data@)),
        res@.len() == 64,
        forall|i: int| 0 <= i < res@.len() ==> is_hex(#[trigger] res@[i]),
{
    let mut hasher = new_hasher();
    update_hasher(&mut hasher, data);
    assert(absorbed(hasher) =~= data@);
    let bytes = finish_hasher(hasher);
    proof {
        lemma_hex_shape(bytes@);
    }
    hex_text(&bytes)
}

/// The hexadecimal notation has two digits a byte and nothing but digits.
pub proof fn lemma_hex_shape(data: Seq<u8>)
    ensures
        hex(data).len() == 2 * data.len(),
        forall|i: int| 0 <= i < hex(data).len() ==> is_hex(#[trigger] hex(data)[i]),
    decreases data.len(),
{
    if data.len() > 0 {
        lemma_hex_shape(data.drop_last());
        let h = hex(data.drop_last());
        assert forall|i: int| 0 <= i < hex(data).len() implies is_hex(#[trigger] hex(data)[i]) by {
            if i < h.len() {
                assert(hex(data)[i] == h[i]);
            }
        }
    }
}

/// Different byte strings have different hexadecimal notations.
pub proof fn law_hex_injective(a: Seq<u8>, b: Seq<u8>)
    requires
        hex(a) == hex(b),
    ensures
        a == b,
    decreases a.len(),
{
    lemma_hex_shape(a);
    lemma_hex_shape(b);
    if a.len() > 0 {
        let n = hex(a).len();
        assert(hex(a).drop_last().drop_last() =~= hex(a.drop_last()));
        assert(hex(b).drop_last().drop_last() =~= hex(b.drop_last()));
        law_hex_injective(a.drop_last(), b.drop_last());
        assert(hex(a)[n - 1] == hex_digit(a.last() as int % 16));
        assert(hex(a)[n - 2] == hex_digit(a.last() as int / 16));
        assert(hex(b)[n - 1] == hex_digit(b.last() as int % 16));
        assert(hex(b)[n - 2] == hex_digit(b.last() as int / 16));
        assert(a =~= a.drop_last().push(a.last()));
        assert(b =~= b.drop_last().push(b.last()));
    }
    assert(a =~= b);
}

/// The two digits of a byte stand at its place, the high one first, and their values make the byte.
pub proof fn law_hex_digits_make_the_byte(data: Seq<u8>, i: int)
    requires
        0 <= i < data.len(),
    ensures
        ({
            let value = |c: char|
                if '0' <= c <= '9' {
                    c as int - '0' as int
                } else {
                    c as int - 'a' as int + 10
                };
            &&& hex(data).len() == 2 * data.len()
            &&& value(hex(data)[2 * i]) * 16 + value(hex(data)[2 * i + 1]) == data[i]
        }),
    decreases data.len(),
{
    lemma_hex_shape(data);
    lemma_hex_shape(data.drop_last());
    let before = hex(data.drop_last());
    if i < data.len() - 1 {
        law_hex_digits_make_the_byte(data.drop_last(), i);
        assert(hex(data)[2 * i] == before[2 * i]);
        assert(hex(data)[2 * i + 1] == before[2 * i + 1]);
    } else {
        assert(hex(data)[2 * i] == hex_digit(data.last() as int / 16));
        assert(hex(data)[2 * i + 1] == hex_digit(data.last() as int % 16));
    }
}

} // verus!
