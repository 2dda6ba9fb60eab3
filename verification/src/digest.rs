//! SHA-256 checksums of files, computed chunk by chunk.

use crate::text::{concat, same_ignoring_ascii_case};
use crate::text_laws::{law_same_text_but_for_case, same_letter};
use sha2::{Digest, Sha256};
use vstd::prelude::*;

verus! {

/// The largest message that SHA-256 can count in bits with a 64-bit length.
pub const MAX_MESSAGE: u64 = 0x1fff_ffff_ffff_ffff;

/// The streaming SHA-256 hasher of the `sha2` crate.
#[verifier::external_type_specification]
#[verifier::external_body]
pub struct ExSha256(Sha256);

/// The bytes that a hasher was given, in order.
pub uninterp spec fn hashed_bytes(hasher: Sha256) -> Seq<u8>;

/// The SHA-256 digest of a message.
pub uninterp spec fn sha256(message: Seq<u8>) -> Seq<u8>;

/// `Sha256::new`: a hasher that was given nothing yet.
#[verifier::external_body]
fn new_hasher() -> (res: Sha256)
    ensures
        hashed_bytes(res) == Seq::<u8>::empty(),
{
    Sha256::new()
}

/// `Digest::update`: the hasher is given `data` after what it had.
#[verifier::external_body]
fn update(hasher: &mut Sha256, data: &[u8])
    requires
        hashed_bytes(*old(hasher)).len() + data@.len() <= MAX_MESSAGE,
    ensures
        hashed_bytes(*final(hasher)) == hashed_bytes(*old(hasher)) + data@,
{
    hasher.update(data);
}

/// `Digest::finalize`: the digest of all that the hasher was given, which is a
/// function of those bytes alone and 32 bytes long.
#[verifier::external_body]
fn finalize(hasher: Sha256) -> (res: Vec<u8>)
    requires
        hashed_bytes(hasher).len() <= MAX_MESSAGE,
    ensures
        res@ == sha256(hashed_bytes(hasher)),
        res@.len() == 32,
{
    hasher.finalize().to_vec()
}

/// The lower-case hexadecimal digit for `n`, which is below sixteen.
pub open spec fn hex_digit(n: int) -> char {
    if n < 10 {
        ('0' as int + n) as char
    } else {
        ('a' as int + n - 10) as char
    }
}

/// `bytes` in hexadecimal: two digits for each byte, the high half first.
pub open spec fn hex_text(bytes: Seq<u8>) -> Seq<char> {
    Seq::new(
        2 * bytes.len(),
        |i: int|
            if i % 2 == 0 {
                hex_digit(bytes[i / 2] as int / 16)
            } else {
                hex_digit(bytes[i / 2] as int % 16)
            },
    )
}

/// `hex::encode`: the bytes in lower-case hexadecimal.
#[verifier::external_body]
fn hex_encode(bytes: &[u8]) -> (res: String)
    requires
        2 * bytes@.len() <= isize::MAX,
    ensures
        res@ == hex_text(bytes@),
{
    hex::encode(bytes)
}

/// The checksum of a message as the manifest writes it.
pub open spec fn checksum(message: Seq<u8>) -> Seq<char> {
    hex_text(sha256(message))
}

/// A checksum in the making: the part of a file that was read so far.
pub struct FileDigest {
    hasher: Sha256,
    length: u64,
}

/// What follows a read.
pub enum DigestStep {
    /// Read on.
    More(FileDigest),
    /// The file is at its end, or could not be read.
    Done(Result<String, String>),
}

/// A checksum in the making, by the bytes that were read and the texts that come of it.
pub enum DigestView {
    Reading(Seq<u8>),
    Done(Result<Seq<char>, Seq<char>>),
}

/// A read, by its bytes or its error text.
pub type ReadView = Result<Seq<u8>, Seq<char>>;

/// A read by its bytes or its error text.
pub open spec fn read_view(read: Result<Vec<u8>, String>) -> ReadView {
    match read {
        Ok(chunk) => Ok(chunk@),
        Err(error) => Err(error@),
    }
}

/// What opening a file comes to.
pub open spec fn digest_start(opened: Result<(), Seq<char>>) -> DigestView {
    match opened {
        Ok(_) => DigestView::Reading(Seq::empty()),
        Err(error) => DigestView::Done(Err("open: "@ + error)),
    }
}

/// What becomes of a checksum after one more read; an empty chunk means that the
/// file is at its end. After that, nothing changes any more.
pub open spec fn digest_next(state: DigestView, read: ReadView) -> DigestView {
    match (state, read) {
        (DigestView::Reading(bytes), Ok(chunk)) => if chunk.len() == 0 {
            DigestView::Done(Ok(checksum(bytes)))
        } else {
            DigestView::Reading(bytes + chunk)
        },
        (DigestView::Reading(_), Err(error)) => DigestView::Done(Err("read: "@ + error)),
        (DigestView::Done(_), _) => state,
    }
}

/// Whether `c` is a lower-case hexadecimal digit.
pub open spec fn is_lower_hex(c: char) -> bool {
    ('0' <= c <= '9') || ('a' <= c <= 'f')
}

/// Whether `sum` has the form of a checksum: 64 lower-case hexadecimal digits.
pub open spec fn checksum_shape(sum: Seq<char>) -> bool {
    sum.len() == 64 && forall|i: int| 0 <= i < sum.len() ==> is_lower_hex(#[trigger] sum[i])
}

impl View for DigestStep {
    type V = DigestView;

    open spec fn view(&self) -> DigestView {
        match *self {
            DigestStep::More(digest) => DigestView::Reading(digest@),
            DigestStep::Done(Ok(sum)) => DigestView::Done(Ok(sum@)),
            DigestStep::Done(Err(message)) => DigestView::Done(Err(message@)),
        }
    }
}

impl View for FileDigest {
    type V = Seq<u8>;

    closed spec fn view(&self) -> Seq<u8> {
        hashed_bytes(self.hasher)
    }
}

impl FileDigest {
    #[verifier::type_invariant]
    closed spec fn counts(self) -> bool {
        self.length == hashed_bytes(self.hasher).len() && self.length <= MAX_MESSAGE
    }

    /// Start on a file, given how opening it went.
    pub fn sha256_file(opened: Result<(), String>) -> (res: Result<FileDigest, String>)
        ensures
            match res {
                Ok(digest) => DigestView::Reading(digest@),
                Err(message) => DigestView::Done(Err(message@)),
            } == digest_start(
                match opened {
                    Ok(_) => Ok(()),
                    Err(error) => Err(error@),
                },
            ),
    {
        match opened {
            Ok(_) => Ok(FileDigest { hasher: new_hasher(), length: 0 }),
            Err(error) => Err(concat("open: ", error.as_str())),
        }
    }

    /// How many bytes were read so far.
    pub fn length(&self) -> (res: u64)
        ensures
            res == self@.len(),
            res <= MAX_MESSAGE,
    {
        proof {
            use_type_invariant(self);
        }
        self.length
    }

    /// Take the next chunk of the file; an empty one means that the file is at its
    /// end, and gives the checksum of all that was read.
    pub fn absorb(self, read: Result<Vec<u8>, String>) -> (res: DigestStep)
        requires
            read matches Ok(chunk) ==> chunk@.len() > 0 ==> self@.len() + chunk@.len() <= MAX_MESSAGE,
        ensures
            res@ == digest_next(DigestView::Reading(self@), read_view(read)),
            res matches DigestStep::Done(Ok(sum)) ==> checksum_shape(sum@),
    {
        proof {
            use_type_invariant(&self);
        }
        match read {
            Ok(chunk) => {
                let FileDigest { hasher, length } = self;
                if chunk.len() == 0 {
                    let digest = finalize(hasher);
                    proof {
                        law_hex_shape(digest@);
                    }
                    DigestStep::Done(Ok(hex_encode(digest.as_slice())))
                } else {
                    let mut hasher = hasher;
                    update(&mut hasher, chunk.as_slice());
                    DigestStep::More(FileDigest { hasher, length: length + chunk.len() as u64 })
                }
            },
            Err(error) => DigestStep::Done(Err(concat("read: ", error.as_str()))),
        }
    }
}

/// What a file comes to, given how opening it and then each read went.
pub open spec fn digest_after(opened: Result<(), Seq<char>>, reads: Seq<ReadView>) -> DigestView
    decreases reads.len(),
{
    if reads.len() == 0 {
        digest_start(opened)
    } else {
        digest_next(digest_after(opened, reads.drop_last()), reads.last())
    }
}

/// The reads that give `chunks`, one after the other.
pub open spec fn reads_of(chunks: Seq<Seq<u8>>) -> Seq<ReadView> {
    chunks.map_values(|chunk: Seq<u8>| ReadView::Ok(chunk))
}

/// Whether no chunk is empty: the end of the file has not been reached.
pub open spec fn before_end(chunks: Seq<Seq<u8>>) -> bool {
    forall|i: int| 0 <= i < chunks.len() ==> (#[trigger] chunks[i]).len() > 0
}

proof fn lemma_reading(chunks: Seq<Seq<u8>>)
    requires
        before_end(chunks),
    ensures
        digest_after(Ok(()), reads_of(chunks)) == DigestView::Reading(chunks.flatten()),
    decreases chunks.len(),
{
    if chunks.len() > 0 {
        let prior = chunks.drop_last();
        assert(before_end(prior)) by {
            assert forall|i: int| 0 <= i < prior.len() implies (#[trigger] prior[i]).len() > 0 by {
                assert(prior[i] == chunks[i]);
            }
        }
        lemma_reading(prior);
        assert(reads_of(chunks).drop_last() =~= reads_of(prior));
        assert(chunks.last() == chunks[chunks.len() - 1]);
        assert(chunks == prior.push(chunks.last()));
        prior.lemma_flatten_push(chunks.last());
    }
}

/// A file that is read to its end has the checksum of its bytes, however they are
/// cut into chunks.
pub proof fn law_chunking_is_irrelevant(chunks: Seq<Seq<u8>>)
    requires
        before_end(chunks),
    ensures
        digest_after(Ok(()), reads_of(chunks).push(Ok(Seq::empty()))) == DigestView::Done(
            Ok(checksum(chunks.flatten())),
        ),
{
    lemma_reading(chunks);
    assert(reads_of(chunks).push(Ok(Seq::empty())).drop_last() =~= reads_of(chunks));
}

/// Two files with the same bytes have the same checksum, however each is cut into
/// chunks.
pub proof fn law_same_bytes_same_checksum(a: Seq<Seq<u8>>, b: Seq<Seq<u8>>)
    requires
        before_end(a),
        before_end(b),
        a.flatten() == b.flatten(),
    ensures
        digest_after(Ok(()), reads_of(a).push(Ok(Seq::empty()))) == digest_after(
            Ok(()),
            reads_of(b).push(Ok(Seq::empty())),
        ),
{
    law_chunking_is_irrelevant(a);
    law_chunking_is_irrelevant(b);
}

/// A file comes to an error where it cannot be opened, whatever is read then, or
/// where a read fails before its end; the error names which of the two it was. As
/// long as every read gives bytes, it comes to nothing yet.
pub proof fn law_digest_errors(chunks: Seq<Seq<u8>>, reads: Seq<ReadView>, error: Seq<char>)
    requires
        before_end(chunks),
    ensures
        digest_after(Err(error), reads) == DigestView::Done(Err("open: "@ + error)),
        digest_after(Ok(()), reads_of(chunks).push(Err(error))) == DigestView::Done(Err("read: "@ + error)),
        digest_after(Ok(()), reads_of(chunks)) == DigestView::Reading(chunks.flatten()),
{
    lemma_reading(chunks);
    assert(reads_of(chunks).push(Err(error)).drop_last() =~= reads_of(chunks));
    law_finished_digest_stays(Err(error), Seq::empty(), reads);
    assert(Seq::<ReadView>::empty() + reads =~= reads);
}

/// What a file comes to does not change any more once it is known.
pub proof fn law_finished_digest_stays(opened: Result<(), Seq<char>>, reads: Seq<ReadView>, more: Seq<ReadView>)
    requires
        digest_after(opened, reads) is Done,
    ensures
        digest_after(opened, reads + more) == digest_after(opened, reads),
    decreases more.len(),
{
    if more.len() == 0 {
        assert(reads + more == reads);
    } else {
        law_finished_digest_stays(opened, reads, more.drop_last());
        assert((reads + more).drop_last() == reads + more.drop_last());
        assert((reads + more).last() == more.last());
    }
}

/// Hexadecimal has two lower-case digits for each byte.
pub proof fn law_hex_shape(bytes: Seq<u8>)
    ensures
        hex_text(bytes).len() == 2 * bytes.len(),
        forall|i: int|
            0 <= i < hex_text(bytes).len() ==> is_lower_hex(#[trigger] hex_text(bytes)[i]),
{
}

proof fn lemma_hex_digit(m: int, n: int)
    requires
        0 <= m < 16,
        0 <= n < 16,
        hex_digit(m) == hex_digit(n),
    ensures
        m == n,
{
    assert(hex_digit(m) as int == hex_digit(n) as int);
}

/// Different bytes have different hexadecimal texts, so equal checksums mean equal
/// digests.
pub proof fn law_hex_is_injective(a: Seq<u8>, b: Seq<u8>)
    requires
        hex_text(a) == hex_text(b),
    ensures
        a == b,
{
    law_hex_shape(a);
    law_hex_shape(b);
    assert forall|i: int| 0 <= i < a.len() implies a[i] == b[i] by {
        let x = a[i] as int;
        let y = b[i] as int;
        assert((2 * i) / 2 == i && (2 * i + 1) / 2 == i);
        assert((2 * i) % 2 == 0 && (2 * i + 1) % 2 == 1);
        assert(hex_text(a)[2 * i] == hex_digit(x / 16) && hex_text(b)[2 * i] == hex_digit(y / 16));
        assert(hex_text(a)[2 * i + 1] == hex_digit(x % 16) && hex_text(b)[2 * i + 1] == hex_digit(y % 16));
        lemma_hex_digit(x / 16, y / 16);
        lemma_hex_digit(x % 16, y % 16);
    }
    assert(a =~= b);
}

/// The number that a lower-case hexadecimal digit stands for.
pub open spec fn hex_value(c: char) -> int {
    if c <= '9' {
        c as int - 48
    } else {
        c as int - 87
    }
}

/// A checksum reads back as the digest: its digits, two by two, are the bytes of the
/// SHA-256 of the message, in order.
pub proof fn law_checksum_reads_back(message: Seq<u8>, i: int)
    requires
        0 <= i < sha256(message).len(),
    ensures
        checksum(message).len() == 2 * sha256(message).len(),
        hex_value(checksum(message)[2 * i]) * 16 + hex_value(checksum(message)[2 * i + 1]) == sha256(message)[i],
{
    let byte = sha256(message)[i] as int;
    assert((2 * i) / 2 == i && (2 * i + 1) / 2 == i);
    assert((2 * i) % 2 == 0 && (2 * i + 1) % 2 == 1);
    assert(checksum(message)[2 * i] == hex_digit(byte / 16));
    assert(checksum(message)[2 * i + 1] == hex_digit(byte % 16));
    assert(hex_value(hex_digit(byte / 16)) == byte / 16);
    assert(hex_value(hex_digit(byte % 16)) == byte % 16);
}

/// What has the form of a checksum has 64 characters, each a digit or a letter from
/// `a` to `f`; so two of them that differ only in case are the same.
pub proof fn law_checksum_has_one_case(a: Seq<char>, b: Seq<char>)
    requires
        checksum_shape(a),
        checksum_shape(b),
    ensures
        a.len() == 64 && b.len() == 64,
        same_ignoring_ascii_case(a, b) ==> a == b,
{
    law_same_text_but_for_case(a, b);
    if same_ignoring_ascii_case(a, b) {
        assert forall|i: int| 0 <= i < a.len() implies a[i] == b[i] by {
            assert(is_lower_hex(a[i]) && is_lower_hex(b[i]));
            assert(same_letter(a[i], b[i]));
        }
        assert(a =~= b);
    }
}

/// A read is known by all of its bytes, or by its error as it was reported.
pub proof fn law_reads_are_taken_whole(chunk: Vec<u8>, error: String)
    ensures
        read_view(Ok(chunk)) == ReadView::Ok(chunk@),
        read_view(Err(error)) == ReadView::Err(error@),
{
}

/// The longest message is the longest whose length in bits fits in 64 bits.
pub proof fn law_longest_message()
    ensures
        MAX_MESSAGE * 8 <= u64::MAX,
        (MAX_MESSAGE + 1) * 8 > u64::MAX,
{
}

/// What follows a read is known by all that was read, and by its texts as they stand.
pub proof fn law_digest_step_is_taken_whole(digest: FileDigest, text: String)
    ensures
        DigestStep::More(digest)@ == DigestView::Reading(digest@),
        DigestStep::Done(Ok(text))@ == DigestView::Done(Ok(text@)),
        DigestStep::Done(Err(text))@ == DigestView::Done(Err(text@)),
{
}

} // verus!
