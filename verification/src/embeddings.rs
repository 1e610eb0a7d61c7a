//! The semantic memory index.

use crate::binary32;
use vstd::prelude::*;
use vstd::string::StringSliceAdditionalSpecFns;

verus! {

/// A stored embedding, without its vector.
#[derive(Debug, Clone)]
pub struct EmbeddingEntry {
    pub id: i64,
    /// "message", "memory" or "document"
    pub source_type: String,
    pub source_id: i64,
    pub content_hash: String,
    pub created_at: i64,
}

/// A search hit together with the content it points at.
#[derive(Debug, Clone)]
pub struct SearchResult {
    pub source_type: String,
    pub source_id: i64,
    pub content: String,
    /// The cosine similarity, as the bit pattern of a single-precision
    /// number.
    pub similarity: u32,
}


/// The dimension of the vectors of the embedding model in use.
pub const EMBEDDING_DIM: usize = 384;

/// The starting value of the content hash.
pub const HASH_OFFSET: u128 = 0xcbf2_9ce4_8422_2325;

/// The multiplier of the content hash.
pub const HASH_PRIME: u128 = 0x100_0000_01b3;

/// One step of the content hash: mix the byte in, then multiply, keeping the
/// low 128 bits.
pub open spec fn hash_step(hash: u128, byte: u8) -> u128 {
    (hash ^ (byte as u128)).wrapping_mul(HASH_PRIME)
}

/// The content hash of a byte sequence: the steps taken byte by byte from
/// the starting value.
pub open spec fn hash_of(bytes: Seq<u8>) -> u128
    decreases bytes.len(),
{
    if bytes.len() == 0 {
        HASH_OFFSET
    } else {
        hash_step(hash_of(bytes.drop_last()), bytes.last())
    }
}

/// A fast hash of the content's bytes, good enough to tell whether a text
/// changed; equal texts have equal hashes.
pub fn md5_hash(content: &str) -> (hash: u128)
    ensures
        hash == hash_of(content.spec_bytes()),
{
    let bytes = content.as_bytes();
    let mut hash: u128 = HASH_OFFSET;
    let mut i: usize = 0;
    assert(bytes@.take(0) =~= Seq::<u8>::empty());
    while i < bytes.len()
        invariant
            i <= bytes.len(),
            hash == hash_of(bytes@.take(i as int)),
        decreases bytes.len() - i,
    {
        proof {
            assert(bytes@.take(i + 1).drop_last() =~= bytes@.take(i as int));
            assert(bytes@.take(i + 1).last() == bytes@[i as int]);
        }
        let mixed: u128 = hash ^ (bytes[i] as u128);
        hash = mixed.wrapping_mul(HASH_PRIME);
        i = i + 1;
    }
    assert(bytes@.take(i as int) =~= bytes@);
    hash
}

/// The lowercase hexadecimal digit for a value below 16.
pub open spec fn hex_digit(d: nat) -> char {
    if d == 0 {
        '0'
    } else if d == 1 {
        '1'
    } else if d == 2 {
        '2'
    } else if d == 3 {
        '3'
    } else if d == 4 {
        '4'
    } else if d == 5 {
        '5'
    } else if d == 6 {
        '6'
    } else if d == 7 {
        '7'
    } else if d == 8 {
        '8'
    } else if d == 9 {
        '9'
    } else if d == 10 {
        'a'
    } else if d == 11 {
        'b'
    } else if d == 12 {
        'c'
    } else if d == 13 {
        'd'
    } else if d == 14 {
        'e'
    } else {
        'f'
    }
}

/// The number in lowercase hexadecimal, without leading zeros.
pub open spec fn hex(n: nat) -> Seq<char>
    decreases n,
{
    if n < 16 {
        seq![hex_digit(n)]
    } else {
        hex(n / 16).push(hex_digit(n % 16))
    }
}

fn digit_char(d: u128) -> (c: char)
    requires
        d < 16,
    ensures
        c == hex_digit(d as nat),
{
    if d == 0 {
        '0'
    } else if d == 1 {
        '1'
    } else if d == 2 {
        '2'
    } else if d == 3 {
        '3'
    } else if d == 4 {
        '4'
    } else if d == 5 {
        '5'
    } else if d == 6 {
        '6'
    } else if d == 7 {
        '7'
    } else if d == 8 {
        '8'
    } else if d == 9 {
        '9'
    } else if d == 10 {
        'a'
    } else if d == 11 {
        'b'
    } else if d == 12 {
        'c'
    } else if d == 13 {
        'd'
    } else if d == 14 {
        'e'
    } else {
        'f'
    }
}

/// The number in lowercase hexadecimal, without leading zeros.
pub fn to_hex(value: u128) -> (s: String)
    ensures
        s@ == hex(value as nat),
{
    let mut low: Vec<char> = Vec::new();
    let mut n: u128 = value;
    assert(hex(n as nat) + low@.reverse() =~= hex(value as nat));
    while n >= 16
        invariant
            hex(value as nat) == hex(n as nat) + low@.reverse(),
        decreases n,
    {
        let d = digit_char(n % 16);
        proof {
            assert(low@.push(d).reverse() =~= seq![d] + low@.reverse());
            assert(hex((n / 16) as nat).push(d) + low@.reverse() =~= hex((n / 16) as nat) + (seq![d]
                + low@.reverse()));
        }
        low.push(d);
        n = n / 16;
    }
    let mut s = String::new();
    s.push(digit_char(n));
    let mut k: usize = low.len();
    assert(low@.reverse().take(0) =~= Seq::<char>::empty());
    while k > 0
        invariant
            k <= low.len(),
            s@ == hex(n as nat) + low@.reverse().take(low.len() - k),
        decreases k,
    {
        k = k - 1;
        proof {
            let r = low@.reverse();
            let j = low.len() - k - 1;
            assert(r[j] == low@[k as int]);
            assert(r.take(j + 1) =~= r.take(j).push(r[j]));
            assert(hex(n as nat) + r.take(j + 1) =~= (hex(n as nat) + r.take(j)).push(r[j]));
        }
        s.push(low[k]);
    }
    assert(low@.reverse().take(low.len() as int) =~= low@.reverse());
    s
}

/// The fingerprint under which a content is recognised: its hash in
/// hexadecimal.
pub open spec fn fingerprint_of(content: Seq<char>) -> Seq<char> {
    hex(hash_of(vstd::utf8::encode_utf8(content)) as nat)
}

/// The fingerprint of a content.
pub fn fingerprint(content: &str) -> (s: String)
    ensures
        s@ == fingerprint_of(content@),
{
    to_hex(md5_hash(content))
}

/// The four bytes of a 32-bit pattern, least significant first.
pub open spec fn word_bytes(w: u32) -> Seq<u8> {
    seq![
        (w % 256) as u8,
        ((w / 256) % 256) as u8,
        ((w / 65536) % 256) as u8,
        (w / 16777216) as u8,
    ]
}

/// The 32-bit pattern made of four bytes, least significant first.
pub open spec fn word_of(b0: u8, b1: u8, b2: u8, b3: u8) -> u32 {
    (b0 + 256 * b1 + 65536 * b2 + 16777216 * b3) as u32
}

/// The bytes of the patterns, one after the other.
pub open spec fn bytes_of(words: Seq<u32>) -> Seq<u8>
    decreases words.len(),
{
    if words.len() == 0 {
        Seq::empty()
    } else {
        bytes_of(words.drop_last()) + word_bytes(words.last())
    }
}

/// The patterns held in the bytes: one for each full group of four, the
/// last one to three bytes being ignored.
pub open spec fn words_of(bytes: Seq<u8>) -> Seq<u32> {
    Seq::new(
        bytes.len() / 4,
        |k: int| word_of(bytes[4 * k], bytes[4 * k + 1], bytes[4 * k + 2], bytes[4 * k + 3]),
    )
}

/// The vector as it is stored: every component as four bytes, least
/// significant first. The components are single-precision bit patterns.
pub fn floats_to_bytes(floats: &Vec<u32>) -> (bytes: Vec<u8>)
    ensures
        bytes@ == bytes_of(floats@),
        bytes@.len() == 4 * floats@.len(),
{
    let mut bytes: Vec<u8> = Vec::new();
    let mut i: usize = 0;
    assert(floats@.take(0) =~= Seq::<u32>::empty());
    while i < floats.len()
        invariant
            i <= floats.len(),
            bytes@ == bytes_of(floats@.take(i as int)),
            bytes@.len() == 4 * i,
        decreases floats.len() - i,
    {
        let w: u32 = floats[i];
        proof {
            assert(floats@.take(i + 1).drop_last() =~= floats@.take(i as int));
            assert(floats@.take(i + 1).last() == w);
        }
        let ghost before = bytes@;
        bytes.push((w % 256) as u8);
        bytes.push(((w / 256) % 256) as u8);
        bytes.push(((w / 65536) % 256) as u8);
        bytes.push((w / 16777216) as u8);
        assert(bytes@ =~= before + word_bytes(w));
        i = i + 1;
    }
    assert(floats@.take(i as int) =~= floats@);
    bytes
}

/// The vector held in stored bytes.
pub fn bytes_to_floats(bytes: &Vec<u8>) -> (floats: Vec<u32>)
    ensures
        floats@ == words_of(bytes@),
{
    let mut floats: Vec<u32> = Vec::new();
    let count: usize = bytes.len() / 4;
    let mut k: usize = 0;
    while k < count
        invariant
            k <= count,
            count == bytes.len() / 4,
            floats@.len() == k,
            forall|j: int| 0 <= j < k ==> floats@[j] == words_of(bytes@)[j],
        decreases count - k,
    {
        let b0: u32 = bytes[4 * k] as u32;
        let b1: u32 = bytes[4 * k + 1] as u32;
        let b2: u32 = bytes[4 * k + 2] as u32;
        let b3: u32 = bytes[4 * k + 3] as u32;
        floats.push(b0 + 256 * b1 + 65536 * b2 + 16777216 * b3);
        k = k + 1;
    }
    assert(floats@ =~= words_of(bytes@));
    floats
}

/// Splitting a pattern into bytes and putting them together again gives the
/// pattern back.
proof fn lemma_word_roundtrip(w: u32)
    ensures
        word_of(word_bytes(w)[0], word_bytes(w)[1], word_bytes(w)[2], word_bytes(w)[3]) == w,
{
}

/// A vector survives being stored: the bytes of a vector hold that vector.
pub proof fn law_bytes_roundtrip(words: Seq<u32>)
    ensures
        bytes_of(words).len() == 4 * words.len(),
        words_of(bytes_of(words)) == words,
    decreases words.len(),
{
    if words.len() == 0 {
        assert(words_of(bytes_of(words)) =~= words);
    } else {
        let front = words.drop_last();
        law_bytes_roundtrip(front);
        let all = bytes_of(words);
        let w = words.last();
        lemma_word_roundtrip(w);
        assert(all =~= bytes_of(front) + word_bytes(w));
        assert forall|k: int| 0 <= k < words.len() implies words_of(all)[k] == words[k] by {
            if k < front.len() {
                assert(words_of(bytes_of(front))[k] == front[k]);
                assert(all[4 * k] == bytes_of(front)[4 * k]);
                assert(all[4 * k + 1] == bytes_of(front)[4 * k + 1]);
                assert(all[4 * k + 2] == bytes_of(front)[4 * k + 2]);
                assert(all[4 * k + 3] == bytes_of(front)[4 * k + 3]);
            } else {
                assert(all[4 * k] == word_bytes(w)[0]);
                assert(all[4 * k + 1] == word_bytes(w)[1]);
                assert(all[4 * k + 2] == word_bytes(w)[2]);
                assert(all[4 * k + 3] == word_bytes(w)[3]);
            }
        }
        assert(words_of(all) =~= words);
    }
}


/// Why indexing failed.
#[derive(Debug)]
pub enum IndexError {
    /// The embedding model gave no vector.
    EmbedFailed(String),
    /// The record could not be stored.
    StorageFailed(String),
}

/// One indexed unit of content.
#[derive(Debug)]
pub struct EmbeddingRecord {
    /// The number under which the record was stored; later records have
    /// larger ones.
    pub id: i64,
    pub source_type: String,
    pub source_id: i64,
    pub content_hash: String,
    /// The vector, every component a single-precision bit pattern.
    pub vector: Vec<u32>,
    pub created_at: i64,
}

/// The index: at most one record for each source, in the order in which
/// they were stored.
pub struct EmbeddingIndex {
    pub records: Vec<EmbeddingRecord>,
    /// The number that the next record gets.
    pub next_id: i64,
}

/// A candidate of a search with its similarity to the query, and also a hit
/// that the search returns.
#[derive(Debug)]
pub struct SearchHit {
    pub id: i64,
    pub source_type: String,
    pub source_id: i64,
    /// The cosine similarity, as the bit pattern of a single-precision
    /// number.
    pub similarity: u32,
}

/// The record belongs to the source.
pub open spec fn is_source(r: EmbeddingRecord, source_type: Seq<char>, source_id: i64) -> bool {
    r.source_type@ == source_type && r.source_id == source_id
}

/// Some record belongs to the source and carries the fingerprint.
pub open spec fn holds(
    records: Seq<EmbeddingRecord>,
    source_type: Seq<char>,
    source_id: i64,
    fingerprint: Seq<char>,
) -> bool {
    exists|i: int|
        0 <= i < records.len() && is_source(#[trigger] records[i], source_type, source_id)
            && records[i].content_hash@ == fingerprint
}

/// The records that do not belong to the source, in order.
pub open spec fn without_source(
    records: Seq<EmbeddingRecord>,
    source_type: Seq<char>,
    source_id: i64,
) -> Seq<EmbeddingRecord>
    decreases records.len(),
{
    if records.len() == 0 {
        Seq::empty()
    } else {
        let before = without_source(records.drop_last(), source_type, source_id);
        if is_source(records.last(), source_type, source_id) {
            before
        } else {
            before.push(records.last())
        }
    }
}

/// No two records belong to the same source.
pub open spec fn unique_sources(records: Seq<EmbeddingRecord>) -> bool {
    forall|i: int, j: int|
        0 <= i < j < records.len() ==> !is_source(
            #[trigger] records[i],
            (#[trigger] records[j]).source_type@,
            records[j].source_id,
        )
}

/// Every vector has `dim` components.
pub open spec fn uniform(records: Seq<EmbeddingRecord>, dim: nat) -> bool {
    forall|i: int| 0 <= i < records.len() ==> (#[trigger] records[i]).vector@.len() == dim
}

/// What removing a source leaves: records of the old index, none of the
/// source, still at most one for each source if that held before.
proof fn lemma_without_source(
    records: Seq<EmbeddingRecord>,
    source_type: Seq<char>,
    source_id: i64,
)
    ensures
        without_source(records, source_type, source_id).len() <= records.len(),
        forall|i: int|
            0 <= i < without_source(records, source_type, source_id).len() ==> !is_source(
                #[trigger] without_source(records, source_type, source_id)[i],
                source_type,
                source_id,
            ) && exists|j: int|
                0 <= j < records.len() && records[j] == without_source(
                    records,
                    source_type,
                    source_id,
                )[i],
        unique_sources(records) ==> unique_sources(
            without_source(records, source_type, source_id),
        ),
        !(exists|j: int| 0 <= j < records.len() && is_source(records[j], source_type, source_id))
            ==> without_source(records, source_type, source_id) == records,
    decreases records.len(),
{
    let rest = without_source(records, source_type, source_id);
    if records.len() > 0 {
        let front = records.drop_last();
        let before = without_source(front, source_type, source_id);
        lemma_without_source(front, source_type, source_id);
        assert forall|i: int| 0 <= i < rest.len() implies !is_source(
            #[trigger] rest[i],
            source_type,
            source_id,
        ) && exists|j: int| 0 <= j < records.len() && records[j] == rest[i] by {
            if i < before.len() {
                assert(rest[i] == before[i]);
                let j = choose|j: int| 0 <= j < front.len() && front[j] == before[i];
                assert(records[j] == rest[i]);
            } else {
                assert(records[records.len() - 1] == rest[i]);
            }
        }
        if unique_sources(records) {
            assert(unique_sources(front)) by {
                assert forall|i: int, j: int| 0 <= i < j < front.len() implies !is_source(
                    #[trigger] front[i],
                    (#[trigger] front[j]).source_type@,
                    front[j].source_id,
                ) by {
                    assert(front[i] == records[i]);
                    assert(front[j] == records[j]);
                }
            }
            assert forall|i: int, j: int| 0 <= i < j < rest.len() implies !is_source(
                #[trigger] rest[i],
                (#[trigger] rest[j]).source_type@,
                rest[j].source_id,
            ) by {
                if j < before.len() {
                    assert(rest[i] == before[i]);
                    assert(rest[j] == before[j]);
                } else {
                    assert(rest[i] == before[i]);
                    let k = choose|k: int| 0 <= k < front.len() && front[k] == before[i];
                    assert(records[k] == rest[i]);
                    assert(records[records.len() - 1] == rest[j]);
                }
            }
        }
        if !(exists|j: int| 0 <= j < records.len() && is_source(records[j], source_type, source_id)) {
            assert forall|j: int| 0 <= j < front.len() implies !is_source(
                front[j],
                source_type,
                source_id,
            ) by {
                assert(front[j] == records[j]);
            }
            assert(!is_source(records[records.len() - 1], source_type, source_id));
            assert(rest =~= records);
        }
    }
}

impl EmbeddingIndex {
    /// At most one record for each source.
    pub open spec fn wf(&self) -> bool {
        unique_sources(self.records@)
    }

    /// An index without records.
    pub fn new() -> (index: EmbeddingIndex)
        ensures
            index.wf(),
            index.records@.len() == 0,
            index.next_id == 1,
    {
        EmbeddingIndex { records: Vec::new(), next_id: 1 }
    }

    /// The index that stored records make up, taken in their order: of two
    /// records of one source the later one stays, and the next number lies
    /// above every number in use, as far as numbers go.
    pub fn restore(stored_records: Vec<EmbeddingRecord>) -> (index: EmbeddingIndex)
        ensures
            index.wf(),
            index.records@ == restored(stored_records@),
            index.next_id == number_above(stored_records@),
    {
        let mut index = EmbeddingIndex::new();
        let mut rows = stored_records;
        let ghost all = rows@;
        let ghost mut taken: int = 0;
        assert(all.take(0) =~= Seq::<EmbeddingRecord>::empty());
        assert(all.skip(0) =~= all);
        while rows.len() > 0
            invariant
                0 <= taken <= all.len(),
                rows@ == all.skip(taken),
                index.wf(),
                index.records@ == restored(all.take(taken)),
                index.next_id == number_above(all.take(taken)),
            decreases rows.len(),
        {
            let record = rows.remove(0);
            proof {
                assert(record == all[taken]);
                assert(all.take(taken + 1).drop_last() =~= all.take(taken));
                assert(all.take(taken + 1).last() == record);
                assert(rows@ =~= all.skip(taken + 1));
            }
            let ghost before = index.records@;
            delete_embedding(&mut index, record.source_type.as_str(), record.source_id);
            if record.id >= index.next_id {
                index.next_id = if record.id == i64::MAX {
                    i64::MAX
                } else {
                    record.id + 1
                };
            }
            let ghost rest = index.records@;
            index.records.push(record);
            proof {
                let now = index.records@;
                lemma_without_source(before, record.source_type@, record.source_id);
                assert forall|i: int, j: int| 0 <= i < j < now.len() implies !is_source(
                    #[trigger] now[i],
                    (#[trigger] now[j]).source_type@,
                    now[j].source_id,
                ) by {
                    assert(now[i] == rest[i]);
                    if j < rest.len() {
                        assert(now[j] == rest[j]);
                    }
                }
                taken = taken + 1;
            }
        }
        assert(all.take(taken) =~= all);
        index
    }
}

/// The records that stored rows make up: every row in turn takes the place
/// of an earlier record of its source and stands last.
pub open spec fn restored(rows: Seq<EmbeddingRecord>) -> Seq<EmbeddingRecord>
    decreases rows.len(),
{
    if rows.len() == 0 {
        Seq::empty()
    } else {
        stored(restored(rows.drop_last()), rows.last())
    }
}

/// The number for the next record: one above the largest number in use, the
/// largest number itself where nothing lies above it, and 1 for no record.
pub open spec fn number_above(rows: Seq<EmbeddingRecord>) -> i64
    decreases rows.len(),
{
    if rows.len() == 0 {
        1
    } else {
        let before = number_above(rows.drop_last());
        if rows.last().id < before {
            before
        } else if rows.last().id == i64::MAX {
            i64::MAX
        } else {
            (rows.last().id + 1) as i64
        }
    }
}

/// Whether the index holds the source with exactly this content.
pub fn has_embedding(index: &EmbeddingIndex, source_type: &str, source_id: i64, content: &str) -> (b:
    bool)
    ensures
        b == holds(index.records@, source_type@, source_id, fingerprint_of(content@)),
{
    let print = fingerprint(content);
    let kind = String::from_str(source_type);
    let mut i: usize = 0;
    while i < index.records.len()
        invariant
            i <= index.records.len(),
            print@ == fingerprint_of(content@),
            kind@ == source_type@,
            forall|j: int|
                0 <= j < i ==> !(is_source(#[trigger] index.records@[j], source_type@, source_id)
                    && index.records@[j].content_hash@ == print@),
        decreases index.records.len() - i,
    {
        let r = &index.records[i];
        if r.source_id == source_id && r.source_type == kind && r.content_hash == print {
            return true;
        }
        i = i + 1;
    }
    false
}

/// Removes every record of the source; the other records keep their order.
pub fn delete_embedding(index: &mut EmbeddingIndex, source_type: &str, source_id: i64)
    ensures
        final(index).records@ == without_source(old(index).records@, source_type@, source_id),
        final(index).next_id == old(index).next_id,
        old(index).wf() ==> final(index).wf(),
{
    let kind = String::from_str(source_type);
    let ghost initial = index.records@;
    let ghost mut seen: int = 0;
    let mut i: usize = 0;
    assert(initial.take(0) =~= Seq::<EmbeddingRecord>::empty());
    assert(initial.skip(0) =~= initial);
    while i < index.records.len()
        invariant
            0 <= seen <= initial.len(),
            i <= index.records.len(),
            kind@ == source_type@,
            index.next_id == old(index).next_id,
            i == without_source(initial.take(seen), source_type@, source_id).len(),
            index.records@ == without_source(initial.take(seen), source_type@, source_id)
                + initial.skip(seen),
        decreases initial.len() - seen,
    {
        let ghost kept = without_source(initial.take(seen), source_type@, source_id);
        proof {
            assert(index.records@[i as int] == initial.skip(seen)[0]);
            assert(initial.take(seen + 1).drop_last() =~= initial.take(seen));
            assert(initial.take(seen + 1).last() == initial[seen]);
            assert(initial.skip(seen).skip(1) =~= initial.skip(seen + 1));
        }
        let matches = {
            let r = &index.records[i];
            r.source_id == source_id && r.source_type == kind
        };
        if matches {
            let gone = index.records.remove(i);
            proof {
                assert(index.records@ =~= kept + initial.skip(seen + 1));
            }
        } else {
            proof {
                assert(index.records@ =~= kept.push(initial[seen]) + initial.skip(seen + 1));
            }
            i = i + 1;
        }
        proof {
            seen = seen + 1;
        }
    }
    proof {
        assert(initial.skip(seen).len() == 0);
        assert(seen == initial.len());
        assert(initial.take(seen) =~= initial);
        assert(index.records@ =~= without_source(initial, source_type@, source_id));
        lemma_without_source(initial, source_type@, source_id);
    }
}

/// The index after a source was stored: its earlier record is gone and the
/// new one stands last.
pub open spec fn stored(
    records: Seq<EmbeddingRecord>,
    record: EmbeddingRecord,
) -> Seq<EmbeddingRecord> {
    without_source(records, record.source_type@, record.source_id).push(record)
}

/// Stores the vector of a source under the fingerprint of its content and
/// returns the number of the new record. A record that the source had before
/// is replaced.
///
/// Fails with `StorageFailed`, and changes nothing, only when the numbers
/// for records are used up.
pub fn store_embedding(
    index: &mut EmbeddingIndex,
    source_type: &str,
    source_id: i64,
    content: &str,
    vector: Vec<u32>,
    now: i64,
) -> (r: Result<i64, IndexError>)
    ensures
        old(index).next_id == i64::MAX ==> r is Err && r->Err_0 is StorageFailed && *final(index)
            == *old(index),
        old(index).next_id < i64::MAX ==> r == Ok::<i64, IndexError>(old(index).next_id)
            && final(index).next_id == old(index).next_id + 1 && final(index).records@.len() > 0
            && final(index).records@ == stored(
            old(index).records@,
            final(index).records@.last(),
        ) && ({
            let record = final(index).records@.last();
            &&& record.id == old(index).next_id
            &&& record.source_type@ == source_type@
            &&& record.source_id == source_id
            &&& record.content_hash@ == fingerprint_of(content@)
            &&& record.vector@ == vector@
            &&& record.created_at == now
        }),
        old(index).wf() ==> final(index).wf(),
        forall|dim: nat|
            uniform(old(index).records@, dim) && vector@.len() == dim ==> uniform(
                final(index).records@,
                dim,
            ),
{
    if index.next_id == i64::MAX {
        return Err(IndexError::StorageFailed(String::from_str("no record number is left")));
    }
    let ghost initial = index.records@;
    delete_embedding(index, source_type, source_id);
    let id = index.next_id;
    let record = EmbeddingRecord {
        id,
        source_type: String::from_str(source_type),
        source_id,
        content_hash: fingerprint(content),
        vector,
        created_at: now,
    };
    let ghost rest = index.records@;
    index.records.push(record);
    index.next_id = id + 1;
    proof {
        let all = index.records@;
        lemma_without_source(initial, source_type@, source_id);
        assert(all.last() == all[all.len() - 1]);
        assert(all =~= stored(initial, all.last()));
        if unique_sources(initial) {
            assert forall|i: int, j: int| 0 <= i < j < all.len() implies !is_source(
                #[trigger] all[i],
                (#[trigger] all[j]).source_type@,
                all[j].source_id,
            ) by {
                assert(all[i] == rest[i]);
                if j < rest.len() {
                    assert(all[j] == rest[j]);
                }
            }
        }
        assert forall|dim: nat| uniform(initial, dim) && all.last().vector@.len() == dim implies uniform(
            all,
            dim,
        ) by {
            assert forall|i: int| 0 <= i < all.len() implies (#[trigger] all[i]).vector@.len()
                == dim by {
                if i < rest.len() {
                    assert(all[i] == rest[i]);
                    let j = choose|j: int| 0 <= j < initial.len() && initial[j] == rest[i];
                    assert(initial[j].vector@.len() == dim);
                }
            }
        }
    }
    Ok(id)
}

/// The text that is embedded for a search query.
pub open spec fn query_framing(text: Seq<char>) -> Seq<char> {
    "query: "@ + text
}

/// The text that is embedded for content that is indexed.
pub open spec fn passage_framing(text: Seq<char>) -> Seq<char> {
    "passage: "@ + text
}

/// The text to embed for a search query. Queries and passages are framed
/// differently, and a vector of one framing must not be compared as if it
/// had the other.
pub fn query_text(text: &str) -> (framed: String)
    ensures
        framed@ == query_framing(text@),
{
    let mut framed = String::from_str("query: ");
    framed.append(text);
    framed
}

/// The text to embed for content that is indexed.
pub fn passage_text(text: &str) -> (framed: String)
    ensures
        framed@ == passage_framing(text@),
{
    let mut framed = String::from_str("passage: ");
    framed.append(text);
    framed
}

/// The texts to embed for a batch of contents that are indexed.
pub fn passage_texts(texts: &Vec<String>) -> (framed: Vec<String>)
    ensures
        framed@.len() == texts@.len(),
        forall|i: int| 0 <= i < texts@.len() ==> (#[trigger] framed@[i])@ == passage_framing(texts@[i]@),
{
    let mut framed: Vec<String> = Vec::new();
    let mut i: usize = 0;
    while i < texts.len()
        invariant
            i <= texts.len(),
            framed@.len() == i,
            forall|j: int| 0 <= j < i ==> (#[trigger] framed@[j])@ == passage_framing(texts@[j]@),
        decreases texts.len() - i,
    {
        framed.push(passage_text(texts[i].as_str()));
        i = i + 1;
    }
    framed
}

/// The one vector of an embedding call that was made for one text.
///
/// A call that failed gives `EmbedFailed` with the model's words, a call
/// that returned no vector gives `EmbedFailed` too; otherwise the first
/// vector is the answer.
pub fn first_embedding(batch: Result<Vec<Vec<u32>>, String>) -> (r: Result<Vec<u32>, IndexError>)
    ensures
        batch is Err ==> r is Err && r->Err_0 is EmbedFailed && r->Err_0->EmbedFailed_0@
            == "Embedding failed: "@ + batch->Err_0@,
        batch is Ok && batch->Ok_0@.len() == 0 ==> r is Err && r->Err_0 is EmbedFailed
            && r->Err_0->EmbedFailed_0@ == "No embedding returned"@,
        batch is Ok && batch->Ok_0@.len() > 0 ==> r is Ok && r->Ok_0@ == batch->Ok_0@[0]@,
{
    match batch {
        Err(detail) => {
            let mut message = String::from_str("Embedding failed: ");
            message.append(detail.as_str());
            Err(IndexError::EmbedFailed(message))
        },
        Ok(mut vectors) => {
            if vectors.len() == 0 {
                Err(IndexError::EmbedFailed(String::from_str("No embedding returned")))
            } else {
                Ok(vectors.swap_remove(0))
            }
        },
    }
}

/// Indexes a unit of content of the given kind.
///
/// When the index already holds the source with this very content, nothing
/// is embedded and nothing changes: `embed` need not even be callable then.
/// Otherwise `embed` is called once, with the passage framing of the
/// content; its vector is stored under the source, replacing an earlier
/// record, and its failure is the failure of the whole.
pub fn index_source<F: FnOnce(String) -> Result<Vec<Vec<u32>>, String>>(
    index: &mut EmbeddingIndex,
    source_type: &str,
    source_id: i64,
    content: &str,
    now: i64,
    embed: F,
) -> (r: Result<(), IndexError>)
    requires
        !holds(old(index).records@, source_type@, source_id, fingerprint_of(content@))
            ==> forall|text: String|
            text@ == passage_framing(content@) ==> #[trigger] embed.requires((text,)),
    ensures
        old(index).wf() ==> final(index).wf(),
        holds(old(index).records@, source_type@, source_id, fingerprint_of(content@)) ==> r is Ok
            && *final(index) == *old(index),
        !holds(old(index).records@, source_type@, source_id, fingerprint_of(content@))
            ==> exists|text: String, batch: Result<Vec<Vec<u32>>, String>|
            text@ == passage_framing(content@) && embed.ensures((text,), batch) && indexed(
                *old(index),
                source_type@,
                source_id,
                content@,
                now,
                batch,
                *final(index),
                r,
            ),
{
    if has_embedding(index, source_type, source_id, content) {
        return Ok(());
    }
    let text = passage_text(content);
    let ghost sent = text;
    let batch = embed(text);
    let ghost got = batch;
    let r = match first_embedding(batch) {
        Err(e) => Err(e),
        Ok(vector) => match store_embedding(index, source_type, source_id, content, vector, now) {
            Ok(_) => Ok(()),
            Err(e) => Err(e),
        },
    };
    proof {
        assert(sent@ == passage_framing(content@) && embed.ensures((sent,), got) && indexed(
            *old(index),
            source_type@,
            source_id,
            content@,
            now,
            got,
            *index,
            r,
        ));
    }
    r
}

/// What indexing does once the embedding call has returned `batch`.
pub open spec fn indexed(
    before: EmbeddingIndex,
    source_type: Seq<char>,
    source_id: i64,
    content: Seq<char>,
    now: i64,
    batch: Result<Vec<Vec<u32>>, String>,
    after: EmbeddingIndex,
    r: Result<(), IndexError>,
) -> bool {
    if batch is Err || batch->Ok_0@.len() == 0 {
        r is Err && r->Err_0 is EmbedFailed && after == before
    } else if before.next_id == i64::MAX {
        r is Err && r->Err_0 is StorageFailed && after == before
    } else {
        &&& r is Ok
        &&& after.next_id == before.next_id + 1
        &&& after.records@.len() > 0
        &&& after.records@ == stored(before.records@, after.records@.last())
        &&& after.records@.last().id == before.next_id
        &&& after.records@.last().source_type@ == source_type
        &&& after.records@.last().source_id == source_id
        &&& after.records@.last().content_hash@ == fingerprint_of(content)
        &&& after.records@.last().vector@ == batch->Ok_0@[0]@
        &&& after.records@.last().created_at == now
    }
}

/// Indexes a message for semantic search.
pub fn index_message<F: FnOnce(String) -> Result<Vec<Vec<u32>>, String>>(
    index: &mut EmbeddingIndex,
    message_id: i64,
    content: &str,
    now: i64,
    embed: F,
) -> (r: Result<(), IndexError>)
    requires
        !holds(old(index).records@, "message"@, message_id, fingerprint_of(content@))
            ==> forall|text: String|
            text@ == passage_framing(content@) ==> #[trigger] embed.requires((text,)),
    ensures
        old(index).wf() ==> final(index).wf(),
        holds(old(index).records@, "message"@, message_id, fingerprint_of(content@)) ==> r is Ok
            && *final(index) == *old(index),
        !holds(old(index).records@, "message"@, message_id, fingerprint_of(content@))
            ==> exists|text: String, batch: Result<Vec<Vec<u32>>, String>|
            text@ == passage_framing(content@) && embed.ensures((text,), batch) && indexed(
                *old(index),
                "message"@,
                message_id,
                content@,
                now,
                batch,
                *final(index),
                r,
            ),
{
    index_source(index, "message", message_id, content, now, embed)
}

/// Indexes a remembered fact for semantic search.
pub fn index_memory<F: FnOnce(String) -> Result<Vec<Vec<u32>>, String>>(
    index: &mut EmbeddingIndex,
    memory_id: i64,
    content: &str,
    now: i64,
    embed: F,
) -> (r: Result<(), IndexError>)
    requires
        !holds(old(index).records@, "memory"@, memory_id, fingerprint_of(content@))
            ==> forall|text: String|
            text@ == passage_framing(content@) ==> #[trigger] embed.requires((text,)),
    ensures
        old(index).wf() ==> final(index).wf(),
        holds(old(index).records@, "memory"@, memory_id, fingerprint_of(content@)) ==> r is Ok
            && *final(index) == *old(index),
        !holds(old(index).records@, "memory"@, memory_id, fingerprint_of(content@))
            ==> exists|text: String, batch: Result<Vec<Vec<u32>>, String>|
            text@ == passage_framing(content@) && embed.ensures((text,), batch) && indexed(
                *old(index),
                "memory"@,
                memory_id,
                content@,
                now,
                batch,
                *final(index),
                r,
            ),
{
    index_source(index, "memory", memory_id, content, now, embed)
}

/// After a source was indexed with a content, the index holds it with that
/// content: indexing the same source with the same content once more finds
/// it there, so that the second call embeds nothing, changes nothing and
/// succeeds.
pub proof fn law_reindexing_is_a_no_op(
    before: EmbeddingIndex,
    source_type: Seq<char>,
    source_id: i64,
    content: Seq<char>,
    now: i64,
    batch: Result<Vec<Vec<u32>>, String>,
    after: EmbeddingIndex,
    r: Result<(), IndexError>,
)
    requires
        indexed(before, source_type, source_id, content, now, batch, after, r),
        r is Ok,
    ensures
        holds(after.records@, source_type, source_id, fingerprint_of(content)),
{
    let all = after.records@;
    assert(is_source(all[all.len() - 1], source_type, source_id));
    assert(all[all.len() - 1].content_hash@ == fingerprint_of(content));
}

/// Once a source is stored with a content, the index holds it: indexing the
/// same source with the same content again finds it there, embeds nothing
/// and changes nothing.
pub proof fn law_indexed_is_held(records: Seq<EmbeddingRecord>, record: EmbeddingRecord)
    ensures
        holds(stored(records, record), record.source_type@, record.source_id, record.content_hash@),
        unique_sources(records) ==> unique_sources(stored(records, record)),
{
    let all = stored(records, record);
    let rest = without_source(records, record.source_type@, record.source_id);
    lemma_without_source(records, record.source_type@, record.source_id);
    assert(all[all.len() - 1] == record);
    assert(is_source(all[all.len() - 1], record.source_type@, record.source_id));
    if unique_sources(records) {
        assert forall|i: int, j: int| 0 <= i < j < all.len() implies !is_source(
            #[trigger] all[i],
            (#[trigger] all[j]).source_type@,
            all[j].source_id,
        ) by {
            assert(all[i] == rest[i]);
            if j < rest.len() {
                assert(all[j] == rest[j]);
            }
        }
    }
}


/// The kind that a search is restricted to, if any.
pub open spec fn kind_of(source_type: Option<&str>) -> Option<Seq<char>> {
    match source_type {
        Some(kind) => Some(kind@),
        None => None,
    }
}

/// The candidate is of the wanted kind and at least as similar as asked.
pub open spec fn is_eligible(c: SearchHit, kind: Option<Seq<char>>, min_similarity: u32) -> bool {
    (kind is None || c.source_type@ == kind->Some_0) && binary32::le(min_similarity, c.similarity)
}

/// The candidates that take part, in order.
pub open spec fn eligible(cs: Seq<SearchHit>, kind: Option<Seq<char>>, min_similarity: u32) -> Seq<
    SearchHit,
>
    decreases cs.len(),
{
    if cs.len() == 0 {
        Seq::empty()
    } else {
        let before = eligible(cs.drop_last(), kind, min_similarity);
        if is_eligible(cs.last(), kind, min_similarity) {
            before.push(cs.last())
        } else {
            before
        }
    }
}

/// The number by which hits are ordered.
pub open spec fn rank_key(c: SearchHit) -> int {
    binary32::order_key(c.similarity)
}

/// A ranking with one more hit: it goes behind every hit that is at least
/// as similar, and before the others.
pub open spec fn placed(ranking: Seq<SearchHit>, c: SearchHit) -> Seq<SearchHit>
    decreases ranking.len(),
{
    if ranking.len() == 0 {
        seq![c]
    } else if rank_key(ranking.last()) >= rank_key(c) {
        ranking.push(c)
    } else {
        placed(ranking.drop_last(), c).push(ranking.last())
    }
}

/// The hits from most to least similar; equally similar ones stay in the
/// order in which they came.
pub open spec fn ranked(cs: Seq<SearchHit>) -> Seq<SearchHit>
    decreases cs.len(),
{
    if cs.len() == 0 {
        Seq::empty()
    } else {
        placed(ranked(cs.drop_last()), cs.last())
    }
}

/// The first `limit` hits; all of them when the limit is negative or not
/// reached.
pub open spec fn cut(hits: Seq<SearchHit>, limit: i32) -> Seq<SearchHit> {
    if 0 <= limit < hits.len() {
        hits.take(limit as int)
    } else {
        hits
    }
}

/// What a search returns: the eligible candidates, ranked, cut at the limit.
pub open spec fn search_result(
    cs: Seq<SearchHit>,
    kind: Option<Seq<char>>,
    limit: i32,
    min_similarity: u32,
) -> Seq<SearchHit> {
    cut(ranked(eligible(cs, kind, min_similarity)), limit)
}

proof fn lemma_placed_at(ranking: Seq<SearchHit>, c: SearchHit, pos: int)
    requires
        0 <= pos <= ranking.len(),
        forall|k: int| pos <= k < ranking.len() ==> rank_key(#[trigger] ranking[k]) < rank_key(c),
        pos > 0 ==> rank_key(ranking[pos - 1]) >= rank_key(c),
    ensures
        placed(ranking, c) == ranking.insert(pos, c),
    decreases ranking.len(),
{
    if ranking.len() == 0 {
        assert(ranking.insert(pos, c) =~= seq![c]);
    } else if pos == ranking.len() {
        assert(ranking.insert(pos, c) =~= ranking.push(c));
    } else {
        let front = ranking.drop_last();
        assert(rank_key(ranking[ranking.len() - 1]) < rank_key(c));
        assert forall|k: int| pos <= k < front.len() implies rank_key(#[trigger] front[k])
            < rank_key(c) by {
            assert(front[k] == ranking[k]);
        }
        if pos > 0 {
            assert(front[pos - 1] == ranking[pos - 1]);
        }
        lemma_placed_at(front, c, pos);
        assert(front.insert(pos, c).push(ranking.last()) =~= ranking.insert(pos, c));
    }
}

fn copy_of(c: &SearchHit) -> (r: SearchHit)
    ensures
        r == *c,
{
    SearchHit {
        id: c.id,
        source_type: c.source_type.clone(),
        source_id: c.source_id,
        similarity: c.similarity,
    }
}

/// Searches the candidates, each of which comes with its similarity to the
/// query.
///
/// Candidates of another kind than `source_type`, where one is given, and
/// candidates less similar than `min_similarity` are discarded. The rest is
/// returned from most to least similar, equally similar ones in the order in
/// which they came, and no more than `limit` of them; a negative limit cuts
/// nothing.
pub fn semantic_search(
    candidates: &Vec<SearchHit>,
    source_type: Option<&str>,
    limit: i32,
    min_similarity: u32,
) -> (hits: Vec<SearchHit>)
    ensures
        hits@ == search_result(candidates@, kind_of(source_type), limit, min_similarity),
{
    let ghost kind = kind_of(source_type);
    let wanted: Option<String> = match source_type {
        Some(k) => Some(String::from_str(k)),
        None => None,
    };
    let mut hits: Vec<SearchHit> = Vec::new();
    let mut i: usize = 0;
    assert(candidates@.take(0) =~= Seq::<SearchHit>::empty());
    while i < candidates.len()
        invariant
            i <= candidates.len(),
            kind == kind_of(source_type),
            wanted is Some <==> kind is Some,
            wanted is Some ==> wanted->Some_0@ == kind->Some_0,
            hits@ == ranked(eligible(candidates@.take(i as int), kind, min_similarity)),
        decreases candidates.len() - i,
    {
        let c = &candidates[i];
        proof {
            assert(candidates@.take(i + 1).drop_last() =~= candidates@.take(i as int));
            assert(candidates@.take(i + 1).last() == *c);
        }
        let of_kind = match &wanted {
            Some(k) => c.source_type == *k,
            None => true,
        };
        if of_kind && binary32::less_or_equal(min_similarity, c.similarity) {
            let ghost chosen = eligible(candidates@.take(i as int), kind, min_similarity);
            let ghost ranking = hits@;
            let c_key = binary32::key(c.similarity);
            let mut pos: usize = hits.len();
            while pos > 0 && binary32::key(hits[pos - 1].similarity) < c_key
                invariant
                    pos <= hits.len(),
                    hits@ == ranking,
                    c_key == rank_key(*c),
                    forall|k: int|
                        pos <= k < hits.len() ==> rank_key(#[trigger] hits@[k]) < rank_key(*c),
                decreases pos,
            {
                pos = pos - 1;
            }
            proof {
                lemma_placed_at(ranking, *c, pos as int);
                assert(chosen.push(*c).drop_last() =~= chosen);
                assert(chosen.push(*c).last() == *c);
            }
            hits.insert(pos, copy_of(c));
        }
        i = i + 1;
    }
    assert(candidates@.take(i as int) =~= candidates@);
    if limit >= 0 && (limit as usize) < hits.len() {
        hits.truncate(limit as usize);
        assert(hits@ =~= cut(ranked(eligible(candidates@, kind, min_similarity)), limit));
    }
    hits
}

/// The messages most similar to a query, as pairs of message and
/// similarity: a search among the messages with a floor of 0.5.
pub fn find_similar_messages(candidates: &Vec<SearchHit>, limit: i32) -> (found: Vec<(i64, u32)>)
    ensures
        found@.len() == search_result(
            candidates@,
            Some("message"@),
            limit,
            crate::context::DISPLAY_FLOOR,
        ).len(),
        forall|i: int|
            0 <= i < found@.len() ==> (#[trigger] found@[i]) == ({
                let hit = search_result(
                    candidates@,
                    Some("message"@),
                    limit,
                    crate::context::DISPLAY_FLOOR,
                )[i];
                (hit.source_id, hit.similarity)
            }),
{
    let hits = semantic_search(candidates, Some("message"), limit, crate::context::DISPLAY_FLOOR);
    let mut found: Vec<(i64, u32)> = Vec::new();
    let mut i: usize = 0;
    while i < hits.len()
        invariant
            i <= hits.len(),
            found@.len() == i,
            forall|j: int|
                0 <= j < i ==> (#[trigger] found@[j]) == (hits@[j].source_id, hits@[j].similarity),
        decreases hits.len() - i,
    {
        found.push((hits[i].source_id, hits[i].similarity));
        i = i + 1;
    }
    found
}

/// Where the content of a kind of source is kept.
#[derive(Clone, Copy, Debug, PartialEq, Eq, Structural)]
pub enum ContentTable {
    Messages,
    Memory,
}

/// Where the content of a kind of source is kept; nowhere for a kind that is
/// neither a message nor a remembered fact.
pub fn content_table(source_type: &str) -> (t: Option<ContentTable>)
    ensures
        source_type@ == "message"@ ==> t == Some(ContentTable::Messages),
        source_type@ == "memory"@ ==> t == Some(ContentTable::Memory),
        source_type@ != "message"@ && source_type@ != "memory"@ ==> t is None,
{
    proof {
        reveal_strlit("message");
        reveal_strlit("memory");
        assert("message"@.len() == 7);
        assert("memory"@.len() == 6);
    }
    if crate::text::str_equals(source_type, "message") {
        Some(ContentTable::Messages)
    } else if crate::text::str_equals(source_type, "memory") {
        Some(ContentTable::Memory)
    } else {
        None
    }
}

/// The hits whose content was found, each with its content, in order.
/// `contents` gives for every hit what looking it up returned; a hit
/// without an entry there counts as not found.
pub open spec fn with_contents(hits: Seq<SearchHit>, contents: Seq<Option<String>>) -> Seq<
    SearchResult,
>
    decreases hits.len(),
{
    if hits.len() == 0 {
        Seq::empty()
    } else {
        let before = with_contents(hits.drop_last(), contents);
        let k = hits.len() - 1;
        if k < contents.len() && contents[k] is Some {
            before.push(
                SearchResult {
                    source_type: hits[k].source_type,
                    source_id: hits[k].source_id,
                    content: contents[k]->Some_0,
                    similarity: hits[k].similarity,
                },
            )
        } else {
            before
        }
    }
}

/// The context for a prompt: the hits of a search together with their
/// content. A hit whose content is not there any more is left out.
pub fn find_rag_context(hits: Vec<SearchHit>, contents: Vec<Option<String>>) -> (results: Vec<
    SearchResult,
>)
    ensures
        results@ == with_contents(hits@, contents@),
{
    let mut results: Vec<SearchResult> = Vec::new();
    let mut i: usize = 0;
    assert(hits@.take(0) =~= Seq::<SearchHit>::empty());
    while i < hits.len()
        invariant
            i <= hits.len(),
            results@ == with_contents(hits@.take(i as int), contents@),
        decreases hits.len() - i,
    {
        proof {
            assert(hits@.take(i + 1).drop_last() =~= hits@.take(i as int));
            assert(hits@.take(i + 1)[i as int] == hits@[i as int]);
        }
        if i < contents.len() {
            match &contents[i] {
                Some(content) => {
                    results.push(
                        SearchResult {
                            source_type: hits[i].source_type.clone(),
                            source_id: hits[i].source_id,
                            content: content.clone(),
                            similarity: hits[i].similarity,
                        },
                    );
                },
                None => {},
            }
        }
        i = i + 1;
    }
    assert(hits@.take(i as int) =~= hits@);
    results
}

/// The members of a ranking with one more hit are that hit and the members
/// of the ranking.
proof fn lemma_placed_members(ranking: Seq<SearchHit>, c: SearchHit)
    ensures
        placed(ranking, c).len() == ranking.len() + 1,
        forall|y: SearchHit| #[trigger] placed(ranking, c).contains(y) <==> ranking.contains(y) || y == c,
    decreases ranking.len(),
{
    let r = placed(ranking, c);
    if ranking.len() == 0 {
        assert(r[0] == c);
        assert forall|y: SearchHit| #[trigger] r.contains(y) <==> ranking.contains(y) || y == c by {
            if r.contains(y) {
                let k = choose|k: int| 0 <= k < r.len() && r[k] == y;
            }
        }
    } else if rank_key(ranking.last()) >= rank_key(c) {
        assert forall|y: SearchHit| #[trigger] r.contains(y) <==> ranking.contains(y) || y == c by {
            if r.contains(y) {
                let k = choose|k: int| 0 <= k < r.len() && r[k] == y;
                if k < ranking.len() {
                    assert(ranking[k] == y);
                }
            }
            if ranking.contains(y) {
                let k = choose|k: int| 0 <= k < ranking.len() && ranking[k] == y;
                assert(r[k] == y);
            }
            if y == c {
                assert(r[r.len() - 1] == y);
            }
        }
    } else {
        let front = ranking.drop_last();
        let inner = placed(front, c);
        lemma_placed_members(front, c);
        assert forall|y: SearchHit| #[trigger] r.contains(y) <==> ranking.contains(y) || y == c by {
            if r.contains(y) {
                let k = choose|k: int| 0 <= k < r.len() && r[k] == y;
                if k < inner.len() {
                    assert(inner[k] == y);
                    assert(inner.contains(y));
                    if front.contains(y) {
                        let m = choose|m: int| 0 <= m < front.len() && front[m] == y;
                        assert(ranking[m] == y);
                    }
                } else {
                    assert(ranking[ranking.len() - 1] == y);
                }
            }
            if ranking.contains(y) {
                let k = choose|k: int| 0 <= k < ranking.len() && ranking[k] == y;
                if k < front.len() {
                    assert(front[k] == y);
                    assert(front.contains(y));
                    assert(inner.contains(y));
                    let m = choose|m: int| 0 <= m < inner.len() && inner[m] == y;
                    assert(r[m] == y);
                } else {
                    assert(r[r.len() - 1] == y);
                }
            }
            if y == c {
                assert(inner.contains(y));
                let m = choose|m: int| 0 <= m < inner.len() && inner[m] == y;
                assert(r[m] == y);
            }
        }
    }
}

/// Placing a hit keeps a ranking in order.
proof fn lemma_placed_sorted(ranking: Seq<SearchHit>, c: SearchHit)
    requires
        forall|i: int, j: int|
            0 <= i < j < ranking.len() ==> rank_key(#[trigger] ranking[i]) >= rank_key(
                #[trigger] ranking[j],
            ),
    ensures
        forall|i: int, j: int|
            0 <= i < j < placed(ranking, c).len() ==> rank_key(#[trigger] placed(ranking, c)[i])
                >= rank_key(#[trigger] placed(ranking, c)[j]),
        forall|i: int|
            0 <= i < placed(ranking, c).len() ==> (#[trigger] placed(ranking, c)[i]) == c
                || ranking.contains(placed(ranking, c)[i]),
        (forall|k: int| 0 <= k < ranking.len() ==> rank_key(#[trigger] ranking[k]) != rank_key(c))
            && (forall|i: int, j: int|
            0 <= i < j < ranking.len() ==> rank_key(#[trigger] ranking[i]) > rank_key(
                #[trigger] ranking[j],
            )) ==> forall|i: int, j: int|
            0 <= i < j < placed(ranking, c).len() ==> rank_key(#[trigger] placed(ranking, c)[i])
                > rank_key(#[trigger] placed(ranking, c)[j]),
    decreases ranking.len(),
{
    let r = placed(ranking, c);
    lemma_placed_members(ranking, c);
    assert forall|i: int| 0 <= i < r.len() implies (#[trigger] r[i]) == c || ranking.contains(
        r[i],
    ) by {
        assert(r.contains(r[i]));
    }
    if ranking.len() == 0 {
    } else if rank_key(ranking.last()) >= rank_key(c) {
        assert forall|i: int, j: int| 0 <= i < j < r.len() implies rank_key(#[trigger] r[i])
            >= rank_key(#[trigger] r[j]) by {
            if j == r.len() - 1 {
                if i < ranking.len() - 1 {
                    assert(rank_key(ranking[i]) >= rank_key(ranking[ranking.len() - 1]));
                }
            }
        }
    } else {
        let front = ranking.drop_last();
        let inner = placed(front, c);
        assert forall|i: int, j: int| 0 <= i < j < front.len() implies rank_key(
            #[trigger] front[i],
        ) >= rank_key(#[trigger] front[j]) by {
            assert(front[i] == ranking[i] && front[j] == ranking[j]);
        }
        lemma_placed_sorted(front, c);
        lemma_placed_members(front, c);
        let last = ranking.last();
        assert forall|i: int| 0 <= i < inner.len() implies rank_key(#[trigger] inner[i])
            >= rank_key(last) by {
            if inner[i] != c {
                assert(front.contains(inner[i]));
                let m = choose|m: int| 0 <= m < front.len() && front[m] == inner[i];
                assert(rank_key(ranking[m]) >= rank_key(ranking[ranking.len() - 1]));
            }
        }
        assert forall|i: int, j: int| 0 <= i < j < r.len() implies rank_key(#[trigger] r[i])
            >= rank_key(#[trigger] r[j]) by {
            if j < inner.len() {
                assert(r[i] == inner[i] && r[j] == inner[j]);
            } else {
                assert(r[i] == inner[i]);
            }
        }
        if (forall|k: int| 0 <= k < ranking.len() ==> rank_key(#[trigger] ranking[k]) != rank_key(c))
            && (forall|i: int, j: int|
            0 <= i < j < ranking.len() ==> rank_key(#[trigger] ranking[i]) > rank_key(
                #[trigger] ranking[j],
            )) {
            assert forall|k: int| 0 <= k < front.len() implies rank_key(#[trigger] front[k])
                != rank_key(c) by {
                assert(front[k] == ranking[k]);
            }
            assert forall|i: int, j: int| 0 <= i < j < front.len() implies rank_key(
                #[trigger] front[i],
            ) > rank_key(#[trigger] front[j]) by {
                assert(front[i] == ranking[i] && front[j] == ranking[j]);
            }
            assert forall|i: int| 0 <= i < inner.len() implies rank_key(#[trigger] inner[i])
                > rank_key(last) by {
                if inner[i] != c {
                    assert(front.contains(inner[i]));
                    let m = choose|m: int| 0 <= m < front.len() && front[m] == inner[i];
                    assert(rank_key(ranking[m]) > rank_key(ranking[ranking.len() - 1]));
                }
            }
            assert forall|i: int, j: int| 0 <= i < j < r.len() implies rank_key(#[trigger] r[i])
                > rank_key(#[trigger] r[j]) by {
                if j < inner.len() {
                    assert(r[i] == inner[i] && r[j] == inner[j]);
                } else {
                    assert(r[i] == inner[i]);
                }
            }
        }
    }
    if ranking.len() > 0 && rank_key(ranking.last()) >= rank_key(c) {
        if (forall|k: int| 0 <= k < ranking.len() ==> rank_key(#[trigger] ranking[k]) != rank_key(c))
            && (forall|i: int, j: int|
            0 <= i < j < ranking.len() ==> rank_key(#[trigger] ranking[i]) > rank_key(
                #[trigger] ranking[j],
            )) {
            assert forall|i: int, j: int| 0 <= i < j < r.len() implies rank_key(#[trigger] r[i])
                > rank_key(#[trigger] r[j]) by {
                if j == r.len() - 1 {
                    assert(rank_key(ranking[ranking.len() - 1]) != rank_key(c));
                    if i < ranking.len() - 1 {
                        assert(rank_key(ranking[i]) > rank_key(ranking[ranking.len() - 1]));
                    }
                }
            }
        }
    }
}

/// The members of the ranked hits are the hits.
proof fn lemma_ranked_members(cs: Seq<SearchHit>)
    ensures
        ranked(cs).len() == cs.len(),
        forall|y: SearchHit| #[trigger] ranked(cs).contains(y) <==> cs.contains(y),
    decreases cs.len(),
{
    if cs.len() > 0 {
        let front = cs.drop_last();
        lemma_ranked_members(front);
        lemma_placed_members(ranked(front), cs.last());
        assert forall|y: SearchHit| #[trigger] ranked(cs).contains(y) <==> cs.contains(y) by {
            if cs.contains(y) {
                let k = choose|k: int| 0 <= k < cs.len() && cs[k] == y;
                if k < front.len() {
                    assert(front[k] == y);
                    assert(front.contains(y));
                }
            }
            if front.contains(y) {
                let k = choose|k: int| 0 <= k < front.len() && front[k] == y;
                assert(cs[k] == y);
            }
            if y == cs.last() {
                assert(cs[cs.len() - 1] == y);
            }
        }
    } else {
        assert forall|y: SearchHit| #[trigger] ranked(cs).contains(y) <==> cs.contains(y) by {
            if ranked(cs).contains(y) {
                let k = choose|k: int| 0 <= k < ranked(cs).len() && ranked(cs)[k] == y;
            }
            if cs.contains(y) {
                let k = choose|k: int| 0 <= k < cs.len() && cs[k] == y;
            }
        }
    }
}

/// The eligible candidates are candidates, and each is eligible.
proof fn lemma_eligible_members(cs: Seq<SearchHit>, kind: Option<Seq<char>>, min_similarity: u32)
    ensures
        eligible(cs, kind, min_similarity).len() <= cs.len(),
        forall|i: int|
            0 <= i < eligible(cs, kind, min_similarity).len() ==> is_eligible(
                #[trigger] eligible(cs, kind, min_similarity)[i],
                kind,
                min_similarity,
            ) && cs.contains(eligible(cs, kind, min_similarity)[i]),
    decreases cs.len(),
{
    let e = eligible(cs, kind, min_similarity);
    if cs.len() > 0 {
        let front = cs.drop_last();
        let before = eligible(front, kind, min_similarity);
        lemma_eligible_members(front, kind, min_similarity);
        assert forall|i: int| 0 <= i < e.len() implies is_eligible(
            #[trigger] e[i],
            kind,
            min_similarity,
        ) && cs.contains(e[i]) by {
            if i < before.len() {
                assert(e[i] == before[i]);
                assert(front.contains(before[i]));
                let k = choose|k: int| 0 <= k < front.len() && front[k] == before[i];
                assert(cs[k] == e[i]);
            } else {
                assert(cs[cs.len() - 1] == e[i]);
            }
        }
    }
}

/// No two of the hits are equally similar.
pub open spec fn distinct_similarities(cs: Seq<SearchHit>) -> bool {
    forall|i: int, j: int|
        0 <= i < j < cs.len() ==> rank_key(#[trigger] cs[i]) != rank_key(#[trigger] cs[j])
}

proof fn lemma_eligible_distinct(cs: Seq<SearchHit>, kind: Option<Seq<char>>, min_similarity: u32)
    requires
        distinct_similarities(cs),
    ensures
        distinct_similarities(eligible(cs, kind, min_similarity)),
    decreases cs.len(),
{
    let e = eligible(cs, kind, min_similarity);
    if cs.len() > 0 {
        let front = cs.drop_last();
        let before = eligible(front, kind, min_similarity);
        assert(distinct_similarities(front)) by {
            assert forall|i: int, j: int| 0 <= i < j < front.len() implies rank_key(
                #[trigger] front[i],
            ) != rank_key(#[trigger] front[j]) by {
                assert(front[i] == cs[i] && front[j] == cs[j]);
            }
        }
        lemma_eligible_distinct(front, kind, min_similarity);
        lemma_eligible_members(front, kind, min_similarity);
        assert forall|i: int, j: int| 0 <= i < j < e.len() implies rank_key(#[trigger] e[i])
            != rank_key(#[trigger] e[j]) by {
            assert(e[i] == before[i]);
            if j < before.len() {
                assert(e[j] == before[j]);
            } else {
                assert(front.contains(before[i]));
                let k = choose|k: int| 0 <= k < front.len() && front[k] == before[i];
                assert(cs[k] == e[i]);
                assert(cs[cs.len() - 1] == e[j]);
            }
        }
    }
}

proof fn lemma_ranked_sorted(cs: Seq<SearchHit>)
    ensures
        forall|i: int, j: int|
            0 <= i < j < ranked(cs).len() ==> rank_key(#[trigger] ranked(cs)[i]) >= rank_key(
                #[trigger] ranked(cs)[j],
            ),
        distinct_similarities(cs) ==> forall|i: int, j: int|
            0 <= i < j < ranked(cs).len() ==> rank_key(#[trigger] ranked(cs)[i]) > rank_key(
                #[trigger] ranked(cs)[j],
            ),
    decreases cs.len(),
{
    if cs.len() > 0 {
        let front = cs.drop_last();
        lemma_ranked_sorted(front);
        lemma_placed_sorted(ranked(front), cs.last());
        if distinct_similarities(cs) {
            assert(distinct_similarities(front)) by {
                assert forall|i: int, j: int| 0 <= i < j < front.len() implies rank_key(
                    #[trigger] front[i],
                ) != rank_key(#[trigger] front[j]) by {
                    assert(front[i] == cs[i] && front[j] == cs[j]);
                }
            }
            lemma_ranked_members(front);
            assert forall|k: int| 0 <= k < ranked(front).len() implies rank_key(
                #[trigger] ranked(front)[k],
            ) != rank_key(cs.last()) by {
                assert(ranked(front).contains(ranked(front)[k]));
                assert(front.contains(ranked(front)[k]));
                let m = choose|m: int| 0 <= m < front.len() && front[m] == ranked(front)[k];
                assert(cs[m] == ranked(front)[k]);
                assert(cs[cs.len() - 1] == cs.last());
            }
        }
    }
}

/// What a search returns is in order: no hit is more similar than one
/// before it. No hit is less similar than the floor, and every hit is of the
/// wanted kind and one of the candidates. With a limit that is not negative,
/// no more hits than the limit are returned.
pub proof fn law_search_is_ranked(
    cs: Seq<SearchHit>,
    kind: Option<Seq<char>>,
    limit: i32,
    min_similarity: u32,
)
    ensures
        forall|i: int, j: int|
            0 <= i < j < search_result(cs, kind, limit, min_similarity).len() ==> binary32::le(
                (#[trigger] search_result(cs, kind, limit, min_similarity)[j]).similarity,
                (#[trigger] search_result(cs, kind, limit, min_similarity)[i]).similarity,
            ),
        forall|i: int|
            0 <= i < search_result(cs, kind, limit, min_similarity).len() ==> is_eligible(
                #[trigger] search_result(cs, kind, limit, min_similarity)[i],
                kind,
                min_similarity,
            ) && cs.contains(search_result(cs, kind, limit, min_similarity)[i]),
        limit >= 0 ==> search_result(cs, kind, limit, min_similarity).len() <= limit,
        search_result(cs, kind, limit, min_similarity).len() <= cs.len(),
{
    let e = eligible(cs, kind, min_similarity);
    let r = ranked(e);
    let out = search_result(cs, kind, limit, min_similarity);
    lemma_eligible_members(cs, kind, min_similarity);
    lemma_ranked_members(e);
    lemma_ranked_sorted(e);
    assert forall|i: int| 0 <= i < out.len() implies is_eligible(
        #[trigger] out[i],
        kind,
        min_similarity,
    ) && cs.contains(out[i]) by {
        assert(out[i] == r[i]);
        assert(r.contains(r[i]));
        assert(e.contains(r[i]));
        let k = choose|k: int| 0 <= k < e.len() && e[k] == r[i];
        assert(is_eligible(e[k], kind, min_similarity));
    }
    assert forall|i: int, j: int| 0 <= i < j < out.len() implies binary32::le(
        (#[trigger] out[j]).similarity,
        (#[trigger] out[i]).similarity,
    ) by {
        assert(out[i] == r[i] && out[j] == r[j]);
        assert(rank_key(r[i]) >= rank_key(r[j]));
        assert(is_eligible(out[i], kind, min_similarity));
        assert(is_eligible(out[j], kind, min_similarity));
    }
}

/// Where no two candidates are equally similar, what a search returns is
/// strictly descending: every hit is less similar than the one before it.
pub proof fn law_search_is_strict(
    cs: Seq<SearchHit>,
    kind: Option<Seq<char>>,
    limit: i32,
    min_similarity: u32,
)
    requires
        distinct_similarities(cs),
    ensures
        forall|i: int, j: int|
            0 <= i < j < search_result(cs, kind, limit, min_similarity).len() ==> binary32::lt(
                (#[trigger] search_result(cs, kind, limit, min_similarity)[j]).similarity,
                (#[trigger] search_result(cs, kind, limit, min_similarity)[i]).similarity,
            ),
{
    let e = eligible(cs, kind, min_similarity);
    let r = ranked(e);
    let out = search_result(cs, kind, limit, min_similarity);
    lemma_eligible_distinct(cs, kind, min_similarity);
    lemma_ranked_sorted(e);
    law_search_is_ranked(cs, kind, limit, min_similarity);
    assert forall|i: int, j: int| 0 <= i < j < out.len() implies binary32::lt(
        (#[trigger] out[j]).similarity,
        (#[trigger] out[i]).similarity,
    ) by {
        assert(out[i] == r[i] && out[j] == r[j]);
        assert(rank_key(r[i]) > rank_key(r[j]));
        assert(is_eligible(out[i], kind, min_similarity));
        assert(is_eligible(out[j], kind, min_similarity));
    }
}


/// Figures about the index.
#[derive(Debug)]
pub struct EmbeddingStats {
    pub total_embeddings: i64,
    /// The number of records of each kind.
    pub by_type: Vec<(String, i64)>,
    pub embedding_dimension: usize,
    pub model: String,
}

/// The figures about the index, from the counts that the store gave,
/// together with the dimension and the name of the embedding model in use.
pub fn get_embedding_stats(total: i64, by_type: Vec<(String, i64)>) -> (stats: EmbeddingStats)
    ensures
        stats.total_embeddings == total,
        stats.by_type == by_type,
        stats.embedding_dimension == EMBEDDING_DIM,
        stats.model@ == "multilingual-e5-small"@,
{
    EmbeddingStats {
        total_embeddings: total,
        by_type,
        embedding_dimension: EMBEDDING_DIM,
        model: String::from_str("multilingual-e5-small"),
    }
}

} // verus!
