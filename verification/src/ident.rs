//! Identifiers: random chunk ids, time-ordered record ids, and the digest
//! under which a password is stored.

use crate::text::{decimal, decimal_i64, same_text};
use md5::{Digest, Md5};
use rand::seq::IteratorRandom;
use vstd::prelude::*;

verus! {

/// Whether a character is a lowercase hexadecimal digit.
pub open spec fn is_lower_hex(c: char) -> bool {
    ('0' <= c && c <= '9') || ('a' <= c && c <= 'f')
}

/// Formats a random UUID that `uuid::Uuid::new_v4` returns with its
/// `simple` formatter. The contract claims the shape that formatter
/// documents: 32 lowercase hexadecimal digits, without hyphens. Which
/// digits is left open: they are random.
#[verifier::external_body]
fn random_uuid_simple() -> (id: String)
    ensures
        id@.len() == 32,
        forall|i: int| 0 <= i < id@.len() ==> is_lower_hex(#[trigger] id@[i]),
{
    format!("{}", uuid::Uuid::new_v4().simple())
}

/// A fresh opaque id for a chunk or a key: 32 lowercase hexadecimal
/// digits, chosen at random.
pub fn build_id() -> (id: String)
    ensures
        id@.len() == 32,
        forall|i: int| 0 <= i < id@.len() ==> is_lower_hex(#[trigger] id@[i]),
{
    random_uuid_simple()
}

/// Reads the clock with `chrono::Utc::now` and returns its
/// `timestamp_millis`: the milliseconds since 1970-01-01 00:00:00 UTC.
/// Nothing is claimed of the number: it depends on when the call is made.
#[verifier::external_body]
fn clock_millis() -> (millis: i64) {
    chrono::Utc::now().timestamp_millis()
}

/// The time-ordered id for a timestamp in milliseconds, a node, a worker
/// and a sequence number: from the top, 41 bits of the timestamp, 5 bits
/// of the node, 5 bits of the worker and 2 bits of the sequence number.
pub open spec fn snowflake_id(timestamp: u64, node_id: u64, worker_id: u64, sequence: u64) -> u64 {
    ((timestamp & 0x1FFFFFFFFFF) << 12) | ((node_id & 0x1F) << 7) | ((worker_id & 0x1F) << 2) | (
    sequence & 0x03)
}

/// An id has at most 53 bits, so that it survives a passage through a
/// 64-bit float; and for ids that are in range, the id tells its four
/// parts apart: different parts give different ids.
pub proof fn lemma_snowflake_id(timestamp: u64, node_id: u64, worker_id: u64, sequence: u64)
    ensures
        snowflake_id(timestamp, node_id, worker_id, sequence) < 0x20_0000_0000_0000,
        snowflake_id(timestamp, node_id, worker_id, sequence) >> 12 == timestamp & 0x1FFFFFFFFFF,
        (snowflake_id(timestamp, node_id, worker_id, sequence) >> 7) & 0x1F == node_id & 0x1F,
        (snowflake_id(timestamp, node_id, worker_id, sequence) >> 2) & 0x1F == worker_id & 0x1F,
        snowflake_id(timestamp, node_id, worker_id, sequence) & 0x03 == sequence & 0x03,
{
    let id = snowflake_id(timestamp, node_id, worker_id, sequence);
    assert(((timestamp & 0x1FFFFFFFFFF) << 12) | ((node_id & 0x1F) << 7) | ((worker_id & 0x1F)
        << 2) | (sequence & 0x03) < 0x20_0000_0000_0000) by (bit_vector);
    assert((((timestamp & 0x1FFFFFFFFFF) << 12) | ((node_id & 0x1F) << 7) | ((worker_id & 0x1F)
        << 2) | (sequence & 0x03)) >> 12 == timestamp & 0x1FFFFFFFFFF) by (bit_vector);
    assert(((((timestamp & 0x1FFFFFFFFFF) << 12) | ((node_id & 0x1F) << 7) | ((worker_id & 0x1F)
        << 2) | (sequence & 0x03)) >> 7) & 0x1F == node_id & 0x1F) by (bit_vector);
    assert(((((timestamp & 0x1FFFFFFFFFF) << 12) | ((node_id & 0x1F) << 7) | ((worker_id & 0x1F)
        << 2) | (sequence & 0x03)) >> 2) & 0x1F == worker_id & 0x1F) by (bit_vector);
    assert((((timestamp & 0x1FFFFFFFFFF) << 12) | ((node_id & 0x1F) << 7) | ((worker_id & 0x1F)
        << 2) | (sequence & 0x03)) & 0x03 == sequence & 0x03) by (bit_vector);
}

/// Mathematical model of a [`SafeSnowflake`].
pub struct SnowflakeState {
    pub node_id: u64,
    pub worker_id: u64,
    pub sequence: u64,
    pub last_timestamp: u64,
}

impl SnowflakeState {
    /// The sequence number after the present one: it counts from 0 to 3
    /// and starts over.
    pub open spec fn next_sequence(self) -> u64 {
        (((self.sequence & 0x03) + 1) as u64) & 0x03
    }

    /// Whether the generator can issue an id at this timestamp: it cannot
    /// where the timestamp is that of the last id and all four sequence
    /// numbers of that millisecond are used up.
    pub open spec fn can_issue(self, timestamp: u64) -> bool {
        timestamp != self.last_timestamp || self.next_sequence() != 0
    }

    /// The generator after it issued an id at this timestamp: within one
    /// millisecond the sequence number counts up; at any other timestamp
    /// it starts again at 0.
    pub open spec fn issued(self, timestamp: u64) -> SnowflakeState {
        SnowflakeState {
            sequence: if timestamp == self.last_timestamp {
                self.next_sequence()
            } else {
                0
            },
            last_timestamp: timestamp,
            ..self
        }
    }

    /// The id that the generator last issued.
    pub open spec fn last_id(self) -> u64 {
        snowflake_id(self.last_timestamp, self.node_id, self.worker_id, self.sequence)
    }
}

/// A generator of time-ordered ids of at most 53 bits.
pub struct SafeSnowflake {
    node_id: u64,
    worker_id: u64,
    sequence: u64,
    last_timestamp: u64,
}

impl View for SafeSnowflake {
    type V = SnowflakeState;

    closed spec fn view(&self) -> SnowflakeState {
        SnowflakeState {
            node_id: self.node_id,
            worker_id: self.worker_id,
            sequence: self.sequence,
            last_timestamp: self.last_timestamp,
        }
    }
}

impl SafeSnowflake {
    /// A generator for a node and a worker, of which the low 5 bits count.
    pub fn new(node_id: u64, worker_id: u64) -> (out: Self)
        ensures
            out@ == (SnowflakeState {
                node_id: node_id & 0x1F,
                worker_id: worker_id & 0x1F,
                sequence: 0,
                last_timestamp: 0,
            }),
    {
        Self { node_id: node_id & 0x1F, worker_id: worker_id & 0x1F, sequence: 0, last_timestamp: 0 }
    }

    /// Issues the id for a timestamp, if the generator can issue one
    /// there. Where it cannot, nothing changes: the caller comes back with
    /// a later timestamp.
    pub fn issue(&mut self, timestamp: u64) -> (id: Option<u64>)
        ensures
            old(self)@.can_issue(timestamp) ==> final(self)@ == old(self)@.issued(timestamp) && id
                == Some(final(self)@.last_id()),
            !old(self)@.can_issue(timestamp) ==> final(self)@ == old(self)@ && id is None,
    {
        if timestamp == self.last_timestamp {
            let low: u64 = self.sequence & 0x03;
            proof {
                let s = self.sequence;
                assert(s & 0x03 <= 3) by (bit_vector);
            }
            let next: u64 = (low + 1) & 0x03;
            if next == 0 {
                return None;
            }
            self.sequence = next;
        } else {
            self.sequence = 0;
        }
        self.last_timestamp = timestamp;
        Some(
            ((timestamp & 0x1FFFFFFFFFF) << 12) | ((self.node_id & 0x1F) << 7) | ((self.worker_id
                & 0x1F) << 2) | (self.sequence & 0x03),
        )
    }

    /// Issues the next id by the clock. Where the sequence numbers of the
    /// present millisecond are used up, the clock is read until it has
    /// moved on. The id is the one for the generator's new state, and that
    /// state differs from the one before: either the timestamp changed and
    /// the sequence number is 0, or the sequence number went up by one.
    pub fn generate(&mut self) -> (id: u64)
        ensures
            id == final(self)@.last_id(),
            exists|timestamp: u64|
                old(self)@.can_issue(timestamp) && final(self)@ == old(self)@.issued(timestamp),
    {
        let mut attempts: u64 = u64::MAX;
        while attempts > 0
            invariant
                *self == *old(self),
            decreases attempts,
        {
            let millis = clock_millis();
            let timestamp: u64 = if millis < 0 {
                0
            } else {
                millis as u64
            };
            match self.issue(timestamp) {
                Some(id) => {
                    return id;
                },
                None => {},
            }
            attempts -= 1;
        }
        let ahead: u64 = if self.last_timestamp < u64::MAX {
            self.last_timestamp + 1
        } else {
            0
        };
        match self.issue(ahead) {
            Some(id) => id,
            None => 0,
        }
    }
}

/// A fresh id for a record, made by a new generator for node 1 and worker
/// 1 from the present millisecond. It is not negative and has at most 53
/// bits. Its sequence number is 0, but for an id made in the very
/// millisecond that time is counted from, where it is 1.
pub fn build_snow_id() -> (id: i64)
    ensures
        0 <= id < 0x20_0000_0000_0000,
        exists|timestamp: u64| id == #[trigger] first_id_at(timestamp),
{
    let mut generator = SafeSnowflake::new(1, 1);
    let ghost fresh = generator@;
    let id = generator.generate();
    proof {
        assert(1u64 & 0x1F == 1u64) by (bit_vector);
        assert((((0u64 & 0x03) + 1) as u64) & 0x03 == 1u64) by (bit_vector);
        let timestamp = choose|timestamp: u64|
            fresh.can_issue(timestamp) && generator@ == fresh.issued(timestamp);
        lemma_snowflake_id(timestamp, 1, 1, generator@.sequence);
        assert(id == first_id_at(timestamp));
    }
    id as i64
}

/// The first id that a new generator for node 1 and worker 1 issues at a
/// timestamp.
pub open spec fn first_id_at(timestamp: u64) -> u64 {
    snowflake_id(
        timestamp,
        1,
        1,
        if timestamp == 0 {
            1
        } else {
            0
        },
    )
}

/// What the MD5 function of the `md-5` crate returns for a message: its
/// digest by RFC 1321.
pub uninterp spec fn md5_digest(message: Seq<u8>) -> Seq<u8>;

/// Runs `Md5::digest` of the `md-5` crate on the message and copies the
/// digest out.
#[verifier::external_body]
fn md5_of(message: &[u8]) -> (digest: Vec<u8>)
    ensures
        digest@ == md5_digest(message@),
{
    Md5::digest(message).to_vec()
}

/// The hexadecimal digit for a number below 16, in lowercase.
pub open spec fn hex_digit(nibble: int) -> char {
    if nibble == 0 {
        '0'
    } else if nibble == 1 {
        '1'
    } else if nibble == 2 {
        '2'
    } else if nibble == 3 {
        '3'
    } else if nibble == 4 {
        '4'
    } else if nibble == 5 {
        '5'
    } else if nibble == 6 {
        '6'
    } else if nibble == 7 {
        '7'
    } else if nibble == 8 {
        '8'
    } else if nibble == 9 {
        '9'
    } else if nibble == 10 {
        'a'
    } else if nibble == 11 {
        'b'
    } else if nibble == 12 {
        'c'
    } else if nibble == 13 {
        'd'
    } else if nibble == 14 {
        'e'
    } else {
        'f'
    }
}

/// The bytes in hexadecimal: two lowercase digits for each byte, the high
/// half first.
pub open spec fn hex_text(bytes: Seq<u8>) -> Seq<char> {
    Seq::new(
        2 * bytes.len(),
        |i: int|
            if i % 2 == 0 {
                hex_digit(bytes[i / 2] as int / 16)
            } else {
                hex_digit(bytes[i / 2] as int % 16)
            },
    )
}

/// `hex::encode` writes each byte as two lowercase hexadecimal digits, in
/// the order of the bytes.
#[verifier::external_body]
fn hex_encode(bytes: &[u8]) -> (text: String)
    ensures
        text@ == hex_text(bytes@),
{
    hex::encode(bytes)
}

/// The text under which a password is stored: the MD5 digest of its
/// UTF-8 bytes, in hexadecimal.
pub open spec fn md5_hex(content: Seq<char>) -> Seq<char> {
    hex_text(md5_digest(vstd::utf8::encode_utf8(content)))
}

/// The MD5 digest of a text, in hexadecimal.
pub fn build_md5(content: &str) -> (text: String)
    ensures
        text@ == md5_hex(content@),
{
    let digest = md5_of(content.as_bytes());
    hex_encode(digest.as_slice())
}

/// Whether a password is the one stored, given the digest text that
/// [`build_md5`] made of it.
pub fn digest_matches(stored: &str, digest: &str) -> (r: bool)
    ensures
        r == (stored@ == digest@),
{
    same_text(stored, digest)
}

/// Whether a password is the one stored under a digest.
pub fn password_matches(stored: &str, password: &str) -> (r: bool)
    ensures
        r == (stored@ == md5_hex(password@)),
{
    let digest = build_md5(password);
    digest_matches(stored, digest.as_str())
}

/// Picks one character of a text with `IteratorRandom::choose` of the
/// `rand` crate, on the thread's generator. The contract claims what rand
/// documents: a character is returned unless the text is empty, and it
/// is one of the text's. Which one is left open.
#[verifier::external_body]
fn choose_char(alphabet: &str) -> (c: Option<char>)
    ensures
        alphabet@.len() == 0 <==> c is None,
        c is Some ==> alphabet@.contains(c->0),
{
    alphabet.chars().choose(&mut rand::rng())
}

/// Reads the clock with `chrono::Utc::now` and returns its
/// `timestamp_nanos_opt`: the nanoseconds since 1970-01-01 00:00:00 UTC,
/// or nothing where they do not fit in 64 bits.
#[verifier::external_body]
fn clock_nanos() -> (nanos: Option<i64>) {
    chrono::Utc::now().timestamp_nanos_opt()
}

/// The characters that the random part of an id is drawn from.
pub open spec fn uuid_chars() -> Seq<char> {
    "0123456789abcdefghijklmnopqrstuvwxyz"@
}

/// The text of an id for a number of nanoseconds and a random part.
pub open spec fn uuid_text(nanos: i64, random_part: Seq<char>) -> Seq<char> {
    decimal(nanos as int) + random_part
}

/// Puts an id together from a number of nanoseconds and a random part.
pub fn compose_uuid(nanos: i64, random_part: &str) -> (id: String)
    ensures
        id@ == uuid_text(nanos, random_part@),
{
    let mut id = decimal_i64(nanos);
    id.append(random_part);
    id
}

/// An id made of the present time in nanoseconds, in decimal, followed by
/// eight characters drawn at random from the digits and the lowercase
/// letters.
pub fn generate_uuid() -> (id: String)
    ensures
        exists|nanos: i64, random_part: Seq<char>|
            {
                &&& #[trigger] uuid_text(nanos, random_part) == id@
                &&& random_part.len() == 8
                &&& forall|i: int| 0 <= i < 8 ==> uuid_chars().contains(#[trigger] random_part[i])
            },
{
    let nanos = match clock_nanos() {
        Some(n) => n,
        None => 0,
    };
    let alphabet = "0123456789abcdefghijklmnopqrstuvwxyz";
    proof {
        reveal_strlit("0123456789abcdefghijklmnopqrstuvwxyz");
    }
    let mut random_part = String::new();
    let mut i: usize = 0;
    while i < 8
        invariant
            i <= 8,
            alphabet@ == uuid_chars(),
            alphabet@.len() == 36,
            random_part@.len() == i,
            forall|k: int| 0 <= k < i ==> uuid_chars().contains(#[trigger] random_part@[k]),
        decreases 8 - i,
    {
        match choose_char(alphabet) {
            Some(c) => {
                random_part.push(c);
            },
            None => {
                random_part.push('0');
                proof {
                    assert(false);
                }
            },
        }
        i += 1;
    }
    let id = compose_uuid(nanos, random_part.as_str());
    proof {
        assert(uuid_text(nanos, random_part@) == id@);
    }
    id
}

} // verus!
