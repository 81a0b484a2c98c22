//! Suffixes that start with a random UUID, for names that have to differ from one
//! run to the next.

use crate::counter::{decimal, lemma_decimal_injective, Counter};
use crate::suffix::SuffixIter;
use vstd::prelude::*;

verus! {

/// Whether `c` is a hexadecimal digit in lower case.
pub open spec fn is_lower_hex(c: char) -> bool {
    ('0' <= c && c <= '9') || ('a' <= c && c <= 'f')
}

/// Whether a hyphen stands at place `i` of a hyphenated UUID.
pub open spec fn is_hyphen_place(i: int) -> bool {
    i == 8 || i == 13 || i == 18 || i == 23
}

/// The text of a random (version 4) UUID in its hyphenated form, such as
/// `67e55044-10b1-426f-9247-bb680e5fe0c8`.
pub open spec fn is_hyphenated_uuid_v4(text: Seq<char>) -> bool {
    &&& text.len() == 36
    &&& forall|i: int|
        0 <= i < 36 ==> if is_hyphen_place(i) {
            #[trigger] text[i] == '-'
        } else {
            is_lower_hex(text[i])
        }
    &&& text[14] == '4'
    &&& (text[19] == '8' || text[19] == '9' || text[19] == 'a' || text[19] == 'b')
}

/// `text` with every `from` replaced by `to`.
pub open spec fn replaced(text: Seq<char>, from: char, to: char) -> Seq<char> {
    text.map_values(
        |c: char|
            if c == from {
                to
            } else {
                c
            },
    )
}

/// A fresh random UUID as text: `uuid::Uuid::new_v4` and then `to_string`.
///
/// The UUID itself is random. Its text always has the hyphenated form in lower
/// case, with the version digit `4` and a variant digit from `8` to `b`.
#[verifier::external_body]
fn new_v4_hyphenated() -> (text: String)
    ensures
        is_hyphenated_uuid_v4(text@),
{
    uuid::Uuid::new_v4().to_string()
}

/// `text` with every `from` replaced by `to`.
pub fn replace_char(text: &str, from: char, to: char) -> (result: String)
    ensures
        result@ == replaced(text@, from, to),
{
    let mut result = String::new();
    let len = text.unicode_len();
    let mut index: usize = 0;
    while index < len
        invariant
            index <= len,
            len == text@.len(),
            result@ == replaced(text@.take(index as int), from, to),
        decreases len - index,
    {
        let ch = text.get_char(index);
        if ch == from {
            result.push(to);
        } else {
            result.push(ch);
        }
        assert(result@ =~= replaced(text@.take(index + 1), from, to));
        index += 1;
    }
    assert(text@.take(len as int) =~= text@);
    result
}

/// The suffixes `U<uuid>_0`, `U<uuid>_1` and so on, where `<uuid>` is one UUID
/// with underscores in place of its hyphens.
pub struct UuidGenerator {
    counter: Counter,
    uuid: String,
}

impl UuidGenerator {
    /// The UUID that every suffix holds, with underscores in place of hyphens.
    pub closed spec fn uuid(&self) -> Seq<char> {
        self.uuid@
    }

    /// The number that the next suffix ends in.
    pub closed spec fn count(&self) -> nat {
        self.counter.value()
    }

    /// The suffix with number `n` for the UUID text `uuid`.
    pub open spec fn suffix(uuid: Seq<char>, n: nat) -> Seq<char> {
        seq!['U'] + uuid + seq!['_'] + decimal(n)
    }

    /// The naming of the positions for the UUID text `uuid`.
    pub open spec fn suffixes(uuid: Seq<char>) -> spec_fn(nat) -> Seq<char> {
        |n: nat| UuidGenerator::suffix(uuid, n)
    }

    /// A generator with a fresh random UUID, starting at `0`.
    pub fn new() -> (generator: Self)
        ensures
            generator.wf(),
            generator.position() == 0,
            exists|hyphenated: Seq<char>|
                is_hyphenated_uuid_v4(hyphenated) && generator.uuid() == replaced(
                    hyphenated,
                    '-',
                    '_',
                ),
    {
        let hyphenated = new_v4_hyphenated();
        UuidGenerator::with_uuid(hyphenated.as_str())
    }

    /// A generator for the UUID with the text `hyphenated`, starting at `0`.
    pub fn with_uuid(hyphenated: &str) -> (generator: Self)
        ensures
            generator.wf(),
            generator.position() == 0,
            generator.uuid() == replaced(hyphenated@, '-', '_'),
    {
        UuidGenerator { uuid: replace_char(hyphenated, '-', '_'), counter: Counter::new() }
    }
}

impl SuffixIter for UuidGenerator {
    open spec fn names(&self) -> spec_fn(nat) -> Seq<char> {
        UuidGenerator::suffixes(self.uuid())
    }

    open spec fn position(&self) -> nat {
        self.count()
    }

    closed spec fn wf(&self) -> bool {
        self.counter.wf()
    }

    fn next(&mut self) -> (suffix: String) {
        let mut suffix = String::new();
        suffix.push('U');
        suffix.append(self.uuid.as_str());
        suffix.push('_');
        let number = self.counter.to_text();
        suffix.append(number.as_str());
        self.counter.increment();
        assert(suffix@ =~= UuidGenerator::suffix(old(self).uuid(), old(self).count()));
        suffix
    }

    proof fn lemma_names_distinct(&self, a: nat, b: nat) {
        let head = seq!['U'] + self.uuid() + seq!['_'];
        let with_a = head + decimal(a);
        let with_b = head + decimal(b);
        assert(with_a.subrange(head.len() as int, with_a.len() as int) =~= decimal(a));
        assert(with_b.subrange(head.len() as int, with_b.len() as int) =~= decimal(b));
        lemma_decimal_injective(a, b);
    }
}

} // verus!
