//! The entity text of a level: blocks in braces that hold lines of a quoted
//! key and a quoted value.

use crate::error::LumpError;
use crate::lumps::lump_types::views;
use vstd::prelude::*;
use vstd::utf8::{decode_utf8, valid_utf8};

verus! {

/// The keys and values of one block of the entity text. No key occurs twice.
#[derive(Debug)]
pub struct Entity {
    pairs: Vec<(String, String)>,
}

/// The keys of `pairs`, in their order.
pub open spec fn keys_of(pairs: Seq<(String, String)>) -> Seq<Seq<char>> {
    pairs.map_values(|pair: (String, String)| pair.0@)
}

impl View for Entity {
    type V = Map<Seq<char>, Seq<char>>;

    /// The value of each key.
    closed spec fn view(&self) -> Map<Seq<char>, Seq<char>> {
        Map::new(
            |key: Seq<char>| keys_of(self.pairs@).contains(key),
            |key: Seq<char>| self.pairs[keys_of(self.pairs@).index_of(key)].1@,
        )
    }
}

impl Entity {
    #[verifier::type_invariant]
    spec fn keys_differ(&self) -> bool {
        keys_of(self.pairs@).no_duplicates()
    }

    /// An entity without keys.
    pub fn new() -> (entity: Self)
        ensures
            entity@ == Map::<Seq<char>, Seq<char>>::empty(),
    {
        let entity = Entity { pairs: Vec::new() };
        entity
    }

    /// Where `key` stands among the pairs.
    fn find(&self, key: &String) -> (found: Option<usize>)
        ensures
            match found {
                Some(i) => i < self.pairs.len() && self.pairs[i as int].0@ == key@,
                None => !keys_of(self.pairs@).contains(key@),
            },
    {
        for i in 0..self.pairs.len()
            invariant
                forall|j: int| 0 <= j < i ==> keys_of(self.pairs@)[j] != key@,
        {
            if self.pairs[i].0 == *key {
                return Some(i);
            }
        }
        None
    }

    /// The value of `key`, where the entity has that key.
    pub fn get(&self, key: &str) -> (value: Option<&String>)
        ensures
            match value {
                Some(v) => self@.contains_key(key@) && self@[key@] == v@,
                None => !self@.contains_key(key@),
            },
    {
        proof {
            use_type_invariant(self);
        }
        let owned = key.to_owned();
        match self.find(&owned) {
            Some(i) => {
                assert(keys_of(self.pairs@)[i as int] == key@);
                Some(&self.pairs[i].1)
            },
            None => None,
        }
    }

    /// How many keys the entity has.
    pub fn len(&self) -> (n: usize)
        ensures
            self@.dom().finite(),
            n == self@.len(),
    {
        proof {
            use_type_invariant(self);
            let keys = keys_of(self.pairs@);
            keys.unique_seq_to_set();
        }
        self.pairs.len()
    }

    /// Gives `key` the value `value`, whether or not it had one.
    pub fn insert(&mut self, key: String, value: String)
        ensures
            final(self)@ == old(self)@.insert(key@, value@),
    {
        proof {
            use_type_invariant(&*self);
        }
        let ghost before = self.pairs@;
        let ghost k = key@;
        let found = self.find(&key);
        let mut pairs: Vec<(String, String)> = Vec::new();
        core::mem::swap(&mut self.pairs, &mut pairs);
        match found {
            Some(i) => {
                assert(keys_of(before.update(i as int, (key, value))) =~= keys_of(before));
                pairs.set(i, (key, value));
                core::mem::swap(&mut self.pairs, &mut pairs);
                assert(keys_of(before)[i as int] == k);
            },
            None => {
                assert(keys_of(before.push((key, value))) =~= keys_of(before).push(k));
                pairs.push((key, value));
                core::mem::swap(&mut self.pairs, &mut pairs);
                proof {
                    let keys = keys_of(self.pairs@);
                    assert(keys[before.len() as int] == k);
                    assert forall|q: Seq<char>| keys_of(before).contains(q) implies keys.contains(
                        q,
                    ) by {
                        let j = keys_of(before).index_of(q);
                        assert(keys[j] == q);
                    }
                }
            },
        }
    }

    /// The keys with their values, each key once.
    pub fn pairs(&self) -> (pairs: &Vec<(String, String)>)
        ensures
            keys_of(pairs@).no_duplicates(),
            self@.dom() == keys_of(pairs@).to_set(),
            forall|i: int| 0 <= i < pairs.len() ==> self@[#[trigger] pairs[i].0@] == pairs[i].1@,
    {
        proof {
            use_type_invariant(self);
            let keys = keys_of(self.pairs@);
            let pairs = self.pairs@;
            assert forall|i: int| 0 <= i < pairs.len() implies self@[#[trigger] pairs[i].0@]
                == pairs[i].1@ by {
                assert(keys[i] == pairs[i].0@);
            }
        }
        &self.pairs
    }
}

/// A compiled pattern of the `regex` crate.
#[verifier::external_type_specification]
#[verifier::external_body]
pub struct ExRegex(regex::Regex);

/// The error of the `regex` crate for a pattern that it does not compile.
#[verifier::external_type_specification]
#[verifier::external_body]
pub struct ExRegexError(regex::Error);

/// Whether `regex::Regex::new` compiles `pattern`.
pub uninterp spec fn pattern_accepted(pattern: Seq<char>) -> bool;

/// The pattern that `re` was compiled from: what `regex::Regex::as_str`
/// returns.
pub uninterp spec fn pattern_of(re: regex::Regex) -> Seq<char>;

/// The matches that `regex::Regex::captures_iter` finds in `text` for
/// `pattern`, compiled by `regex::Regex::new`, in their order: for each match
/// the texts of its groups, the whole match first, with `None` for a group
/// that took no part.
pub uninterp spec fn pattern_captures(pattern: Seq<char>, text: Seq<char>) -> Seq<
    Seq<Option<Seq<char>>>,
>;

/// The text that `String::from_utf8_lossy` makes of `bytes`.
pub uninterp spec fn utf8_lossy_text(bytes: Seq<u8>) -> Seq<char>;

/// Calls `regex::Regex::new`. Nothing is proved of the pattern engine: which
/// patterns it compiles is left to it, and the compiled pattern is said to
/// remember the text it was compiled from.
#[verifier::external_body]
fn compile_pattern(pattern: &str) -> (r: Result<regex::Regex, regex::Error>)
    ensures
        r is Ok <==> pattern_accepted(pattern@),
        r matches Ok(re) ==> pattern_of(re) == pattern@,
{
    regex::Regex::new(pattern)
}

/// Calls `regex::Regex::captures_iter` on a pattern that `compile_pattern`
/// has compiled, and copies the text of each group of each match. Nothing is
/// proved of the pattern engine: the matches are whatever it finds.
#[verifier::external_body]
fn captures_all(re: &regex::Regex, text: &str) -> (found: Vec<Vec<Option<String>>>)
    ensures
        found.deep_view() == pattern_captures(pattern_of(*re), text@),
{
    re.captures_iter(text).map(
        |found| found.iter().map(|group| group.map(|m| m.as_str().to_string())).collect(),
    ).collect()
}

/// Calls `String::from_utf8_lossy`: bytes that are UTF-8 give the text they
/// encode; in other bytes, what is no UTF-8 gives the replacement character.
#[verifier::external_body]
fn utf8_lossy(bytes: &[u8]) -> (text: String)
    ensures
        text@ == utf8_lossy_text(bytes@),
        valid_utf8(bytes@) ==> text@ == decode_utf8(bytes@),
{
    String::from_utf8_lossy(bytes).into_owned()
}

/// The pattern of a block: an opening brace, at least one character of any
/// kind, and the first closing brace behind that.
pub const BLOCK_PATTERN: &'static str = "(\\{(?:.|\n)+?\\})";

/// The pattern of a line of a block: a quoted key, a space, a quoted value
/// and the end of the line.
pub const ITEM_PATTERN: &'static str = "\"(.+?)\" \"(.+?)\"\n";

/// The text of group `i` of a match, where the match has such a group and
/// the group took part in it.
pub open spec fn group_text(found: Seq<Option<Seq<char>>>, i: int) -> Option<Seq<char>> {
    if 0 <= i < found.len() {
        found[i]
    } else {
        None
    }
}

/// The text of a whole match.
pub open spec fn match_text(found: Seq<Option<Seq<char>>>) -> Seq<char> {
    match group_text(found, 0) {
        Some(text) => text,
        None => Seq::empty(),
    }
}

/// The keys and values that the matches `items` of the line pattern give:
/// the first group of a match is a key and the second its value, and of two
/// values of one key the later stays.
pub open spec fn entity_of(items: Seq<Seq<Option<Seq<char>>>>) -> Map<Seq<char>, Seq<char>>
    decreases items.len(),
{
    if items.len() == 0 {
        Map::empty()
    } else {
        let front = entity_of(items.drop_last());
        match (group_text(items.last(), 1), group_text(items.last(), 2)) {
            (Some(key), Some(value)) => front.insert(key, value),
            _ => front,
        }
    }
}

/// The entities of the text stored in `region`, one for each block in the
/// order of the blocks; `None` where the pattern engine compiles no pattern
/// of the grammar.
pub open spec fn entities_in(region: Seq<u8>) -> Option<Seq<Map<Seq<char>, Seq<char>>>> {
    if pattern_accepted(BLOCK_PATTERN@) && pattern_accepted(ITEM_PATTERN@) {
        Some(
            pattern_captures(BLOCK_PATTERN@, utf8_lossy_text(region)).map_values(
                |block: Seq<Option<Seq<char>>>|
                    entity_of(pattern_captures(ITEM_PATTERN@, match_text(block))),
            ),
        )
    } else {
        None
    }
}

/// The text of group `i` of a match.
fn group_str(found: &Vec<Option<String>>, i: usize) -> (text: Option<&String>)
    ensures
        match text {
            Some(s) => group_text(found.deep_view(), i as int) == Some(s@),
            None => group_text(found.deep_view(), i as int) is None,
        },
{
    if i < found.len() {
        found[i].as_ref()
    } else {
        None
    }
}

/// Collects the keys and values of the matches of the line pattern in one
/// block.
pub fn entity_from_items(items: &Vec<Vec<Option<String>>>) -> (entity: Entity)
    ensures
        entity@ == entity_of(items.deep_view()),
{
    let mut entity = Entity::new();
    let ghost all = items.deep_view();
    for i in 0..items.len()
        invariant
            all == items.deep_view(),
            entity@ == entity_of(all.take(i as int)),
    {
        assert(all.take(i + 1).drop_last() =~= all.take(i as int));
        match (group_str(&items[i], 1), group_str(&items[i], 2)) {
            (Some(key), Some(value)) => {
                entity.insert(key.clone(), value.clone());
            },
            _ => {},
        }
    }
    assert(all.take(items.len() as int) =~= all);
    entity
}

/// Extracts the entities from the text of the entity lump: one for each
/// block in braces, in the order of the blocks, with the keys and values of
/// the lines of the form `"key" "value"`. Bytes that are no UTF-8 are
/// replaced, and lines of another form are passed over.
///
/// Fails with `PatternRejected` where the pattern engine does not compile
/// the two patterns of the grammar.
pub fn parse_entities(region: &[u8]) -> (r: Result<Vec<Entity>, LumpError>)
    ensures
        match entities_in(region@) {
            Some(entities) => r matches Ok(out) && views(out@) == entities,
            None => r matches Err(e) && e == LumpError::PatternRejected,
        },
        valid_utf8(region@) ==> utf8_lossy_text(region@) == decode_utf8(region@),
{
    let text = utf8_lossy(region);
    let block_re = match compile_pattern(BLOCK_PATTERN) {
        Ok(re) => re,
        Err(_) => {
            return Err(LumpError::PatternRejected);
        },
    };
    let item_re = match compile_pattern(ITEM_PATTERN) {
        Ok(re) => re,
        Err(_) => {
            return Err(LumpError::PatternRejected);
        },
    };
    let blocks = captures_all(&block_re, text.as_str());
    let ghost expected = entities_in(region@).unwrap();
    let mut out: Vec<Entity> = Vec::new();
    for i in 0..blocks.len()
        invariant
            pattern_of(item_re) == ITEM_PATTERN@,
            entities_in(region@) == Some(expected),
            expected.len() == blocks.len(),
            forall|j: int|
                0 <= j < blocks.len() ==> expected[j] == entity_of(
                    pattern_captures(ITEM_PATTERN@, match_text(#[trigger] blocks[j].deep_view())),
                ),
            out.len() == i,
            forall|j: int| 0 <= j < i ==> (#[trigger] out[j])@ == expected[j],
    {
        let block: &str = match group_str(&blocks[i], 0) {
            Some(text) => text.as_str(),
            None => "",
        };
        proof {
            reveal_strlit("");
            assert(block@ =~= match_text(blocks[i as int].deep_view()));
        }
        let items = captures_all(&item_re, block);
        out.push(entity_from_items(&items));
    }
    Ok(out)
}

} // verus!
