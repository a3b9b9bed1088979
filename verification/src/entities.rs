//! The entity text parser.
//!
//! A BSP entities lump is plain text: `{ ... }` blocks of
//! double-quote-delimited key/value pairs, one pair per line. Parsing
//! is lenient: a line that is not an opening brace, a closing brace,
//! or a readable pair is ignored, and a pair found before any block
//! was opened is dropped.

use vstd::prelude::*;
use vstd::utf8::{decode_utf8, valid_utf8};
use crate::error::DecodeError;

verus! {

/// Line feed.
pub const NL: u8 = 10;

/// Double quote.
pub const QUOTE: u8 = 34;

/// Opening brace.
pub const LBRACE: u8 = 123;

/// Closing brace.
pub const RBRACE: u8 = 125;

/// One entity: its key/value pairs, in the order they were read. A
/// later pair with the same key overrides an earlier one, as
/// [`Entity::as_map`] says.
#[derive(Debug, Clone, PartialEq)]
pub struct Entity {
    /// The key/value pairs, in reading order.
    pub props: Vec<(String, String)>,
}

/// All entities extracted from an entities lump, in reading order.
pub type Entities = Vec<Entity>;

/// The key-to-value mapping a pair list denotes: later pairs with the
/// same key overwrite earlier ones.
pub open spec fn props_map(s: Seq<(String, String)>) -> Map<Seq<char>, Seq<char>>
    decreases s.len(),
{
    if s.len() == 0 {
        Map::empty()
    } else {
        props_map(s.drop_last()).insert(s.last().0@, s.last().1@)
    }
}

impl Entity {
    /// The key-to-value mapping this entity denotes.
    pub open spec fn as_map(self) -> Map<Seq<char>, Seq<char>> {
        props_map(self.props@)
    }

    /// An entity with no properties yet.
    pub fn new() -> (e: Entity)
        ensures
            e.as_map() == Map::<Seq<char>, Seq<char>>::empty(),
            e.props@.len() == 0,
    {
        Entity { props: Vec::new() }
    }

    /// Record that `key` maps to `value`, overriding any earlier pair
    /// with the same key.
    pub fn insert(&mut self, key: String, value: String)
        ensures
            final(self).props@ == old(self).props@.push((key, value)),
            final(self).as_map() == old(self).as_map().insert(key@, value@),
    {
        self.props.push((key, value));
        proof {
            assert(self.props@.drop_last() =~= old(self).props@);
        }
    }

    /// Look a key up: the value of the last pair with that key.
    pub fn get(&self, key: &String) -> (r: Option<&String>)
        ensures
            r is Some <==> self.as_map().dom().contains(key@),
            r matches Some(v) ==> v@ == self.as_map()[key@],
    {
        let mut i: usize = self.props.len();
        while i > 0
            invariant
                i <= self.props@.len(),
                forall|j: int| i <= j < self.props@.len() ==> (#[trigger] self.props@[j]).0@ != key@,
            decreases i,
        {
            i = i - 1;
            if self.props[i].0 == *key {
                proof {
                    lemma_props_map_at(self.props@, key@, i as int);
                }
                return Some(&self.props[i].1);
            }
        }
        proof {
            lemma_props_map_absent(self.props@, key@);
        }
        None
    }
}

/// A key that occurs at `i` and nowhere later maps to pair `i`'s value.
proof fn lemma_props_map_at(s: Seq<(String, String)>, key: Seq<char>, i: int)
    requires
        0 <= i < s.len(),
        s[i].0@ == key,
        forall|j: int| i < j < s.len() ==> (#[trigger] s[j]).0@ != key,
    ensures
        props_map(s).dom().contains(key),
        props_map(s)[key] == s[i].1@,
    decreases s.len(),
{
    if i < s.len() - 1 {
        lemma_props_map_at(s.drop_last(), key, i);
    }
}

/// A key that occurs nowhere maps to nothing.
proof fn lemma_props_map_absent(s: Seq<(String, String)>, key: Seq<char>)
    requires
        forall|j: int| 0 <= j < s.len() ==> (#[trigger] s[j]).0@ != key,
    ensures
        !props_map(s).dom().contains(key),
    decreases s.len(),
{
    if s.len() > 0 {
        lemma_props_map_absent(s.drop_last(), key);
    }
}

/// What `String::from_utf8_lossy` makes of a byte sequence. The
/// result depends on the bytes alone.
pub uninterp spec fn lossy_decode(b: Seq<u8>) -> Seq<char>;

/// Relies on `String::from_utf8_lossy`: the result is a function of
/// the input bytes alone, and input that is valid UTF-8 is returned
/// decoded, unchanged.
#[verifier::external_body]
fn lossy_string(b: &[u8]) -> (s: String)
    ensures
        s@ == lossy_decode(b@),
        valid_utf8(b@) ==> s@ == decode_utf8(b@),
{
    String::from_utf8_lossy(b).into_owned()
}

/// The first index in `[from, to)` where byte `c` stands, or `to`
/// when there is none.
pub open spec fn find_in(b: Seq<u8>, from: int, to: int, c: u8) -> int
    decreases to - from,
{
    if from >= to {
        to
    } else if b[from] == c {
        from
    } else {
        find_in(b, from + 1, to, c)
    }
}

/// `find_in` answers `i` when the bytes before `i` miss `c` and byte
/// `i`, if any, is `c`.
proof fn lemma_find_in(b: Seq<u8>, from: int, to: int, c: u8, i: int)
    requires
        from <= i <= to,
        forall|k: int| from <= k < i ==> b[k] != c,
        i < to ==> b[i] == c,
    ensures
        find_in(b, from, to, c) == i,
    decreases to - from,
{
    if from < i {
        lemma_find_in(b, from + 1, to, c, i);
    }
}

/// Find the first `c` in `data[from .. to]`, or `to` when there is
/// none.
fn find_in_exec(data: &[u8], from: usize, to: usize, c: u8) -> (j: usize)
    requires
        from <= to <= data@.len(),
    ensures
        j == find_in(data@, from as int, to as int, c),
        from <= j <= to,
        j < to ==> data@[j as int] == c,
        forall|k: int| from <= k < j ==> data@[k] != c,
{
    let mut i: usize = from;
    while i < to && *vstd::slice::slice_index_get(data, i) != c
        invariant
            from <= i <= to <= data@.len(),
            forall|k: int| from <= k < i ==> data@[k] != c,
        decreases to - i,
    {
        i = i + 1;
    }
    proof {
        lemma_find_in(data@, from as int, to as int, c, i as int);
    }
    i
}

/// The key and value bytes of the line `b[lo .. hi]`: the bytes
/// between its first and second quote, and between its third and
/// fourth (the value runs to the end of the line when no fourth quote
/// closes it). A line with fewer than three quotes carries no pair.
pub open spec fn line_kv(b: Seq<u8>, lo: int, hi: int) -> Option<(Seq<u8>, Seq<u8>)> {
    let q1 = find_in(b, lo, hi, QUOTE);
    if q1 == hi {
        Option::None
    } else {
        let q2 = find_in(b, q1 + 1, hi, QUOTE);
        if q2 == hi {
            Option::None
        } else {
            let q3 = find_in(b, q2 + 1, hi, QUOTE);
            if q3 == hi {
                Option::None
            } else {
                let q4 = find_in(b, q3 + 1, hi, QUOTE);
                Option::Some((b.subrange(q1 + 1, q2), b.subrange(q3 + 1, q4)))
            }
        }
    }
}

/// One entity's decoded pairs, as character sequences, in reading
/// order.
pub open spec fn props_view(s: Seq<(String, String)>) -> Seq<(Seq<char>, Seq<char>)> {
    Seq::new(s.len(), |k: int| (s[k].0@, s[k].1@))
}

/// What one line does to the entity list: an opening brace starts a
/// new entity, a closing brace does nothing, a key/value line is
/// appended to the last entity's pairs (and dropped when there is
/// none), and any other line is ignored.
pub open spec fn line_step(
    state: Seq<Seq<(Seq<char>, Seq<char>)>>,
    b: Seq<u8>,
    lo: int,
    hi: int,
) -> Seq<Seq<(Seq<char>, Seq<char>)>> {
    if hi - lo == 1 && b[lo] == LBRACE {
        state.push(Seq::empty())
    } else if hi - lo == 1 && b[lo] == RBRACE {
        state
    } else {
        match line_kv(b, lo, hi) {
            Option::Some((k, v)) => if state.len() > 0 {
                state.update(state.len() - 1, state.last().push((lossy_decode(k), lossy_decode(v))))
            } else {
                state
            },
            Option::None => state,
        }
    }
}

/// The entity pair lists left after processing every line of
/// `b[cur ..]`, starting from `state`. Lines are separated by line
/// feeds; the last line ends at the end of the buffer.
pub open spec fn parse_from(
    b: Seq<u8>,
    cur: int,
    state: Seq<Seq<(Seq<char>, Seq<char>)>>,
) -> Seq<Seq<(Seq<char>, Seq<char>)>>
    decreases b.len() - cur,
    when 0 <= cur <= b.len()
{
    let j = find_in(b, cur, b.len() as int, NL);
    if cur <= j < b.len() {
        parse_from(b, j + 1, line_step(state, b, cur, j))
    } else {
        line_step(state, b, cur, b.len() as int)
    }
}

/// The entity pair lists an entities lump denotes: one list per
/// opened block, each pair in reading order.
pub open spec fn spec_entities(b: Seq<u8>) -> Seq<Seq<(Seq<char>, Seq<char>)>> {
    parse_from(b, 0, Seq::empty())
}

/// The pair lists a list of decoded entities carries, in order.
pub open spec fn entities_lists(es: Seq<Entity>) -> Seq<Seq<(Seq<char>, Seq<char>)>> {
    Seq::new(es.len(), |i: int| props_view(es[i].props@))
}

/// The key-to-value mapping a decoded pair list denotes: later pairs
/// with the same key overwrite earlier ones.
pub open spec fn list_map(l: Seq<(Seq<char>, Seq<char>)>) -> Map<Seq<char>, Seq<char>>
    decreases l.len(),
{
    if l.len() == 0 {
        Map::empty()
    } else {
        list_map(l.drop_last()).insert(l.last().0, l.last().1)
    }
}

/// An entity's key-to-value map is the one its decoded pair list
/// denotes, so the map is determined by the pairs alone.
pub proof fn lemma_entity_map_of_props(props: Seq<(String, String)>)
    ensures
        props_map(props) == list_map(props_view(props)),
    decreases props.len(),
{
    if props.len() > 0 {
        lemma_entity_map_of_props(props.drop_last());
        assert(props_view(props).drop_last() =~= props_view(props.drop_last()));
    }
}

/// Parse an entities lump: read `size_hint` bytes from the start of
/// `data` and scan them as `{ ... }` blocks of quoted key/value
/// pairs, one pair per line. The result is pinned pair for pair:
/// every entity's list of key/value pairs, in reading order, is the
/// one the bytes denote.
pub fn map(data: &[u8], size_hint: usize) -> (r: Result<Entities, DecodeError>)
    ensures
        r is Ok <==> size_hint <= data@.len(),
        r matches Ok(es) ==> entities_lists(es@) == spec_entities(data@.take(size_hint as int)),
        r is Err ==> r == Err::<Entities, DecodeError>(DecodeError::UnexpectedEnd),
{
    if size_hint > data.len() {
        return Err(DecodeError::UnexpectedEnd);
    }
    let buf = vstd::slice::slice_subrange(data, 0, size_hint);
    let ghost b = buf@;
    proof {
        assert(b == data@.take(size_hint as int));
    }
    let n = buf.len();
    let mut entities: Vec<Entity> = Vec::new();
    let mut cur: usize = 0;
    proof {
        assert(entities_lists(entities@) =~= Seq::<Seq<(Seq<char>, Seq<char>)>>::empty());
    }
    loop
        invariant_except_break
            b == buf@,
            n == b.len(),
            0 <= cur <= n,
            parse_from(b, cur as int, entities_lists(entities@)) == spec_entities(b),
        ensures
            entities_lists(entities@) == spec_entities(b),
        decreases n - cur,
    {
        let j = find_in_exec(buf, cur, n, NL);
        let ghost state0 = entities_lists(entities@);
        // process the line buf[cur .. j]
        if j - cur == 1 && *vstd::slice::slice_index_get(buf, cur) == LBRACE {
            entities.push(Entity::new());
            proof {
                assert(entities_lists(entities@) =~~= state0.push(Seq::empty()));
            }
        } else if j - cur == 1 && *vstd::slice::slice_index_get(buf, cur) == RBRACE {
            // nothing to do
        } else {
            let q1 = find_in_exec(buf, cur, j, QUOTE);
            if q1 < j {
                let q2 = find_in_exec(buf, q1 + 1, j, QUOTE);
                if q2 < j {
                    let q3 = find_in_exec(buf, q2 + 1, j, QUOTE);
                    if q3 < j {
                        let q4 = find_in_exec(buf, q3 + 1, j, QUOTE);
                        if entities.len() > 0 {
                            let key = lossy_string(
                                vstd::slice::slice_subrange(buf, q1 + 1, q2),
                            );
                            let value = lossy_string(
                                vstd::slice::slice_subrange(buf, q3 + 1, q4),
                            );
                            let mut last = match entities.pop() {
                                Some(e) => e,
                                None => Entity::new(),
                            };
                            last.insert(key, value);
                            entities.push(last);
                            proof {
                                assert(entities_lists(entities@) =~~= state0.update(
                                    state0.len() - 1,
                                    state0.last().push(
                                        (
                                            lossy_decode(b.subrange(q1 + 1, q2 as int)),
                                            lossy_decode(b.subrange(q3 + 1, q4 as int)),
                                        ),
                                    ),
                                ));
                            }
                        }
                    }
                }
            }
        }
        proof {
            assert(entities_lists(entities@) == line_step(state0, b, cur as int, j as int));
        }
        if j == n {
            break;
        }
        cur = j + 1;
    }
    Ok(entities)
}

} // verus!
