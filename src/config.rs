use vstd::prelude::*;
use vstd::utf8::{decode_utf8, valid_utf8};

use crate::option_map::OptionMap;

verus! {

/// The byte that ends a configuration line.
pub const LINE_END: u8 = 0x0A;

/// The byte that separates a key from its value.
pub const KEY_VALUE_SEPARATOR: u8 = 0x3D;

/// Index of the first separator at or after `from`.
pub open spec fn find_separator(l: Seq<u8>, from: int) -> Option<int>
    decreases l.len() - from,
{
    if from < 0 || from >= l.len() {
        None
    } else if l[from] == KEY_VALUE_SEPARATOR {
        Some(from)
    } else {
        find_separator(l, from + 1)
    }
}

/// The option set after one complete line (its line end excluded): the text
/// before the first `=` is the key, the rest the value. A line without `=`, or
/// one whose key or value is not UTF-8, changes nothing.
pub open spec fn apply_line(m: Map<Seq<char>, Seq<char>>, l: Seq<u8>) -> Map<Seq<char>, Seq<char>> {
    match find_separator(l, 0) {
        None => m,
        Some(i) => {
            let k = l.subrange(0, i);
            let v = l.subrange(i + 1, l.len() as int);
            if valid_utf8(k) && valid_utf8(v) {
                m.insert(decode_utf8(k), decode_utf8(v))
            } else {
                m
            }
        },
    }
}

/// Model of the configuration synchronizer: the option set and the bytes of
/// a line not yet ended.
pub struct ConfigModel {
    pub options: Map<Seq<char>, Seq<char>>,
    pub pending: Seq<u8>,
}

/// The state after one more byte of the stream.
pub open spec fn feed_byte(s: ConfigModel, c: u8) -> ConfigModel {
    if c == LINE_END {
        ConfigModel { options: apply_line(s.options, s.pending), pending: Seq::empty() }
    } else {
        ConfigModel { options: s.options, pending: s.pending.push(c) }
    }
}

/// The state after a run of bytes of the stream.
pub open spec fn feed(s: ConfigModel, t: Seq<u8>) -> ConfigModel
    decreases t.len(),
{
    if t.len() == 0 {
        s
    } else {
        feed_byte(feed(s, t.drop_last()), t.last())
    }
}

proof fn lemma_feed_within_line(s: ConfigModel, t: Seq<u8>)
    requires
        forall|i: int| 0 <= i < t.len() ==> t[i] != LINE_END,
    ensures
        feed(s, t) == (ConfigModel { options: s.options, pending: s.pending + t }),
    decreases t.len(),
{
    if t.len() > 0 {
        lemma_feed_within_line(s, t.drop_last());
        assert(t[t.len() - 1] != LINE_END);
        assert((s.pending + t.drop_last()).push(t.last()) =~= s.pending + t);
    }
}

proof fn lemma_find_first_separator(l: Seq<u8>, from: int, at: int)
    requires
        0 <= from <= at < l.len(),
        l[at] == KEY_VALUE_SEPARATOR,
        forall|i: int| from <= i < at ==> l[i] != KEY_VALUE_SEPARATOR,
    ensures
        find_separator(l, from) == Some(at),
    decreases at - from,
{
    if from < at {
        lemma_find_first_separator(l, from + 1, at);
    }
}

/// A complete `key=value` line, arriving at a line start, stores the value
/// under the key, whatever came before; the key is everything up to the first
/// `=`.
pub proof fn lemma_line_stored(s: ConfigModel, key: Seq<u8>, value: Seq<u8>)
    requires
        s.pending.len() == 0,
        forall|i: int| 0 <= i < key.len() ==> key[i] != KEY_VALUE_SEPARATOR && key[i] != LINE_END,
        forall|i: int| 0 <= i < value.len() ==> value[i] != LINE_END,
        valid_utf8(key),
        valid_utf8(value),
    ensures
        feed(s, key + seq![KEY_VALUE_SEPARATOR] + value + seq![LINE_END]) == (ConfigModel {
            options: s.options.insert(decode_utf8(key), decode_utf8(value)),
            pending: Seq::empty(),
        }),
{
    let l = key + seq![KEY_VALUE_SEPARATOR] + value;
    let t = l + seq![LINE_END];
    assert(t.drop_last() =~= l);
    assert forall|i: int| 0 <= i < l.len() implies #[trigger] l[i] != LINE_END by {
        if i < key.len() {
            assert(l[i] == key[i]);
        } else if i > key.len() {
            assert(l[i] == value[i - key.len() - 1]);
        }
    }
    assert forall|i: int| 0 <= i < key.len() implies #[trigger] l[i] != KEY_VALUE_SEPARATOR by {
        assert(l[i] == key[i]);
    }
    lemma_feed_within_line(s, l);
    assert(s.pending + l =~= l);
    lemma_find_first_separator(l, 0, key.len() as int);
    assert(l.subrange(0, key.len() as int) =~= key);
    assert(l.subrange(key.len() as int + 1, l.len() as int) =~= value);
    assert(feed(s, t) == feed_byte(feed(s, l), LINE_END));
}

/// Relies on `std::str::from_utf8`: the bytes decode exactly when they are
/// valid UTF-8, and then to the characters they encode.
#[verifier::external_body]
fn utf8_string(b: &[u8]) -> (r: Option<String>)
    ensures
        r is Some <==> valid_utf8(b@),
        r is Some ==> r->Some_0@ == decode_utf8(b@),
{
    match std::str::from_utf8(b) {
        Ok(s) => Some(s.to_string()),
        Err(_) => None,
    }
}

pub open spec fn string_values(m: Map<Seq<char>, String>) -> Map<Seq<char>, Seq<char>> {
    m.map_values(|v: String| v@)
}

/// The configuration synchronizer's state: the key=value options received so
/// far and the start of a line whose end has not arrived yet.
pub struct DroneConfig {
    options: OptionMap<String>,
    pending: Vec<u8>,
}

impl View for DroneConfig {
    type V = ConfigModel;

    closed spec fn view(&self) -> ConfigModel {
        ConfigModel { options: string_values(self.options@), pending: self.pending@ }
    }
}

impl DroneConfig {
    pub closed spec fn wf(&self) -> bool {
        self.options.wf()
    }

    /// A synchronizer that has received nothing.
    pub fn new() -> (r: DroneConfig)
        ensures
            r.wf(),
            r@ == (ConfigModel { options: Map::empty(), pending: Seq::empty() }),
    {
        let r = DroneConfig { options: OptionMap::new(), pending: Vec::new() };
        assert(string_values(r.options@) =~= Map::empty());
        r
    }

    /// Applies the line held in `pending` and empties it.
    fn end_line(&mut self)
        requires
            old(self).wf(),
        ensures
            final(self).wf(),
            final(self)@ == feed_byte(old(self)@, LINE_END),
    {
        let ghost l = self.pending@;
        let len = self.pending.len();
        let mut i: usize = 0;
        while i < len
            invariant
                len == self.pending@.len(),
                self.pending@ == l,
                i <= len,
                find_separator(l, 0) == find_separator(l, i as int),
            ensures
                i <= len,
                find_separator(l, 0) == find_separator(l, i as int),
                i < len ==> l[i as int] == KEY_VALUE_SEPARATOR,
            decreases len - i,
        {
            if self.pending[i] == KEY_VALUE_SEPARATOR {
                break;
            }
            i = i + 1;
        }
        if i < len {
            assert(find_separator(l, i as int) == Some(i as int));
            let key = utf8_string(&self.pending.as_slice()[0..i]);
            let value = utf8_string(&self.pending.as_slice()[i + 1..len]);
            match (key, value) {
                (Some(k), Some(v)) => {
                    let ghost before = self.options@;
                    self.options.insert(k, v);
                    assert(string_values(self.options@) =~= string_values(before).insert(k@, v@));
                },
                _ => {},
            }
        }
        self.pending.clear();
    }

    /// Takes in bytes read from the stream: every line they complete is
    /// applied, and a trailing unfinished line is kept for the next call.
    pub fn ingest(&mut self, chunk: &[u8])
        requires
            old(self).wf(),
        ensures
            final(self).wf(),
            final(self)@ == feed(old(self)@, chunk@),
    {
        let ghost start = self@;
        let mut i: usize = 0;
        while i < chunk.len()
            invariant
                i <= chunk@.len(),
                self.wf(),
                self@ == feed(start, chunk@.subrange(0, i as int)),
            decreases chunk@.len() - i,
        {
            let c = chunk[i];
            if c == LINE_END {
                self.end_line();
            } else {
                self.pending.push(c);
            }
            assert(chunk@.subrange(0, i + 1).drop_last() =~= chunk@.subrange(0, i as int));
            i = i + 1;
        }
        assert(chunk@.subrange(0, chunk@.len() as int) =~= chunk@);
    }

    /// The value last received for `name`, if any.
    pub fn get_config_str(&self, name: &str) -> (r: Option<String>)
        requires
            self.wf(),
        ensures
            r is Some <==> self@.options.contains_key(name@),
            r is Some ==> r->Some_0@ == self@.options[name@],
    {
        match self.options.get(name) {
            Some(v) => Some(v.clone()),
            None => None,
        }
    }

    /// Same as `get_config_str`, for an owned name.
    pub fn get_config(&self, name: String) -> (r: Option<String>)
        requires
            self.wf(),
        ensures
            r is Some <==> self@.options.contains_key(name@),
            r is Some ==> r->Some_0@ == self@.options[name@],
    {
        self.get_config_str(name.as_str())
    }
}

} // verus!
