//! Query strings: `&`-separated `key=value` segments, where a repeated key
//! collects its values in order of appearance.

use vstd::prelude::*;
use vstd::string::*;
use crate::assoc::{
    entries_map, has_key, keys_unique, lemma_key_index, lemma_store_entry, store_entry,
};
use crate::text::{chars_of, find_char, index_of, split, str_eq};

verus! {

/// The value of a query-string key.
#[derive(Debug, Clone, PartialEq, Eq)]
pub enum Value {
    Single(String),
    Multiple(Vec<String>),
}

impl View for Value {
    type V = Seq<Seq<char>>;

    /// The values, in order of appearance.
    open spec fn view(&self) -> Seq<Seq<char>> {
        match self {
            Value::Single(s) => seq![s@],
            Value::Multiple(v) => v@.map_values(|s: String| s@),
        }
    }
}

impl Value {
    /// A `Multiple` holds at least two values.
    pub open spec fn wf(&self) -> bool {
        match self {
            Value::Single(_) => true,
            Value::Multiple(v) => v@.len() >= 2,
        }
    }
}

/// The key and value of one segment: split at the first '='; without one,
/// the whole segment is the key and the value is empty.
pub open spec fn query_pair(seg: Seq<char>) -> (Seq<char>, Seq<char>) {
    let i = find_char(seg, '=');
    if 0 <= i < seg.len() {
        (seg.take(i), seg.skip(i + 1))
    } else {
        (seg, seq![])
    }
}

/// `m` with value `v` added for key `k`, after the values it already has.
pub open spec fn add_value(m: Map<Seq<char>, Seq<Seq<char>>>, k: Seq<char>, v: Seq<char>) -> Map<
    Seq<char>,
    Seq<Seq<char>>,
> {
    if m.contains_key(k) {
        m.insert(k, m[k].push(v))
    } else {
        m.insert(k, seq![v])
    }
}

/// The values of the segments `segs`, read in order.
pub open spec fn read_segments(segs: Seq<Seq<char>>) -> Map<Seq<char>, Seq<Seq<char>>>
    decreases segs.len(),
{
    if segs.len() == 0 {
        Map::empty()
    } else {
        let (k, v) = query_pair(segs.last());
        add_value(read_segments(segs.drop_last()), k, v)
    }
}

/// The values of a query string.
pub open spec fn parse_query(q: Seq<char>) -> Map<Seq<char>, Seq<Seq<char>>> {
    read_segments(split(q, '&'))
}

/// Appending a segment to a query string adds its value after the values
/// its key already has: a new key gets a single value, and a repeated key
/// keeps its earlier values in order and gains this one last.
pub proof fn lemma_query_append_segment(q: Seq<char>, seg: Seq<char>)
    requires
        !seg.contains('&'),
    ensures
        parse_query(q + seq!['&'] + seg) == add_value(
            parse_query(q),
            query_pair(seg).0,
            query_pair(seg).1,
        ),
{
    crate::text::lemma_split_append(q, '&', seg);
    assert(split(q, '&').push(seg).drop_last() =~= split(q, '&'));
}

/// The parameters of a query string.
#[derive(Debug, Clone, PartialEq, Eq)]
pub struct QueryString {
    data: Vec<(String, Value)>,
}

impl View for QueryString {
    type V = Map<Seq<char>, Seq<Seq<char>>>;

    open spec fn view(&self) -> Map<Seq<char>, Seq<Seq<char>>> {
        entries_map(self.entries())
    }
}

impl QueryString {
    /// The (key, values) entries.
    pub closed spec fn entries(&self) -> Seq<(Seq<char>, Seq<Seq<char>>)> {
        self.data@.map_values(|p: (String, Value)| (p.0@, p.1@))
    }

    /// Keys are unique and every value is well formed.
    pub closed spec fn wf(&self) -> bool {
        &&& keys_unique(self.entries())
        &&& forall|i: int| 0 <= i < self.data@.len() ==> (#[trigger] self.data@[i]).1.wf()
    }

    /// Index of the entry of `key`.
    fn position(&self, key: &str) -> (r: Option<usize>)
        requires
            self.wf(),
        ensures
            match r {
                Some(i) => i < self.entries().len() && self.entries()[i as int].0 == key@,
                None => !has_key(self.entries(), key@),
            },
    {
        let mut i: usize = 0;
        while i < self.data.len()
            invariant
                i <= self.data@.len(),
                self.entries().len() == self.data@.len(),
                forall|j: int| 0 <= j < i ==> (#[trigger] self.entries()[j]).0 != key@,
            decreases self.data@.len() - i,
        {
            if str_eq(self.data[i].0.as_str(), key) {
                return Some(i);
            }
            i += 1;
        }
        None
    }

    /// The value of `key`.
    pub fn get(&self, key: &str) -> (r: Option<&Value>)
        requires
            self.wf(),
        ensures
            match r {
                Some(v) => self@.contains_key(key@) && v@ == self@[key@] && v.wf(),
                None => !self@.contains_key(key@),
            },
    {
        match self.position(key) {
            Some(i) => {
                proof {
                    lemma_key_index(self.entries(), i as int);
                }
                Some(&self.data[i].1)
            },
            None => None,
        }
    }

    /// Adds the key and value of one segment.
    fn add_segment(&mut self, seg: &str)
        requires
            old(self).wf(),
        ensures
            final(self).wf(),
            final(self)@ == add_value(old(self)@, query_pair(seg@).0, query_pair(seg@).1),
    {
        let cs = chars_of(seg);
        let n = cs.len();
        let (key, val) = match index_of(&cs, '=') {
            Some(i) => {
                let k = seg.substring_char(0, i);
                let v = seg.substring_char(i + 1, n);
                assert(k@ =~= seg@.take(i as int));
                assert(v@ =~= seg@.skip(i + 1));
                (k.to_owned(), v.to_owned())
            },
            None => (seg.to_owned(), "".to_owned()),
        };
        proof {
            reveal_strlit("");
        }
        assert(key@ == query_pair(seg@).0);
        assert(val@ =~= query_pair(seg@).1);
        let ghost before = self.entries();
        let ghost k = key@;
        let ghost v = val@;
        match self.position(key.as_str()) {
            None => {
                proof {
                    lemma_store_entry(before, k, seq![v]);
                }
                self.data.push((key, Value::Single(val)));
                assert(self.entries() =~= store_entry(before, k, seq![v]));
                assert(self@ == add_value(old(self)@, k, v));
            },
            Some(i) => {
                proof {
                    lemma_key_index(before, i as int);
                    lemma_store_entry(before, k, before[i as int].1.push(v));
                }
                let (k0, old_value) = self.data.remove(i);
                let new_value = match old_value {
                    Value::Single(a) => {
                        let mut vs: Vec<String> = Vec::new();
                        vs.push(a);
                        vs.push(val);
                        assert(vs@.map_values(|s: String| s@) =~= seq![a@].push(v));
                        Value::Multiple(vs)
                    },
                    Value::Multiple(vs) => {
                        let mut vs = vs;
                        let ghost prev = vs@;
                        vs.push(val);
                        assert(vs@.map_values(|s: String| s@) =~= prev.map_values(|s: String| s@).push(v));
                        Value::Multiple(vs)
                    },
                };
                self.data.insert(i, (k0, new_value));
                assert(self.entries() =~= store_entry(before, k, before[i as int].1.push(v)));
                assert(self@ == add_value(old(self)@, k, v));
                assert forall|j: int| 0 <= j < self.data@.len() implies (#[trigger] self.data@[j]).1.wf() by {
                    if j != i {
                        assert(self.data@[j] == old(self).data@[j]);
                    }
                }
            },
        }
    }

    /// Parses a query string: `&` separates segments, and each segment gives
    /// a key and a value.
    pub fn from(s: &str) -> (r: QueryString)
        ensures
            r.wf(),
            r@ == parse_query(s@),
    {
        let mut q = QueryString { data: Vec::new() };
        let mut rest: &str = s;
        let ghost done: Seq<Seq<char>> = seq![];
        assert(q@ =~= read_segments(done));
        assert(split(s@, '&') =~= done + split(rest@, '&'));
        loop
            invariant_except_break
                q.wf(),
                split(s@, '&') == done + split(rest@, '&'),
                q@ == read_segments(done),
            ensures
                q.wf(),
                q@ == parse_query(s@),
            decreases rest@.len(),
        {
            let cs = chars_of(rest);
            let len = cs.len();
            let found = index_of(&cs, '&');
            let seg = match found {
                Some(i) => rest.substring_char(0, i),
                None => rest,
            };
            q.add_segment(seg);
            proof {
                assert(done.push(seg@).drop_last() =~= done);
                done = done.push(seg@);
            }
            match found {
                Some(i) => {
                    let n = rest.substring_char(i + 1, len);
                    assert(seg@ =~= rest@.take(i as int));
                    assert(n@ =~= rest@.skip(i + 1));
                    assert(split(s@, '&') =~= done + split(n@, '&'));
                    rest = n;
                },
                None => {
                    assert(split(s@, '&') =~= done);
                    break;
                },
            }
        }
        q
    }
}

} // verus!
