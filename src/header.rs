//! The header container: a mapping from wire names to values, with unique
//! keys, kept in insertion order so that serialisation is stable.

use vstd::prelude::*;
use vstd::string::*;
use vstd::utf8::is_ascii_chars;
use crate::assoc::{
    entries_map, has_key, keys_unique, lemma_key_index, lemma_remove_entry, lemma_store_entry,
    store_entry,
};
use crate::header_key::{is_key_for, key_name_for, HeaderName, HttpRequestHeaderKey};
use crate::request::{ParseError, ParseFailure};
use crate::text::{
    ascii_lower, chars_of, find_char, index_of, lemma_find_any, lower_of, split, str_eq, to_lower,
    trim, trim_str,
};

verus! {

/// The longest header value accepted, in characters.
pub const MAX_HEADER_LENGTH_VALUE: usize = 250;

/// The most header lines accepted in a request.
pub const MAX_HEADERS_COUNT: usize = 100;

/// The name part of a header line: the trimmed text before the first ':'
/// of the trimmed line.
pub open spec fn header_name_part(line: Seq<char>) -> Seq<char> {
    let t = trim(line);
    trim(t.take(find_char(t, ':')))
}

/// The key and value of one header line: the trimmed line is split at its
/// first ':'; the key is the trimmed left side in lowercase, resolved to
/// the wire name of its header key; the value is the trimmed right side.
pub open spec fn header_line(line: Seq<char>) -> Result<(Seq<char>, Seq<char>), ParseFailure> {
    let t = trim(line);
    let i = find_char(t, ':');
    if i < 0 {
        Err(ParseFailure::InvalidRequest("Invalid header format!"@))
    } else {
        let key = lower_of(header_name_part(line));
        let value = trim(t.skip(i + 1));
        if value.len() > MAX_HEADER_LENGTH_VALUE {
            Err(ParseFailure::InvalidRequest("Header value too long for "@ + key))
        } else {
            Ok((key_name_for(key), value))
        }
    }
}

/// The lines of `lines` before the first blank one.
pub open spec fn nonblank_prefix(lines: Seq<Seq<char>>) -> Seq<Seq<char>>
    decreases lines.len(),
{
    if lines.len() == 0 || trim(lines[0]).len() == 0 {
        seq![]
    } else {
        seq![lines[0]] + nonblank_prefix(lines.drop_first())
    }
}

/// The header lines of `text`: its lines up to the first blank one.
pub open spec fn header_lines(text: Seq<char>) -> Seq<Seq<char>> {
    nonblank_prefix(split(text, '\n'))
}

/// The headers of the first `n` of `lines`, read in order; the first error
/// met ends the reading.
pub open spec fn read_header_lines(lines: Seq<Seq<char>>, n: nat) -> Result<
    Map<Seq<char>, Seq<char>>,
    ParseFailure,
>
    decreases n,
{
    if n == 0 {
        Ok(Map::empty())
    } else {
        match read_header_lines(lines, (n - 1) as nat) {
            Err(e) => Err(e),
            Ok(m) => if n - 1 >= MAX_HEADERS_COUNT {
                Err(ParseFailure::InvalidRequest("Too many HTTP headers"@))
            } else {
                match header_line(lines[n - 1]) {
                    Err(e) => Err(e),
                    Ok(kv) => Ok(m.insert(kv.0, kv.1)),
                }
            },
        }
    }
}

/// Once reading the header lines has failed, reading more lines fails the
/// same way.
pub proof fn lemma_read_error_persists(lines: Seq<Seq<char>>, n: nat, m: nat)
    requires
        n <= m,
        read_header_lines(lines, n) is Err,
    ensures
        read_header_lines(lines, m) == read_header_lines(lines, n),
    decreases m - n,
{
    if n < m {
        lemma_read_error_persists(lines, n, (m - 1) as nat);
    }
}

/// Reading no more lines than are allowed succeeds when each line read is
/// valid.
proof fn lemma_read_valid_lines(lines: Seq<Seq<char>>, n: nat)
    requires
        n <= MAX_HEADERS_COUNT,
        n <= lines.len(),
        forall|i: int| 0 <= i < n ==> #[trigger] header_line(lines[i]) is Ok,
    ensures
        read_header_lines(lines, n) is Ok,
    decreases n,
{
    if n > 0 {
        lemma_read_valid_lines(lines, (n - 1) as nat);
        assert(header_line(lines[n - 1]) is Ok);
    }
}

/// A header block with more lines than `MAX_HEADERS_COUNT` is refused as
/// holding too many headers once its first `MAX_HEADERS_COUNT` lines are
/// valid, whatever the lines after them hold.
pub proof fn lemma_too_many_headers(text: Seq<char>)
    requires
        header_lines(text).len() > MAX_HEADERS_COUNT,
        forall|i: int|
            0 <= i < MAX_HEADERS_COUNT ==> #[trigger] header_line(header_lines(text)[i]) is Ok,
    ensures
        parse_headers(text) == Err::<Map<Seq<char>, Seq<char>>, _>(
            ParseFailure::InvalidRequest("Too many HTTP headers"@),
        ),
{
    let lines = header_lines(text);
    lemma_read_valid_lines(lines, MAX_HEADERS_COUNT as nat);
    lemma_read_error_persists(lines, (MAX_HEADERS_COUNT + 1) as nat, lines.len());
}

/// A block of one header line with a ':' and no line feed is accepted
/// exactly when its trimmed value has at most `MAX_HEADER_LENGTH_VALUE`
/// characters.
pub proof fn lemma_value_length_limit(line: Seq<char>)
    requires
        trim(line).len() > 0,
        find_char(line, '\n') < 0,
        find_char(trim(line), ':') >= 0,
    ensures
        parse_headers(line) is Ok <==> trim(trim(line).skip(find_char(trim(line), ':') + 1)).len()
            <= MAX_HEADER_LENGTH_VALUE,
{
    lemma_find_any(line, set!['\n']);
    assert(split(line, '\n') == seq![line]);
    assert(seq![line].drop_first() =~= Seq::<Seq<char>>::empty());
    assert(nonblank_prefix(Seq::<Seq<char>>::empty()) == Seq::<Seq<char>>::empty());
    assert(header_lines(line) =~= seq![line]);
    assert(read_header_lines(seq![line], 0) == Ok::<_, ParseFailure>(Map::<Seq<char>, Seq<char>>::empty()));
}

/// The headers of a header block.
pub open spec fn parse_headers(text: Seq<char>) -> Result<Map<Seq<char>, Seq<char>>, ParseFailure> {
    let lines = header_lines(text);
    if lines.len() == 0 {
        Err(ParseFailure::InvalidRequest("Http header missing!"@))
    } else {
        read_header_lines(lines, lines.len())
    }
}

/// Parses one header line.
pub fn parse_header(line: &str) -> (r: Result<(HttpRequestHeaderKey, String), ParseError>)
    ensures
        match r {
            Ok((k, v)) => {
                &&& header_line(line@) == Ok::<_, ParseFailure>((k.name_view(), v@))
                &&& is_key_for(lower_of(header_name_part(line@)), k)
                &&& is_ascii_chars(header_name_part(line@)) ==> lower_of(header_name_part(line@))
                    == ascii_lower(header_name_part(line@))
                &&& is_ascii_chars(trim(lower_of(header_name_part(line@)))) ==> lower_of(
                    trim(lower_of(header_name_part(line@))),
                ) == ascii_lower(trim(lower_of(header_name_part(line@))))
            },
            Err(e) => header_line(line@) == Err::<(Seq<char>, Seq<char>), _>(e@),
        },
{
    let t = trim_str(line);
    let cs = chars_of(t);
    let n = cs.len();
    match index_of(&cs, ':') {
        None => Err(ParseError::InvalidRequest("Invalid header format!".to_owned())),
        Some(i) => {
            let left = t.substring_char(0, i);
            let right = t.substring_char(i + 1, n);
            assert(left@ =~= t@.take(i as int));
            assert(right@ =~= t@.skip(i + 1));
            let key = to_lower(trim_str(left));
            let value = trim_str(right);
            if value.unicode_len() > MAX_HEADER_LENGTH_VALUE {
                Err(
                    ParseError::InvalidRequest(
                        "Header value too long for ".to_owned().concat(key.as_str()),
                    ),
                )
            } else {
                Ok((HttpRequestHeaderKey::key_for(key.as_str()), value.to_owned()))
            }
        },
    }
}

/// The header lines of `entries` on the wire: `name: value` and CRLF for
/// each, in order.
pub open spec fn header_text(entries: Seq<(Seq<char>, Seq<char>)>) -> Seq<char>
    decreases entries.len(),
{
    if entries.len() == 0 {
        seq![]
    } else {
        header_text(entries.drop_last()) + entries.last().0 + ": "@ + entries.last().1 + "\r\n"@
    }
}

/// Headers keyed by wire name.
#[derive(Debug)]
pub struct HttpHeader {
    headers: Vec<(String, String)>,
}

impl View for HttpHeader {
    type V = Map<Seq<char>, Seq<char>>;

    open spec fn view(&self) -> Map<Seq<char>, Seq<char>> {
        entries_map(self.entries())
    }
}

impl HttpHeader {
    /// The entries, as (name, value) pairs in serialisation order.
    pub closed spec fn entries(&self) -> Seq<(Seq<char>, Seq<char>)> {
        self.headers@.map_values(|p: (String, String)| (p.0@, p.1@))
    }

    /// Keys are unique.
    pub closed spec fn wf(&self) -> bool {
        keys_unique(self.entries())
    }

    /// An empty container.
    pub fn new() -> (r: HttpHeader)
        ensures
            r.wf(),
            r@ == Map::<Seq<char>, Seq<char>>::empty(),
            r.entries() == Seq::<(Seq<char>, Seq<char>)>::empty(),
    {
        let r = HttpHeader { headers: Vec::new() };
        assert(r.entries() =~= Seq::<(Seq<char>, Seq<char>)>::empty());
        assert(r@ =~= Map::<Seq<char>, Seq<char>>::empty());
        r
    }

    /// Index of the entry named `key`.
    fn position(&self, key: &str) -> (r: Option<usize>)
        requires
            self.wf(),
        ensures
            match r {
                Some(i) => i < self.entries().len() && self.entries()[i as int].0 == key@,
                None => !has_key(self.entries(), key@),
            },
    {
        let mut i: usize = 0;
        while i < self.headers.len()
            invariant
                i <= self.headers@.len(),
                self.entries().len() == self.headers@.len(),
                forall|j: int| 0 <= j < i ==> (#[trigger] self.entries()[j]).0 != key@,
            decreases self.headers@.len() - i,
        {
            if str_eq(self.headers[i].0.as_str(), key) {
                return Some(i);
            }
            i += 1;
        }
        None
    }

    /// Stores `value` under `key`, replacing the value of an existing entry in
    /// place.
    pub fn insert(&mut self, key: String, value: String)
        requires
            old(self).wf(),
        ensures
            final(self).wf(),
            final(self)@ == old(self)@.insert(key@, value@),
            final(self).entries() == store_entry(old(self).entries(), key@, value@),
    {
        proof {
            lemma_store_entry(self.entries(), key@, value@);
        }
        let ghost k = key@;
        let ghost v = value@;
        let ghost before = self.entries();
        match self.position(key.as_str()) {
            Some(i) => {
                proof {
                    lemma_key_index(before, i as int);
                }
                self.headers.set(i, (key, value));
            },
            None => {
                self.headers.push((key, value));
            },
        }
        assert(self.entries() =~= store_entry(before, k, v));
    }

    /// The value stored under `key`.
    pub fn get<K: HeaderName>(&self, key: K) -> (r: Option<&String>)
        requires
            self.wf(),
        ensures
            match r {
                Some(v) => self@.contains_key(key.name_view()) && v@ == self@[key.name_view()],
                None => !self@.contains_key(key.name_view()),
            },
    {
        match self.position(key.wire_name()) {
            Some(i) => {
                proof {
                    lemma_key_index(self.entries(), i as int);
                }
                Some(&self.headers[i].1)
            },
            None => None,
        }
    }

    /// Removes the entry stored under `key`, if any.
    pub fn remove<K: HeaderName>(&mut self, key: K)
        requires
            old(self).wf(),
        ensures
            final(self).wf(),
            final(self)@ == old(self)@.remove(key.name_view()),
    {
        let ghost before = self.entries();
        match self.position(key.wire_name()) {
            Some(i) => {
                proof {
                    lemma_remove_entry(before, i as int);
                }
                self.headers.remove(i);
                assert(self.entries() =~= before.remove(i as int));
            },
            None => {
                assert(entries_map(before) =~= entries_map(before).remove(key.name_view()));
            },
        }
    }

    /// Parses a header block: each line up to the first blank one is a
    /// header; the first error met ends the parse.
    pub fn parse(text: &str) -> (r: Result<HttpHeader, ParseError>)
        ensures
            match r {
                Ok(h) => h.wf() && parse_headers(text@) == Ok::<_, ParseFailure>(h@),
                Err(e) => parse_headers(text@) == Err::<Map<Seq<char>, Seq<char>>, _>(e@),
            },
    {
        let ghost lines = header_lines(text@);
        let mut header = HttpHeader::new();
        let mut rest: &str = text;
        let mut count: usize = 0;
        assert(lines.skip(0) =~= lines);
        loop
            invariant_except_break
                lines == header_lines(text@),
                header.wf(),
                count <= lines.len(),
                read_header_lines(lines, count as nat) == Ok::<_, ParseFailure>(header@),
                nonblank_prefix(split(rest@, '\n')) == lines.skip(count as int),
            ensures
                lines == header_lines(text@),
                header.wf(),
                count == lines.len(),
                read_header_lines(lines, count as nat) == Ok::<_, ParseFailure>(header@),
            decreases rest@.len(),
        {
            let cs = chars_of(rest);
            let len = cs.len();
            let found = index_of(&cs, '\n');
            let line = match found {
                Some(i) => rest.substring_char(0, i),
                None => rest,
            };
            let ghost next: Seq<char> = match found {
                Some(i) => rest@.skip(i + 1),
                None => seq![],
            };
            proof {
                match found {
                    Some(i) => {
                        assert(line@ =~= rest@.take(i as int));
                        assert(split(rest@, '\n') == seq![line@] + split(next, '\n'));
                    },
                    None => {
                        assert(split(rest@, '\n') == seq![line@]);
                    },
                }
                assert(lines.skip(count as int).len() == lines.len() - count);
            }
            if trim_str(line).is_empty() {
                break;
            }
            proof {
                let tail = match found {
                    Some(i) => nonblank_prefix(split(next, '\n')),
                    None => Seq::<Seq<char>>::empty(),
                };
                assert(nonblank_prefix(split(rest@, '\n')) == seq![line@] + tail) by {
                    match found {
                        Some(i) => {
                            assert((seq![line@] + split(next, '\n')).drop_first() =~= split(
                                next,
                                '\n',
                            ));
                        },
                        None => {
                            assert(seq![line@].drop_first() =~= Seq::<Seq<char>>::empty());
                            assert(nonblank_prefix(Seq::<Seq<char>>::empty()) =~= tail);
                            assert(tail =~= nonblank_prefix(seq![line@].drop_first()));
                        },
                    }
                }
                assert(lines[count as int] == lines.skip(count as int)[0]);
                assert(lines.skip(count + 1) =~= lines.skip(count as int).drop_first());
                assert(lines.skip(count + 1) =~= tail) by {
                    assert((seq![line@] + tail).drop_first() =~= tail);
                }
            }
            if count >= MAX_HEADERS_COUNT {
                let e = ParseError::InvalidRequest("Too many HTTP headers".to_owned());
                proof {
                    lemma_read_error_persists(lines, (count + 1) as nat, lines.len());
                }
                return Err(e);
            }
            match parse_header(line) {
                Err(e) => {
                    proof {
                        lemma_read_error_persists(lines, (count + 1) as nat, lines.len());
                    }
                    return Err(e);
                },
                Ok((k, v)) => {
                    header.insert(k.wire_name().to_owned(), v);
                },
            }
            count += 1;
            match found {
                Some(i) => {
                    let n = rest.substring_char(i + 1, len);
                    assert(n@ =~= next);
                    rest = n;
                },
                None => {
                    break;
                },
            }
        }
        if count == 0 {
            Err(ParseError::InvalidRequest("Http header missing!".to_owned()))
        } else {
            Ok(header)
        }
    }

    /// The header lines on the wire, in serialisation order.
    pub fn wire_lines(&self) -> (r: String)
        ensures
            r@ == header_text(self.entries()),
    {
        let mut text = String::new();
        let mut i: usize = 0;
        while i < self.headers.len()
            invariant
                i <= self.headers@.len(),
                self.entries().len() == self.headers@.len(),
                text@ == header_text(self.entries().take(i as int)),
            decreases self.headers@.len() - i,
        {
            assert(self.entries().take(i + 1).drop_last() =~= self.entries().take(i as int));
            text.append(self.headers[i].0.as_str());
            text.append(": ");
            text.append(self.headers[i].1.as_str());
            text.append("\r\n");
            i += 1;
        }
        assert(self.entries().take(i as int) =~= self.entries());
        text
    }

    /// Each entry is stored in the mapping under its name, and the mapping
    /// has one key per entry.
    pub proof fn lemma_entries(&self)
        requires
            self.wf(),
        ensures
            self@.dom().finite(),
            self@.len() == self.entries().len(),
            forall|i: int|
                0 <= i < self.entries().len() ==> self@.contains_key(
                    (#[trigger] self.entries()[i]).0,
                ) && self@[self.entries()[i].0] == self.entries()[i].1,
    {
        crate::assoc::lemma_entries_len(self.entries());
        assert forall|i: int| 0 <= i < self.entries().len() implies self@.contains_key(
            (#[trigger] self.entries()[i]).0,
        ) && self@[self.entries()[i].0] == self.entries()[i].1 by {
            lemma_key_index(self.entries(), i);
        }
    }

    /// The number of entries, which is the number of keys.
    pub fn len(&self) -> (r: usize)
        ensures
            r == self.entries().len(),
            self.wf() ==> r == self@.len(),
    {
        proof {
            if self.wf() {
                self.lemma_entries();
            }
        }
        self.headers.len()
    }

    /// The entry at `i` in serialisation order, as (name, value).
    pub fn entry_at(&self, i: usize) -> (r: (&String, &String))
        requires
            i < self.entries().len(),
        ensures
            (r.0@, r.1@) == self.entries()[i as int],
    {
        let e = &self.headers[i];
        (&e.0, &e.1)
    }
}

impl std::str::FromStr for HttpHeader {
    type Err = ParseError;

    fn from_str(text: &str) -> Result<HttpHeader, ParseError> {
        HttpHeader::parse(text)
    }
}

} // verus!
