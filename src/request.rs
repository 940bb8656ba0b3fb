use vstd::prelude::*;

use crate::error::HttpError;
use crate::text::{
    chars_of, find_from, index_from, lower_of, lowercase, skip_ws, skip_ws_from, string_of,
    token_end, token_end_from, trim, trimmed,
};

verus! {

/// The method and the raw target: the first two white-space separated tokens.
pub open spec fn request_line_parts(s: Seq<char>) -> Option<(Seq<char>, Seq<char>)> {
    let a = skip_ws(s, 0);
    let b = token_end(s, a);
    let c = skip_ws(s, b);
    let d = token_end(s, c);
    if a < b && c < d {
        Some((s.subrange(a, b), s.subrange(c, d)))
    } else {
        None
    }
}

/// A header line split on its first `:` into its name and its value, both trimmed.
pub open spec fn header_split(s: Seq<char>) -> Option<(Seq<char>, Seq<char>)> {
    let p = index_from(s, ':', 0);
    if p < s.len() {
        Some((trim(s.subrange(0, p)), trim(s.subrange(p + 1, s.len() as int))))
    } else {
        None
    }
}

/// A header line as the map keeps it: the trimmed name in lower case, and the
/// trimmed value.
pub open spec fn header_parts(s: Seq<char>) -> Option<(Seq<char>, Seq<char>)> {
    match header_split(s) {
        Some((n, v)) => Some((lower_of(n), v)),
        None => None,
    }
}

/// The first entry of a comma-separated list, trimmed.
pub open spec fn first_of_list(v: Seq<char>) -> Seq<char> {
    trim(v.subrange(0, index_from(v, ',', 0)))
}

/// Splits a request line into its method and raw target.
pub fn parse_request_line(line: &str) -> (r: Result<(String, String), HttpError>)
    ensures
        r is Ok <==> request_line_parts(line@) is Some,
        r matches Ok((m, t)) ==> (m@, t@) == request_line_parts(line@)->0,
        r matches Err(e) ==> e.kind@ == "protocol"@,
{
    let v = chars_of(line);
    let a = skip_ws_from(v.as_slice(), 0);
    let b = token_end_from(v.as_slice(), a);
    let c = skip_ws_from(v.as_slice(), b);
    let d = token_end_from(v.as_slice(), c);
    if a < b && c < d {
        Ok((string_of(v.as_slice(), a, b), string_of(v.as_slice(), c, d)))
    } else {
        Err(HttpError::new("protocol", "the request line lacks a method or a target"))
    }
}

/// Splits a header line on its first `:` into its trimmed name and value.
pub fn split_header_line(line: &str) -> (r: Result<(String, String), HttpError>)
    ensures
        r is Ok <==> header_split(line@) is Some,
        r matches Ok((n, v)) ==> (n@, v@) == header_split(line@)->0,
        r matches Err(e) ==> e.kind@ == "protocol"@,
{
    let v = chars_of(line);
    let p = find_from(v.as_slice(), ':', 0);
    if p < v.len() {
        let name = trimmed(v.as_slice(), 0, p);
        let value = trimmed(v.as_slice(), p + 1, v.len());
        Ok((name, value))
    } else {
        Err(HttpError::new("protocol", "a header line lacks a colon"))
    }
}

/// Splits a header line into its lower-case name and its value.
pub fn parse_header_line(line: &str) -> (r: Result<(String, String), HttpError>)
    ensures
        r is Ok <==> header_parts(line@) is Some,
        r matches Ok((n, v)) ==> (n@, v@) == header_parts(line@)->0,
        r matches Err(e) ==> e.kind@ == "protocol"@,
{
    match split_header_line(line) {
        Ok((name, value)) => Ok((lowercase(name.as_str()), value)),
        Err(e) => Err(e),
    }
}

/// The map that a list of name/value pairs gives when later pairs overwrite earlier ones.
pub open spec fn pairs_map(s: Seq<(String, String)>) -> Map<Seq<char>, Seq<char>>
    decreases s.len(),
{
    if s.len() == 0 {
        Map::empty()
    } else {
        pairs_map(s.drop_last()).insert(s.last().0@, s.last().1@)
    }
}

proof fn lemma_pairs_map_absent(s: Seq<(String, String)>, k: Seq<char>)
    requires
        forall|j: int| 0 <= j < s.len() ==> s[j].0@ != k,
    ensures
        !pairs_map(s).contains_key(k),
    decreases s.len(),
{
    if s.len() > 0 {
        lemma_pairs_map_absent(s.drop_last(), k);
    }
}

proof fn lemma_pairs_map_last(s: Seq<(String, String)>, k: Seq<char>, i: int)
    requires
        0 <= i < s.len(),
        s[i].0@ == k,
        forall|j: int| i < j < s.len() ==> s[j].0@ != k,
    ensures
        pairs_map(s).contains_key(k),
        pairs_map(s)[k] == s[i].1@,
    decreases s.len(),
{
    if i < s.len() - 1 {
        lemma_pairs_map_last(s.drop_last(), k, i);
    }
}

/// The headers of a request: lower-case names mapped to trimmed values.
pub struct RequestHeader {
    params: Vec<(String, String)>,
}

impl View for RequestHeader {
    type V = Map<Seq<char>, Seq<char>>;

    closed spec fn view(&self) -> Map<Seq<char>, Seq<char>> {
        pairs_map(self.params@)
    }
}

impl RequestHeader {
    pub fn new() -> (r: RequestHeader)
        ensures
            r@ == Map::<Seq<char>, Seq<char>>::empty(),
    {
        RequestHeader { params: Vec::new() }
    }

    /// Sets `name` to `value`; a value set before under that name is replaced.
    pub fn insert(&mut self, name: String, value: String)
        ensures
            final(self)@ == old(self)@.insert(name@, value@),
    {
        let ghost old_params = self.params@;
        self.params.push((name, value));
        assert(self.params@.drop_last() =~= old_params);
    }

    /// The value under `name`, if there is one.
    pub fn get(&self, name: &str) -> (r: Option<String>)
        ensures
            r is Some <==> self@.contains_key(name@),
            r matches Some(v) ==> v@ == self@[name@],
    {
        let key = name.to_owned();
        let mut j = self.params.len();
        while j > 0
            invariant
                key@ == name@,
                j <= self.params@.len(),
                forall|i: int| j <= i < self.params@.len() ==> self.params@[i].0@ != key@,
            decreases j,
        {
            if self.params[j - 1].0 == key {
                proof {
                    lemma_pairs_map_last(self.params@, key@, j - 1);
                }
                return Some(self.params[j - 1].1.clone());
            }
            j -= 1;
        }
        proof {
            lemma_pairs_map_absent(self.params@, key@);
        }
        None
    }

    /// Reads one header line into the map.
    pub fn add_line(&mut self, line: &str) -> (r: Result<(), HttpError>)
        ensures
            r is Ok <==> header_parts(line@) is Some,
            r is Ok ==> final(self)@ == old(self)@.insert(
                (header_parts(line@)->0).0,
                (header_parts(line@)->0).1,
            ),
            r is Err ==> final(self)@ == old(self)@,
            r matches Err(e) ==> e.kind@ == "protocol"@,
    {
        match parse_header_line(line) {
            Ok((name, value)) => {
                self.insert(name, value);
                Ok(())
            },
            Err(e) => Err(e),
        }
    }

    /// The first media type of the `accept` header, if the request has one.
    pub fn get_first_accept(&self) -> (r: Option<String>)
        ensures
            r is Some <==> self@.contains_key("accept"@),
            r matches Some(a) ==> a@ == first_of_list(self@["accept"@]),
    {
        match self.get("accept") {
            Some(accept) => {
                let v = chars_of(accept.as_str());
                let p = find_from(v.as_slice(), ',', 0);
                Some(trimmed(v.as_slice(), 0, p))
            },
            None => None,
        }
    }
}

} // verus!
