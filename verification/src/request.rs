//! The request: what the header lines of one HTTP message say.

use crate::number::{parse_usize, read_usize};
use crate::text::{
    chars_of, find_from, matches_at, occurs_at, option_text, split, string_of, string_texts, texts,
};
use vstd::pervasive::unreached;
use vstd::prelude::*;
use vstd::slice::slice_subrange;

verus! {

/// One HTTP request, as read from the header lines and the body of a message.
#[derive(Debug, Clone, PartialEq, Eq)]
pub struct Request {
    /// The first word of the request line.
    pub method: String,
    /// The second word of the request line.
    pub path: String,
    /// The value of the `User-Agent` header, where the message has one.
    pub user_agent: Option<String>,
    /// The number in the `Content-Length` header; zero without one.
    pub content_length: usize,
    /// What follows the header block.
    pub body: String,
}

/// A request as plain values.
pub struct RequestView {
    pub method: Seq<char>,
    pub path: Seq<char>,
    pub user_agent: Option<Seq<char>>,
    pub content_length: usize,
    pub body: Seq<char>,
}

impl View for Request {
    type V = RequestView;

    open spec fn view(&self) -> RequestView {
        RequestView {
            method: self.method@,
            path: self.path@,
            user_agent: option_text(self.user_agent),
            content_length: self.content_length,
            body: self.body@,
        }
    }
}

/// `line` begins with one of `prefixes`.
pub open spec fn begins_with_any(line: Seq<char>, prefixes: Seq<Seq<char>>) -> bool {
    exists|k: int| 0 <= k < prefixes.len() && occurs_at(line, #[trigger] prefixes[k], 0)
}

/// The first of `lines` that begins with one of `prefixes`. The match is by
/// character: upper and lower case differ.
pub open spec fn first_line(lines: Seq<Seq<char>>, prefixes: Seq<Seq<char>>) -> Option<Seq<char>>
    decreases lines.len(),
{
    if lines.len() == 0 {
        None
    } else if begins_with_any(lines[0], prefixes) {
        Some(lines[0])
    } else {
        first_line(lines.drop_first(), prefixes)
    }
}

/// The words of a line: what single spaces cut it into.
pub open spec fn words(line: Seq<char>) -> Seq<Seq<char>> {
    split(line, " "@)
}

/// The second word of the first of `lines` that begins with `name`; nothing
/// where no line begins with `name` or that line has no space.
pub open spec fn header_value(lines: Seq<Seq<char>>, name: Seq<char>) -> Option<Seq<char>> {
    match first_line(lines, seq![name]) {
        Some(line) => if words(line).len() > 1 {
            Some(words(line)[1])
        } else {
            None
        },
        None => None,
    }
}

/// The request line of a message: its first line that begins with `GET ` or
/// with `POST `.
pub open spec fn request_line(lines: Seq<Seq<char>>) -> Option<Seq<char>> {
    first_line(lines, seq!["GET "@, "POST "@])
}

/// The number in the `Content-Length` header; zero where there is no such
/// header or its second word is no number that a `usize` holds.
pub open spec fn content_length(lines: Seq<Seq<char>>) -> usize {
    match header_value(lines, "Content-Length"@) {
        Some(value) => match parse_usize(value) {
            Some(n) => n,
            None => 0,
        },
        None => 0,
    }
}

/// The request that the header lines and the body make; nothing where no
/// line is a request line.
pub open spec fn parse_request(lines: Seq<Seq<char>>, body: Seq<char>) -> Option<RequestView> {
    match request_line(lines) {
        Some(line) => Some(
            RequestView {
                method: words(line)[0],
                path: words(line)[1],
                user_agent: header_value(lines, "User-Agent"@),
                content_length: content_length(lines),
                body,
            },
        ),
        None => None,
    }
}

/// Whether `line` begins with one of `prefixes`.
fn begins_with(line: &[char], prefixes: &[&[char]]) -> (hit: bool)
    ensures
        hit == begins_with_any(line@, texts(prefixes@)),
{
    let mut k: usize = 0;
    while k < prefixes.len()
        invariant
            k <= prefixes@.len(),
            forall|j: int| 0 <= j < k ==> !occurs_at(line@, #[trigger] texts(prefixes@)[j], 0),
        decreases prefixes@.len() - k,
    {
        if matches_at(line, prefixes[k], 0) {
            assert(occurs_at(line@, texts(prefixes@)[k as int], 0));
            return true;
        }
        k += 1;
    }
    false
}

/// The first of `lines` that begins with one of `prefixes`.
fn find_line<'a>(lines: &[&'a [char]], prefixes: &[&[char]]) -> (found: Option<&'a [char]>)
    ensures
        match found {
            Some(line) => first_line(texts(lines@), texts(prefixes@)) == Some(line@),
            None => first_line(texts(lines@), texts(prefixes@)) is None,
        },
{
    let ghost all = texts(lines@);
    let mut i: usize = 0;
    assert(all.skip(0) =~= all);
    while i < lines.len()
        invariant
            i <= lines@.len(),
            all == texts(lines@),
            first_line(all, texts(prefixes@)) == first_line(all.skip(i as int), texts(prefixes@)),
        decreases lines@.len() - i,
    {
        if begins_with(lines[i], prefixes) {
            return Some(lines[i]);
        }
        assert(all.skip(i as int).drop_first() =~= all.skip(i + 1));
        i += 1;
    }
    None
}

/// The first word of `line`, and its second word if it has one.
fn first_words<'a>(line: &'a [char]) -> (found: (&'a [char], Option<&'a [char]>))
    ensures
        found.0@ == words(line@)[0],
        match found.1 {
            Some(second) => words(line@).len() > 1 && second@ == words(line@)[1],
            None => words(line@).len() == 1,
        },
{
    let space = chars_of(" ");
    let end: usize = line.len();
    proof {
        reveal_strlit(" ");
        reveal_with_fuel(split, 2);
        assert(line@.skip(0) =~= line@);
    }
    match find_from(line, space.as_slice(), 0) {
        None => (line, None),
        Some(i) => {
            let first = slice_subrange(line, 0, i);
            match find_from(line, space.as_slice(), i + 1) {
                None => {
                    let second = slice_subrange(line, i + 1, end);
                    (first, Some(second))
                },
                Some(j) => {
                    let second = slice_subrange(line, i + 1, j);
                    (first, Some(second))
                },
            }
        },
    }
}

/// The second word of the first of `lines` that begins with `name`.
fn find_header<'a>(lines: &[&'a [char]], name: &str) -> (value: Option<&'a [char]>)
    ensures
        match value {
            Some(word) => header_value(texts(lines@), name@) == Some(word@),
            None => header_value(texts(lines@), name@) is None,
        },
{
    let name_chars = chars_of(name);
    let prefixes: Vec<&[char]> = vec![name_chars.as_slice()];
    assert(texts(prefixes@) =~= seq![name@]);
    match find_line(lines, prefixes.as_slice()) {
        Some(line) => first_words(line).1,
        None => None,
    }
}

/// A line that begins with `GET ` or with `POST ` has two words at least.
proof fn lemma_request_line_words(line: Seq<char>)
    requires
        begins_with_any(line, seq!["GET "@, "POST "@]),
    ensures
        words(line).len() > 1,
{
    reveal_strlit(" ");
    reveal_strlit("GET ");
    reveal_strlit("POST ");
    reveal_with_fuel(split, 2);
    let at: int = if occurs_at(line, "GET "@, 0) {
        3
    } else {
        4
    };
    assert(occurs_at(line, " "@, at)) by {
        if occurs_at(line, "GET "@, 0) {
            assert(line.subrange(0, 4)[3] == ' ');
        } else {
            assert(line.subrange(0, 5)[4] == ' ');
        }
        assert(line.subrange(at, at + 1) =~= " "@);
    }
}

impl Request {
    /// Reads a request from the header lines of a message and its body.
    ///
    /// The request line is the first line that begins with `GET ` or with
    /// `POST `; its first two words are the method and the path. Without
    /// such a line there is no request. The headers are found by their
    /// names as written here, upper and lower case told apart.
    pub fn new(header_lines: Vec<String>, body: String) -> (request: Option<Request>)
        ensures
            match request {
                Some(r) => parse_request(string_texts(header_lines@), body@) == Some(r@),
                None => parse_request(string_texts(header_lines@), body@) is None,
            },
    {
        let mut lines: Vec<Vec<char>> = Vec::new();
        let mut i: usize = 0;
        while i < header_lines.len()
            invariant
                i <= header_lines@.len(),
                lines@.len() == i,
                forall|j: int| 0 <= j < i ==> (#[trigger] lines@[j])@ == header_lines@[j]@,
            decreases header_lines@.len() - i,
        {
            lines.push(chars_of(header_lines[i].as_str()));
            i += 1;
        }
        let mut slices: Vec<&[char]> = Vec::new();
        let mut k: usize = 0;
        while k < lines.len()
            invariant
                k <= lines@.len(),
                slices@.len() == k,
                forall|j: int| 0 <= j < k ==> (#[trigger] slices@[j])@ == lines@[j]@,
            decreases lines@.len() - k,
        {
            slices.push(lines[k].as_slice());
            k += 1;
        }
        assert(texts(slices@) =~= string_texts(header_lines@));
        Request::from_lines(slices.as_slice(), body)
    }

    /// Reads a request from header lines given as characters.
    pub fn from_lines(lines: &[&[char]], body: String) -> (request: Option<Request>)
        ensures
            match request {
                Some(r) => parse_request(texts(lines@), body@) == Some(r@),
                None => parse_request(texts(lines@), body@) is None,
            },
    {
        let get = chars_of("GET ");
        let post = chars_of("POST ");
        let starts: Vec<&[char]> = vec![get.as_slice(), post.as_slice()];
        assert(texts(starts@) =~= seq!["GET "@, "POST "@]);
        let line = match find_line(lines, starts.as_slice()) {
            Some(line) => line,
            None => {
                return None;
            },
        };
        proof {
            lemma_first_line_begins(texts(lines@), seq!["GET "@, "POST "@]);
            lemma_request_line_words(line@);
        }
        let (method, second) = first_words(line);
        let path = match second {
            Some(path) => path,
            None => unreached(),
        };
        let user_agent = match find_header(lines, "User-Agent") {
            Some(agent) => Some(string_of(agent)),
            None => None,
        };
        let content_length: usize = match find_header(lines, "Content-Length") {
            Some(value) => match read_usize(value) {
                Some(n) => n,
                None => 0,
            },
            None => 0,
        };
        Some(
            Request {
                method: string_of(method),
                path: string_of(path),
                user_agent,
                content_length,
                body,
            },
        )
    }
}

/// The line that `first_line` gives begins with one of the prefixes.
pub proof fn lemma_first_line_begins(lines: Seq<Seq<char>>, prefixes: Seq<Seq<char>>)
    ensures
        first_line(lines, prefixes) matches Some(line) ==> begins_with_any(line, prefixes),
    decreases lines.len(),
{
    if lines.len() > 0 && !begins_with_any(lines[0], prefixes) {
        lemma_first_line_begins(lines.drop_first(), prefixes);
    }
}

} // verus!
