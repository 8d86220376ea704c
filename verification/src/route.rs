//! The router: from a request to what has to be done for it.
//!
//! The router reads and writes no file itself. For the `/files/` routes it
//! names the file, and the caller hands back how the read or the write went.

use crate::env::ProgramEnv;
use crate::request::{Request, RequestView};
use crate::response::{HttpResponse, ResponseView};
use crate::text::{
    chars_of, join, join_chars, option_text, same, split, split_chars, string_of, texts,
};
use vstd::prelude::*;
use vstd::slice::slice_subrange;

verus! {

/// What has to be done to answer a request.
#[derive(Debug, Clone, PartialEq, Eq)]
pub enum Action {
    /// Send this response.
    Respond(HttpResponse),
    /// Read the file `name` under the directory `dir`, then send what
    /// `HttpResponse::after_read` makes of the outcome.
    ReadFile { dir: String, name: String },
    /// Create the file `name` under the directory `dir`, or empty it if it
    /// exists, and write `body` to it; then send what
    /// `HttpResponse::after_write` makes of the outcome.
    WriteFile { dir: String, name: String, body: String },
}

/// An action as plain values.
pub enum ActionView {
    Respond(ResponseView),
    ReadFile { dir: Seq<char>, name: Seq<char> },
    WriteFile { dir: Seq<char>, name: Seq<char>, body: Seq<char> },
}

impl View for Action {
    type V = ActionView;

    open spec fn view(&self) -> ActionView {
        match self {
            Action::Respond(response) => ActionView::Respond(response@),
            Action::ReadFile { dir, name } => ActionView::ReadFile { dir: dir@, name: name@ },
            Action::WriteFile { dir, name, body } => ActionView::WriteFile {
                dir: dir@,
                name: name@,
                body: body@,
            },
        }
    }
}

/// The texts that are not empty.
pub open spec fn nonempty() -> spec_fn(Seq<char>) -> bool {
    |piece: Seq<char>| piece.len() > 0
}

/// The segments of a path: what `/` cuts it into, the empty pieces left out.
/// So `/echo/foo`, `//echo/foo` and `/echo/foo/` have the same segments.
pub open spec fn segments(path: Seq<char>) -> Seq<Seq<char>> {
    split(path, "/"@).filter(nonempty())
}

/// What a path names: its segments after the first, with `/` between them.
/// Nothing is done about `..` among them.
pub open spec fn target(path: Seq<char>) -> Seq<char>
    recommends
        segments(path).len() > 0,
{
    join(segments(path).skip(1), "/"@)
}

/// The first segment of `path` is `word`.
pub open spec fn leads_to(path: Seq<char>, word: Seq<char>) -> bool {
    segments(path).len() > 0 && segments(path)[0] == word
}

/// There is an answer to a `GET` for this request: it does not ask for
/// `/user-agent` without a `User-Agent` header.
pub open spec fn get_answerable(req: RequestView) -> bool {
    req.path != "/"@ && leads_to(req.path, "user-agent"@) ==> req.user_agent is Some
}

/// There is an answer to this request.
pub open spec fn answerable(req: RequestView) -> bool {
    req.method == "GET"@ ==> get_answerable(req)
}

/// What has to be done for a `GET`.
pub open spec fn route_get(req: RequestView, files_dir: Option<Seq<char>>) -> ActionView
    recommends
        get_answerable(req),
{
    if req.path == "/"@ {
        ActionView::Respond(ResponseView::Success(None))
    } else if leads_to(req.path, "echo"@) {
        ActionView::Respond(ResponseView::Success(Some(target(req.path))))
    } else if leads_to(req.path, "user-agent"@) {
        ActionView::Respond(ResponseView::Success(req.user_agent))
    } else if leads_to(req.path, "files"@) {
        match files_dir {
            Some(dir) => ActionView::ReadFile { dir, name: target(req.path) },
            None => ActionView::Respond(ResponseView::NotFound),
        }
    } else {
        ActionView::Respond(ResponseView::NotFound)
    }
}

/// What has to be done for a `POST`.
pub open spec fn route_post(req: RequestView, files_dir: Option<Seq<char>>) -> ActionView {
    if leads_to(req.path, "files"@) {
        match files_dir {
            Some(dir) => ActionView::WriteFile { dir, name: target(req.path), body: req.body },
            None => ActionView::Respond(ResponseView::NotFound),
        }
    } else {
        ActionView::Respond(ResponseView::NotFound)
    }
}

/// What has to be done for a request: by its method, then by the first
/// segment of its path. Whatever is not listed is answered `404 Not Found`.
pub open spec fn route(req: RequestView, files_dir: Option<Seq<char>>) -> ActionView
    recommends
        answerable(req),
{
    if req.method == "GET"@ {
        route_get(req, files_dir)
    } else if req.method == "POST"@ {
        route_post(req, files_dir)
    } else {
        ActionView::Respond(ResponseView::NotFound)
    }
}

/// The response after the file of a `ReadFile` was read: the content, or
/// nothing where the read failed, for whatever reason.
pub open spec fn after_read(content: Option<Seq<char>>) -> ResponseView {
    match content {
        Some(content) => ResponseView::File(content),
        None => ResponseView::NotFound,
    }
}

/// The response after the file of a `WriteFile` was written, or was not.
pub open spec fn after_write(written: bool) -> ResponseView {
    if written {
        ResponseView::Created
    } else {
        ResponseView::NotFound
    }
}

/// The pieces of `pieces` that are not empty.
fn keep_nonempty<'a>(pieces: &[&'a [char]]) -> (kept: Vec<&'a [char]>)
    ensures
        texts(kept@) == texts(pieces@).filter(nonempty()),
{
    let mut kept: Vec<&'a [char]> = Vec::new();
    let mut k: usize = 0;
    while k < pieces.len()
        invariant
            k <= pieces@.len(),
            texts(kept@) == texts(pieces@).take(k as int).filter(nonempty()),
        decreases pieces@.len() - k,
    {
        let piece = pieces[k];
        if piece.len() > 0 {
            kept.push(piece);
        }
        proof {
            let upto = texts(pieces@).take(k + 1);
            assert(upto =~= texts(pieces@).take(k as int).push(piece@));
            texts(pieces@).take(k as int).lemma_filter_push(piece@, nonempty());
        }
        k += 1;
    }
    assert(texts(pieces@).take(k as int) =~= texts(pieces@));
    kept
}

/// Whether `chars` spells `word`.
fn spells(chars: &[char], word: &str) -> (equal: bool)
    ensures
        equal == (chars@ == word@),
{
    let word_chars = chars_of(word);
    same(chars, word_chars.as_slice())
}

/// Cuts a path into its first segment and what it names; nothing where the
/// path has no segment.
fn parse_path<'a>(path: &'a [char]) -> (parsed: Option<(&'a [char], Vec<char>)>)
    ensures
        match parsed {
            Some((first, rest)) => segments(path@).len() > 0 && first@ == segments(path@)[0]
                && rest@ == target(path@),
            None => segments(path@).len() == 0,
        },
{
    let slash = chars_of("/");
    proof {
        reveal_strlit("/");
    }
    let pieces = split_chars(path, slash.as_slice());
    let kept = keep_nonempty(pieces.as_slice());
    if kept.len() == 0 {
        None
    } else {
        let rest = slice_subrange(kept.as_slice(), 1, kept.len());
        assert(texts(rest@) =~= segments(path@).skip(1));
        Some((kept[0], join_chars(rest, slash.as_slice())))
    }
}

impl HttpResponse {
    /// The response to send after the file of a `ReadFile` was read: the
    /// content, or nothing where the read failed.
    pub fn after_read(content: Option<String>) -> (response: HttpResponse)
        ensures
            response@ == after_read(option_text(content)),
    {
        match content {
            Some(content) => HttpResponse::File(content),
            None => HttpResponse::NotFound,
        }
    }

    /// The response to send after the file of a `WriteFile` was written.
    pub fn after_write(written: bool) -> (response: HttpResponse)
        ensures
            response@ == after_write(written),
    {
        if written {
            HttpResponse::Created
        } else {
            HttpResponse::NotFound
        }
    }
}

impl Request {
    /// Whether there is an answer to this request. There is none to a `GET`
    /// for `/user-agent` that comes without a `User-Agent` header.
    pub fn answerable(&self) -> (yes: bool)
        ensures
            yes == answerable(self@),
    {
        if !spells(chars_of(self.method.as_str()).as_slice(), "GET") {
            return true;
        }
        if self.user_agent.is_some() {
            return true;
        }
        let path = chars_of(self.path.as_str());
        if spells(path.as_slice(), "/") {
            return true;
        }
        match parse_path(path.as_slice()) {
            Some((first, _)) => !spells(first, "user-agent"),
            None => true,
        }
    }

    /// Says what has to be done for this request.
    pub fn handle_route(self, env: &ProgramEnv) -> (action: Action)
        requires
            answerable(self@),
        ensures
            action@ == route(self@, env@),
    {
        let method = chars_of(self.method.as_str());
        if spells(method.as_slice(), "GET") {
            self.handle_get(env)
        } else if spells(method.as_slice(), "POST") {
            self.handle_post(env)
        } else {
            Action::Respond(HttpResponse::NotFound)
        }
    }

    /// Says what has to be done for this request, taken as a `GET`.
    pub fn handle_get(self, env: &ProgramEnv) -> (action: Action)
        requires
            get_answerable(self@),
        ensures
            action@ == route_get(self@, env@),
    {
        let path = chars_of(self.path.as_str());
        if spells(path.as_slice(), "/") {
            return Action::Respond(HttpResponse::Success(None));
        }
        let (first, target) = match parse_path(path.as_slice()) {
            Some(parsed) => parsed,
            None => {
                return Action::Respond(HttpResponse::NotFound);
            },
        };
        if spells(first, "echo") {
            Action::Respond(HttpResponse::Success(Some(string_of(target.as_slice()))))
        } else if spells(first, "user-agent") {
            Action::Respond(HttpResponse::Success(self.user_agent))
        } else if spells(first, "files") {
            match &env.files_dir {
                Some(dir) => Action::ReadFile {
                    dir: dir.clone(),
                    name: string_of(target.as_slice()),
                },
                None => Action::Respond(HttpResponse::NotFound),
            }
        } else {
            Action::Respond(HttpResponse::NotFound)
        }
    }

    /// Says what has to be done for this request, taken as a `POST`.
    pub fn handle_post(self, env: &ProgramEnv) -> (action: Action)
        ensures
            action@ == route_post(self@, env@),
    {
        let path = chars_of(self.path.as_str());
        let (first, target) = match parse_path(path.as_slice()) {
            Some(parsed) => parsed,
            None => {
                return Action::Respond(HttpResponse::NotFound);
            },
        };
        if spells(first, "files") {
            match &env.files_dir {
                Some(dir) => Action::WriteFile {
                    dir: dir.clone(),
                    name: string_of(target.as_slice()),
                    body: self.body,
                },
                None => Action::Respond(HttpResponse::NotFound),
            }
        } else {
            Action::Respond(HttpResponse::NotFound)
        }
    }
}

} // verus!
