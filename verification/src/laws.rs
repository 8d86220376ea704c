//! What holds of the router and of the responses, whatever the request.

use crate::connection::{parse_message, plan, StepView};
use crate::number::decimal;
use crate::request::{
    begins_with_any, first_line, header_value, lemma_first_line_begins, parse_request,
    request_line, RequestView,
};
use crate::response::ResponseView;
use crate::route::{
    after_read, answerable, leads_to, nonempty, route, route_get, route_post, segments, target,
    ActionView,
};
use crate::text::{
    find, first_at, lemma_find, lemma_find_is, lemma_find_none, occurs_at, split,
};
use vstd::prelude::*;
use vstd::utf8::encode_utf8;

verus! {

/// The segments of `/echo/` followed by a text without `/`: `echo`, and the
/// text unless it is empty. Either way the path names the text.
proof fn lemma_echo_path(s: Seq<char>)
    requires
        !s.contains('/'),
    ensures
        leads_to("/echo/"@ + s, "echo"@),
        target("/echo/"@ + s) == s,
{
    reveal_strlit("/echo/");
    reveal_strlit("echo");
    reveal_strlit("/");
    let slash = "/"@;
    let path = "/echo/"@ + s;
    let tail1 = "echo/"@ + s;
    reveal_strlit("echo/");
    // the first cut, before `echo`
    assert(first_at(path, slash, 0)) by {
        assert(path.subrange(0, 1) =~= slash);
    }
    lemma_find_is(path, slash, 0);
    assert(path.take(0) =~= Seq::empty());
    assert(path.skip(1) =~= tail1);
    // the second cut, after `echo`
    assert(first_at(tail1, slash, 4)) by {
        assert(tail1.subrange(4, 5) =~= slash);
        assert forall|j: int| 0 <= j < 4 implies !occurs_at(tail1, slash, j) by {
            assert(tail1.subrange(j, j + 1)[0] == tail1[j]);
        }
    }
    lemma_find_is(tail1, slash, 4);
    assert(tail1.take(4) =~= "echo"@);
    assert(tail1.skip(5) =~= s);
    // no cut in the text
    assert forall|i: int| 0 <= i && i + 1 <= s.len() implies !occurs_at(s, slash, i) by {
        assert(s.contains(s[i]));
        assert(s.subrange(i, i + 1)[0] == s[i]);
    }
    lemma_find_none(s, slash);
    reveal_with_fuel(split, 3);
    let pieces = split(path, slash);
    assert(pieces =~= seq![Seq::<char>::empty(), "echo"@, s]);
    reveal_with_fuel(Seq::filter, 4);
    assert(pieces.drop_last() =~= seq![Seq::<char>::empty(), "echo"@]);
    assert(pieces.drop_last().drop_last() =~= seq![Seq::<char>::empty()]);
    assert(pieces.drop_last().drop_last().drop_last() =~= Seq::<Seq<char>>::empty());
    if s.len() > 0 {
        assert(segments(path) =~= seq!["echo"@, s]);
        assert(segments(path).skip(1) =~= seq![s]);
    } else {
        assert(segments(path) =~= seq!["echo"@]);
        assert(segments(path).skip(1) =~= Seq::<Seq<char>>::empty());
        assert(s =~= Seq::<char>::empty());
    }
}

/// A `GET` for `/echo/` followed by a text without `/` is answered
/// `200 OK` with the text itself as a plain-text body, and with the number
/// of its bytes as `Content-Length`.
pub proof fn lemma_echo(s: Seq<char>, req: RequestView, files_dir: Option<Seq<char>>)
    requires
        !s.contains('/'),
        req.method == "GET"@,
        req.path == "/echo/"@ + s,
    ensures
        answerable(req),
        route(req, files_dir) == ActionView::Respond(ResponseView::Success(Some(s))),
        ResponseView::Success(Some(s)).wire()
            == "HTTP/1.1 200 OK\r\nContent-Type: text/plain\r\nContent-Length: "@ + decimal(
            encode_utf8(s).len(),
        ) + "\r\n\r\n"@ + s,
{
    lemma_echo_path(s);
    reveal_strlit("/echo/");
    reveal_strlit("/");
    reveal_strlit("echo");
    reveal_strlit("user-agent");
    assert(req.path != "/"@);
    reveal_strlit("HTTP/1.1 200 OK\r\nContent-Type: text/plain\r\nContent-Length: ");
    reveal_strlit("HTTP/1.1 200 OK\r\nContent-Type: ");
    reveal_strlit("text/plain");
    reveal_strlit("\r\nContent-Length: ");
    assert("HTTP/1.1 200 OK\r\nContent-Type: text/plain\r\nContent-Length: "@
        =~= "HTTP/1.1 200 OK\r\nContent-Type: "@ + "text/plain"@ + "\r\nContent-Length: "@);
}

/// A `GET` for `/` is answered `200 OK` without a body, whatever else the
/// request holds: the message is the status line and the empty line, and no
/// `Content-Length` stands in it.
pub proof fn lemma_root(req: RequestView, files_dir: Option<Seq<char>>)
    requires
        req.method == "GET"@,
        req.path == "/"@,
    ensures
        answerable(req),
        route(req, files_dir) == ActionView::Respond(ResponseView::Success(None)),
        ResponseView::Success(None).wire() == "HTTP/1.1 200 OK\r\n\r\n"@,
        find(ResponseView::Success(None).wire(), "Content-Length"@) is None,
{
    reveal_strlit("HTTP/1.1 200 OK\r\n\r\n");
    reveal_strlit("Content-Length");
    let wire = "HTTP/1.1 200 OK\r\n\r\n"@;
    let name = "Content-Length"@;
    assert forall|i: int| 0 <= i && i + name.len() <= wire.len() implies !occurs_at(
        wire,
        name,
        i,
    ) by {
        assert(wire.subrange(i, i + name.len())[0] == wire[i]);
    }
    lemma_find_none(wire, name);
}

/// A `GET` for a path whose first segment is `user-agent` is answered
/// `200 OK` with the second word of the `User-Agent` header as its body;
/// without that header there is no answer to it.
pub proof fn lemma_user_agent(req: RequestView, files_dir: Option<Seq<char>>)
    requires
        req.method == "GET"@,
        leads_to(req.path, "user-agent"@),
    ensures
        answerable(req) <==> req.user_agent is Some,
        req.user_agent matches Some(agent) ==> route(req, files_dir) == ActionView::Respond(
            ResponseView::Success(Some(agent)),
        ),
{
    reveal_strlit("echo");
    reveal_strlit("user-agent");
    lemma_root_has_no_segment();
}

/// A `GET` for a path whose first segment is none of `echo`, `user-agent`
/// and `files` is answered `404 Not Found`; so is one for a path without
/// any segment other than `/` itself.
pub proof fn lemma_unknown_route(req: RequestView, files_dir: Option<Seq<char>>)
    requires
        req.method == "GET"@,
        req.path != "/"@,
        !leads_to(req.path, "echo"@),
        !leads_to(req.path, "user-agent"@),
        !leads_to(req.path, "files"@),
    ensures
        answerable(req),
        route(req, files_dir) == ActionView::Respond(ResponseView::NotFound),
        ResponseView::NotFound.wire() == "HTTP/1.1 404 Not Found\r\n\r\n"@,
{
}

/// Whatever is neither a `GET` nor a `POST` is answered `404 Not Found`,
/// and so is a `POST` for anything but a file.
pub proof fn lemma_unknown_method(req: RequestView, files_dir: Option<Seq<char>>)
    requires
        req.method != "GET"@,
        req.method == "POST"@ ==> !leads_to(req.path, "files"@),
    ensures
        answerable(req),
        route(req, files_dir) == ActionView::Respond(ResponseView::NotFound),
{
}

/// Without a directory both `/files/` routes answer `404 Not Found`.
pub proof fn lemma_files_without_directory(req: RequestView)
    requires
        leads_to(req.path, "files"@),
    ensures
        route_get(req, None) == ActionView::Respond(ResponseView::NotFound),
        route_post(req, None) == ActionView::Respond(ResponseView::NotFound),
{
    reveal_strlit("files");
    reveal_strlit("echo");
    reveal_strlit("user-agent");
    lemma_root_has_no_segment();
}

/// A `GET` for a file that cannot be read is answered `404 Not Found`,
/// whatever made the read fail.
pub proof fn lemma_unreadable_file()
    ensures
        after_read(None) == ResponseView::NotFound,
{
}

/// A `POST` and a `GET` for the same path under `/files/` name the same
/// file of the same directory, the `POST` writes the body of its request,
/// and a read that gives back what was written is answered `200 OK` with
/// exactly that as its body, sent as `application/octet-stream`.
pub proof fn lemma_post_then_get(post: RequestView, get: RequestView, dir: Seq<char>)
    requires
        post.method == "POST"@,
        get.method == "GET"@,
        post.path == get.path,
        leads_to(post.path, "files"@),
    ensures
        answerable(post),
        answerable(get),
        route(post, Some(dir)) == (ActionView::WriteFile {
            dir,
            name: target(post.path),
            body: post.body,
        }),
        route(get, Some(dir)) == (ActionView::ReadFile { dir, name: target(post.path) }),
        after_read(Some(post.body)) == ResponseView::File(post.body),
        ResponseView::File(post.body).wire()
            == "HTTP/1.1 200 OK\r\nContent-Type: application/octet-stream\r\nContent-Length: "@
            + decimal(encode_utf8(post.body).len()) + "\r\n\r\n"@ + post.body,
{
    reveal_strlit("GET");
    reveal_strlit("POST");
    reveal_strlit("files");
    reveal_strlit("echo");
    reveal_strlit("user-agent");
    lemma_root_has_no_segment();
    assert(post.method != "GET"@) by {
        assert("POST"@.len() == 4 && "GET"@.len() == 3);
    }
    reveal_strlit("HTTP/1.1 200 OK\r\nContent-Type: application/octet-stream\r\nContent-Length: ");
    reveal_strlit("HTTP/1.1 200 OK\r\nContent-Type: ");
    reveal_strlit("application/octet-stream");
    reveal_strlit("\r\nContent-Length: ");
    assert("HTTP/1.1 200 OK\r\nContent-Type: application/octet-stream\r\nContent-Length: "@
        =~= "HTTP/1.1 200 OK\r\nContent-Type: "@ + "application/octet-stream"@
        + "\r\nContent-Length: "@);
}

/// The path `/` has no segment.
proof fn lemma_root_has_no_segment()
    ensures
        segments("/"@).len() == 0,
{
    reveal_strlit("/");
    let slash = "/"@;
    assert(first_at(slash, slash, 0)) by {
        assert(slash.subrange(0, 1) =~= slash);
    }
    lemma_find_is(slash, slash, 0);
    let empty = Seq::<char>::empty();
    assert(slash.take(0) =~= empty);
    assert(slash.skip(1) =~= empty);
    lemma_find_none(empty, slash);
    reveal_with_fuel(split, 2);
    let pieces = split(slash, slash);
    assert(pieces =~= seq![empty, empty]);
    reveal_with_fuel(Seq::filter, 3);
    assert(pieces.drop_last() =~= seq![empty]);
    assert(pieces.drop_last().drop_last() =~= Seq::<Seq<char>>::empty());
}

/// The header lines hold a request exactly if one of them begins with
/// `GET ` or with `POST `.
pub proof fn lemma_request_needs_its_line(lines: Seq<Seq<char>>, body: Seq<char>)
    ensures
        parse_request(lines, body) is Some <==> exists|i: int|
            0 <= i < lines.len() && (occurs_at(#[trigger] lines[i], "GET "@, 0) || occurs_at(
                lines[i],
                "POST "@,
                0,
            )),
    decreases lines.len(),
{
    let starts = seq!["GET "@, "POST "@];
    assert forall|line: Seq<char>|
        begins_with_any(line, starts) == (occurs_at(line, "GET "@, 0) || occurs_at(
            line,
            "POST "@,
            0,
        )) by {
        assert(starts[0] == "GET "@ && starts[1] == "POST "@);
    }
    if lines.len() > 0 {
        let rest = lines.drop_first();
        lemma_request_needs_its_line(rest, body);
        if begins_with_any(lines[0], starts) {
        } else if parse_request(rest, body) is Some {
            let i = choose|i: int|
                0 <= i < rest.len() && (occurs_at(#[trigger] rest[i], "GET "@, 0) || occurs_at(
                    rest[i],
                    "POST "@,
                    0,
                ));
            assert(lines[i + 1] == rest[i]);
        } else {
            assert forall|i: int| 0 <= i < lines.len() implies !(occurs_at(
                #[trigger] lines[i],
                "GET "@,
                0,
            ) || occurs_at(lines[i], "POST "@, 0)) by {
                if i > 0 {
                    assert(rest[i - 1] == lines[i]);
                }
            }
        }
    }
}

/// The method of a request read from header lines is `GET` or `POST`.
pub proof fn lemma_method(lines: Seq<Seq<char>>, body: Seq<char>)
    ensures
        parse_request(lines, body) matches Some(req) ==> req.method == "GET"@ || req.method
            == "POST"@,
{
    let starts = seq!["GET "@, "POST "@];
    lemma_first_line_begins(lines, starts);
    if let Some(line) = request_line(lines) {
        reveal_strlit("GET ");
        reveal_strlit("POST ");
        reveal_strlit("GET");
        reveal_strlit("POST");
        reveal_strlit(" ");
        let k = choose|k: int| 0 <= k < starts.len() && occurs_at(line, #[trigger] starts[k], 0);
        let m: int = if k == 0 {
            3
        } else {
            4
        };
        assert(first_at(line, " "@, m)) by {
            assert(line.subrange(0, m + 1)[m] == ' ');
            assert(line.subrange(m, m + 1) =~= " "@);
            assert forall|j: int| 0 <= j < m implies !occurs_at(line, " "@, j) by {
                assert(line.subrange(0, m + 1)[j] == line[j]);
                assert(line.subrange(j, j + 1)[0] == line[j]);
            }
        }
        lemma_find_is(line, " "@, m);
        reveal_with_fuel(split, 2);
        if k == 0 {
            assert(line.take(m) =~= "GET"@);
        } else {
            assert(line.take(m) =~= "POST"@);
        }
    }
}

/// A request line made of a method, a space, a path without a space and,
/// after one more space, anything at all gives that method and that path,
/// where it is the first line and the method is `GET` or `POST`. The body
/// is kept as it is.
pub proof fn lemma_request_line(
    method: Seq<char>,
    path: Seq<char>,
    version: Seq<char>,
    more: Seq<Seq<char>>,
    body: Seq<char>,
)
    requires
        method == "GET"@ || method == "POST"@,
        !path.contains(' '),
    ensures
        ({
            let line = method + " "@ + path + " "@ + version;
            &&& parse_request(seq![line] + more, body) matches Some(req)
            &&& req.method == method
            &&& req.path == path
            &&& req.body == body
        }),
{
    reveal_strlit("GET");
    reveal_strlit("POST");
    reveal_strlit("GET ");
    reveal_strlit("POST ");
    reveal_strlit(" ");
    let space = " "@;
    let line = method + space + path + space + version;
    let lines = seq![line] + more;
    let starts = seq!["GET "@, "POST "@];
    // the line is a request line
    if method == "GET"@ {
        assert(line.subrange(0, 4) =~= "GET "@);
        assert(occurs_at(line, starts[0], 0));
    } else {
        assert(line.subrange(0, 5) =~= "POST "@);
        assert(occurs_at(line, starts[1], 0));
    }
    assert(lines[0] == line);
    // the first space ends the method
    let m = method.len() as int;
    assert(first_at(line, space, m)) by {
        assert(line.subrange(m, m + 1) =~= space);
        assert forall|j: int| 0 <= j < m implies !occurs_at(line, space, j) by {
            assert(line.subrange(j, j + 1)[0] == method[j]);
        }
    }
    lemma_find_is(line, space, m);
    assert(line.take(m) =~= method);
    // the second space ends the path
    let tail = path + space + version;
    assert(line.skip(m + 1) =~= tail);
    let p = path.len() as int;
    assert(first_at(tail, space, p)) by {
        assert(tail.subrange(p, p + 1) =~= space);
        assert forall|j: int| 0 <= j < p implies !occurs_at(tail, space, j) by {
            assert(path.contains(path[j]));
            assert(tail.subrange(j, j + 1)[0] == path[j]);
        }
    }
    lemma_find_is(tail, space, p);
    assert(tail.take(p) =~= path);
    reveal_with_fuel(split, 2);
}

/// A message without an empty line, and one without a request line in its
/// header block, are answered `404 Not Found`.
pub proof fn lemma_malformed(content: Seq<char>, files_dir: Option<Seq<char>>)
    requires
        find(content, "\r\n\r\n"@) is None || parse_message(content) is None,
    ensures
        plan(content, files_dir) == StepView::Act(ActionView::Respond(ResponseView::NotFound)),
{
}

/// The whole way for an echo: the message `GET /echo/<s> HTTP/1.1` with an
/// empty header block, for a text `s` without `/`, space and CR, is answered
/// `200 OK` with `s` as its body.
pub proof fn lemma_echo_message(s: Seq<char>, files_dir: Option<Seq<char>>)
    requires
        !s.contains('/'),
        !s.contains(' '),
        !s.contains('\r'),
    ensures
        plan("GET /echo/"@ + s + " HTTP/1.1\r\n\r\n"@, files_dir) == StepView::Act(
            ActionView::Respond(ResponseView::Success(Some(s))),
        ),
{
    reveal_strlit("GET /echo/");
    reveal_strlit(" HTTP/1.1\r\n\r\n");
    reveal_strlit(" HTTP/1.1");
    reveal_strlit("HTTP/1.1");
    reveal_strlit("\r\n\r\n");
    reveal_strlit("\r\n");
    reveal_strlit("GET");
    reveal_strlit("/echo/");
    reveal_strlit(" ");
    let blank = "\r\n\r\n"@;
    let crlf = "\r\n"@;
    let content = "GET /echo/"@ + s + " HTTP/1.1\r\n\r\n"@;
    let path = "/echo/"@ + s;
    let line = "GET"@ + " "@ + path + " "@ + "HTTP/1.1"@;
    let n = line.len() as int;
    assert(line =~= "GET /echo/"@ + s + " HTTP/1.1"@);
    assert(content =~= line + blank);
    // no CR stands in the request line
    assert forall|j: int| 0 <= j < n implies line[j] != '\r' by {
        if 10 <= j < 10 + s.len() {
            assert(s.contains(s[j - 10]));
        }
    }
    // the header block is the request line alone
    assert(first_at(content, blank, n)) by {
        assert(content.subrange(n, n + 4) =~= blank);
        assert forall|j: int| 0 <= j < n implies !occurs_at(content, blank, j) by {
            assert(content.subrange(j, j + 4)[0] == line[j]);
        }
    }
    assert(content.take(n) =~= line);
    assert(content.skip(n + 4) =~= Seq::<char>::empty());
    assert forall|j: int| !occurs_at(line, crlf, j) by {
        if 0 <= j && j + 2 <= n {
            assert(line.subrange(j, j + 2)[0] == line[j]);
        }
    }
    assert(split(line, crlf) =~= seq![line] + Seq::<Seq<char>>::empty());
    // the request line gives the method and the path, which lead to the echo
    assert(!path.contains(' ')) by {
        if path.contains(' ') {
            let j = choose|j: int| 0 <= j < path.len() && path[j] == ' ';
            if j >= 6 {
                assert(s.contains(s[j - 6]));
            }
        }
    }
    lemma_request_line("GET"@, path, "HTTP/1.1"@, Seq::empty(), Seq::empty());
    let req = parse_message(content)->0;
    lemma_echo(s, req, files_dir);
}

/// One more `/` before a path leaves its segments as they are.
pub proof fn lemma_leading_slash(path: Seq<char>)
    ensures
        segments("/"@ + path) == segments(path),
{
    reveal_strlit("/");
    let slash = "/"@;
    let longer = slash + path;
    assert(first_at(longer, slash, 0)) by {
        assert(longer.subrange(0, 1) =~= slash);
    }
    assert(longer.take(0) =~= Seq::<char>::empty());
    assert(longer.skip(1) =~= path);
    split(path, slash).lemma_filter_prepend(Seq::<char>::empty(), nonempty());
    assert(Seq::<Seq<char>>::empty() + segments(path) =~= segments(path));
}

/// A text followed by `/` is cut as the text is, with one more piece at the
/// end, which is empty.
proof fn lemma_split_trailing_slash(s: Seq<char>)
    ensures
        split(s + "/"@, "/"@) == split(s, "/"@).push(Seq::<char>::empty()),
    decreases s.len(),
{
    reveal_strlit("/");
    let slash = "/"@;
    let longer = s + slash;
    lemma_find(s, slash);
    assert forall|j: int| 0 <= j < s.len() implies occurs_at(longer, slash, j) == occurs_at(
        s,
        slash,
        j,
    ) by {
        assert(longer.subrange(j, j + 1) =~= s.subrange(j, j + 1));
    }
    match find(s, slash) {
        Some(i) => {
            assert(first_at(longer, slash, i));
            assert(longer.take(i) =~= s.take(i));
            assert(longer.skip(i + 1) =~= s.skip(i + 1) + slash);
            lemma_split_trailing_slash(s.skip(i + 1));
            assert(seq![s.take(i)] + split(s.skip(i + 1), slash).push(Seq::<char>::empty())
                =~= (seq![s.take(i)] + split(s.skip(i + 1), slash)).push(Seq::<char>::empty()));
        },
        None => {
            let n = s.len() as int;
            assert(first_at(longer, slash, n)) by {
                assert(longer.subrange(n, n + 1) =~= slash);
            }
            assert(longer.take(n) =~= s);
            assert(longer.skip(n + 1) =~= Seq::<char>::empty());
            assert(find(Seq::<char>::empty(), slash) is None);
            reveal_with_fuel(split, 2);
            assert(seq![s] + seq![Seq::<char>::empty()] =~= seq![s].push(Seq::<char>::empty()));
        },
    }
}

/// One more `/` after a path leaves its segments as they are.
pub proof fn lemma_trailing_slash(path: Seq<char>)
    ensures
        segments(path + "/"@) == segments(path),
{
    lemma_split_trailing_slash(path);
    split(path, "/"@).lemma_filter_push(Seq::<char>::empty(), nonempty());
}

/// Lines that begin with none of the prefixes are passed over.
proof fn lemma_first_line_skips(
    before: Seq<Seq<char>>,
    rest: Seq<Seq<char>>,
    prefixes: Seq<Seq<char>>,
)
    requires
        forall|i: int| 0 <= i < before.len() ==> !begins_with_any(#[trigger] before[i], prefixes),
    ensures
        first_line(before + rest, prefixes) == first_line(rest, prefixes),
    decreases before.len(),
{
    if before.len() == 0 {
        assert(before + rest =~= rest);
    } else {
        assert((before + rest)[0] == before[0]);
        assert((before + rest).drop_first() =~= before.drop_first() + rest);
        assert forall|i: int| 0 <= i < before.drop_first().len() implies !begins_with_any(
            #[trigger] before.drop_first()[i],
            prefixes,
        ) by {
            assert(before.drop_first()[i] == before[i + 1]);
        }
        lemma_first_line_skips(before.drop_first(), rest, prefixes);
    }
}

/// The value of a header is what stands between the space after its colon
/// and the next space or the end of its line, where no earlier line begins
/// with the name of the header. So of `User-Agent: curl/8.0` the value is
/// `curl/8.0`, and of `User-Agent: a b` it is `a`.
pub proof fn lemma_header_value(
    before: Seq<Seq<char>>,
    name: Seq<char>,
    value: Seq<char>,
    more: Seq<char>,
    after: Seq<Seq<char>>,
)
    requires
        forall|i: int| 0 <= i < before.len() ==> !occurs_at(#[trigger] before[i], name, 0),
        !name.contains(' '),
        !value.contains(' '),
        more.len() == 0 || more[0] == ' ',
    ensures
        header_value(before + (seq![name + ": "@ + value + more] + after), name) == Some(value),
{
    reveal_strlit(": ");
    reveal_strlit(" ");
    let space = " "@;
    let line = name + ": "@ + value + more;
    let prefixes = seq![name];
    // the line is the first that begins with the name
    assert forall|i: int| 0 <= i < before.len() implies !begins_with_any(
        #[trigger] before[i],
        prefixes,
    ) by {
        if begins_with_any(before[i], prefixes) {
            let k = choose|k: int|
                0 <= k < prefixes.len() && occurs_at(before[i], #[trigger] prefixes[k], 0);
            assert(prefixes[k] == name);
        }
    }
    lemma_first_line_skips(before, seq![line] + after, prefixes);
    assert(occurs_at(line, prefixes[0], 0)) by {
        assert(line.subrange(0, name.len() as int) =~= name);
    }
    assert((seq![line] + after)[0] == line);
    assert(first_line(seq![line] + after, prefixes) == Some(line));
    // its first space is the one after the colon
    let n = name.len() as int;
    assert(first_at(line, space, n + 1)) by {
        assert(line.subrange(n + 1, n + 2) =~= space);
        assert forall|j: int| 0 <= j < n + 1 implies !occurs_at(line, space, j) by {
            assert(line.subrange(j, j + 1)[0] == line[j]);
            if j < n {
                assert(name.contains(name[j]));
            }
        }
    }
    lemma_find_is(line, space, n + 1);
    let tail = value + more;
    assert(line.skip(n + 2) =~= tail);
    // the value ends at the next space, or with the line
    let v = value.len() as int;
    assert forall|j: int| 0 <= j < v implies !occurs_at(tail, space, j) by {
        assert(value.contains(value[j]));
        assert(tail.subrange(j, j + 1)[0] == value[j]);
    }
    if more.len() == 0 {
        assert(tail =~= value);
        lemma_find_none(tail, space);
    } else {
        assert(first_at(tail, space, v)) by {
            assert(tail.subrange(v, v + 1) =~= space);
        }
        lemma_find_is(tail, space, v);
        assert(tail.take(v) =~= value);
    }
    reveal_with_fuel(split, 2);
}

} // verus!
