//! The web portal: reading requests, and answering them.

use crate::number::{parse_u64, push_decimal};
use crate::paths::{save_name, SaveName};
use crate::percent::url_decode;
use crate::portal::get_portal_html;
use crate::text::{
    begins_with, chars_of, cut, find_char, lines, lower, spells, split_on, string_of,
    text_of_bytes, trim, words,
};
use crate::transfer::{
    completed_update, next_chunk, processing_update, starting_update, FileProgressUpdate,
};
use vstd::prelude::*;
use vstd::slice::{slice_subrange, slice_to_vec};
use vstd::string::StringExecFns;

#[allow(unused_imports)]
use crate::number::{decimal, is_digit, law_decimal_parses, lemma_decimal, parsed_u64};
#[allow(unused_imports)]
use crate::paths::{begins_with_two, is_refused, is_saved_as, is_usable, saved_name, viewed};
#[allow(unused_imports)]
use crate::percent::{component, is_plain, law_name_round_trip, lemma_component, percent_decoded};
#[allow(unused_imports)]
use crate::portal::PORTAL_HTML;
#[allow(unused_imports)]
use crate::text::{
    begins, first_of, is_space, law_begins, law_first_line, law_split_at_separator,
    law_split_whole, lemma_first_of, lemma_word_len, lines_of, lossy_text, lowercase, split,
    trimmed, trimmed_back, trimmed_front, views, word_len, words_of,
};
#[allow(unused_imports)]
use crate::transfer::{chunk_size, completed, processing, starting};
#[allow(unused_imports)]
use vstd::utf8::encode_utf8;

verus! {

/// The length that the head of a request must not exceed.
pub const HEAD_LIMIT: usize = 16384;

/// The answer to a request whose head is too long.
pub const TOO_LARGE: &'static str =
    "HTTP/1.1 431 Request Header Fields Too Large\r\nConnection: close\r\n\r\n";

/// The answer to an upload that does not say how long it is.
pub const LENGTH_REQUIRED: &'static str =
    "HTTP/1.1 411 Length Required\r\nConnection: close\r\n\r\n";

/// The answer to an upload that came through.
pub const UPLOADED: &'static str =
    "HTTP/1.1 200 OK\r\nAccess-Control-Allow-Origin: *\r\nContent-Length: 0\r\nConnection: close\r\n\r\n";

/// The answer to any other request.
pub const NOT_FOUND: &'static str =
    "HTTP/1.1 404 Not Found\r\nContent-Length: 9\r\nConnection: close\r\n\r\nNot Found";

/// Whether `needle` stands in `haystack` from position `i` on.
pub open spec fn found_at(haystack: Seq<u8>, needle: Seq<u8>, i: int) -> bool {
    0 <= i && i + needle.len() <= haystack.len() && haystack.subrange(i, i + needle.len())
        == needle
}

/// Whether `i` is the first position at which `needle` stands in `haystack`.
pub open spec fn first_found(haystack: Seq<u8>, needle: Seq<u8>, i: int) -> bool {
    found_at(haystack, needle, i) && forall|j: int|
        j < i ==> !#[trigger] found_at(haystack, needle, j)
}

/// The four bytes that end the head of a request.
pub open spec fn head_end() -> Seq<u8> {
    seq![13u8, 10, 13, 10]
}

fn stands_at(haystack: &[u8], needle: &[u8], i: usize) -> (r: bool)
    requires
        i + needle@.len() <= haystack@.len(),
    ensures
        r == found_at(haystack@, needle@, i as int),
{
    let mut k: usize = 0;
    while k < needle.len()
        invariant
            k <= needle@.len(),
            i + needle@.len() <= haystack@.len(),
            haystack@.len() == haystack.len(),
            forall|m: int| 0 <= m < k ==> haystack@[i + m] == needle@[m],
        decreases needle.len() - k,
    {
        if haystack[i + k] != needle[k] {
            assert(haystack@.subrange(i as int, i + needle@.len())[k as int] != needle@[k as int]);
            return false;
        }
        k += 1;
    }
    assert(haystack@.subrange(i as int, i + needle@.len()) == needle@);
    true
}

/// The first position of `needle` in `haystack`.
pub fn find_subsequence(haystack: &[u8], needle: &[u8]) -> (r: Option<usize>)
    requires
        needle@.len() > 0,
    ensures
        match r {
            Some(i) => first_found(haystack@, needle@, i as int),
            None => forall|i: int| !#[trigger] found_at(haystack@, needle@, i),
        },
{
    if needle.len() > haystack.len() {
        return None;
    }
    let last: usize = haystack.len() - needle.len();
    let mut i: usize = 0;
    while i <= last
        invariant
            i <= last + 1,
            last + needle.len() == haystack.len(),
            needle@.len() > 0,
            forall|j: int| j < i ==> !#[trigger] found_at(haystack@, needle@, j),
        decreases last + 1 - i,
    {
        if stands_at(haystack, needle, i) {
            return Some(i);
        }
        i += 1;
    }
    None
}

/// What follows from the next bytes of a request: more are needed, the head ends at a
/// position, the head is too long, or the other side has closed the connection.
#[derive(Clone, Copy, Debug, PartialEq, Eq, Structural)]
pub enum HeadStep {
    More,
    Complete(usize),
    TooLarge,
    Closed,
}

/// The bytes of a request as far as they have been read.
#[derive(Clone, Debug, PartialEq, Eq)]
pub struct RequestBuffer {
    pub bytes: Vec<u8>,
}

impl HeadStep {
    /// What to answer where the head of a request is not read any further.
    pub fn refusal(&self) -> (text: Option<&'static str>)
        ensures
            text is Some <==> self is TooLarge,
            text matches Some(t) ==> t@ == TOO_LARGE@,
    {
        match self {
            HeadStep::TooLarge => Some(TOO_LARGE),
            _ => None,
        }
    }
}

impl RequestBuffer {
    /// Nothing has been read yet.
    pub fn new() -> (b: RequestBuffer)
        ensures
            b.bytes@ == Seq::<u8>::empty(),
    {
        RequestBuffer { bytes: Vec::new() }
    }

    /// Takes in the next bytes; none where the connection has ended.
    pub fn push(&mut self, chunk: &[u8]) -> (step: HeadStep)
        ensures
            final(self).bytes@ == old(self).bytes@ + chunk@,
            step is Closed <==> chunk@.len() == 0,
            chunk@.len() > 0 ==> {
                &&& step matches HeadStep::Complete(i) ==> first_found(
                    final(self).bytes@,
                    head_end(),
                    i as int,
                )
                &&& step is More || step is TooLarge ==> forall|i: int|
                    !#[trigger] found_at(final(self).bytes@, head_end(), i)
                &&& step is TooLarge ==> final(self).bytes@.len() > HEAD_LIMIT
                &&& step is More ==> final(self).bytes@.len() <= HEAD_LIMIT
                &&& step is TooLarge ==> final(self).bytes@.len() > 16384
                &&& step is More ==> final(self).bytes@.len() <= 16384
            },
    {
        if chunk.len() == 0 {
            assert(self.bytes@ == old(self).bytes@ + chunk@);
            return HeadStep::Closed;
        }
        self.bytes.extend_from_slice(chunk);
        assert(self.bytes@ == old(self).bytes@ + chunk@);
        let end: [u8; 4] = [13, 10, 13, 10];
        assert(end@ == head_end());
        match find_subsequence(&self.bytes, end.as_slice()) {
            Some(i) => HeadStep::Complete(i),
            None => if self.bytes.len() > HEAD_LIMIT {
                HeadStep::TooLarge
            } else {
                HeadStep::More
            },
        }
    }

    /// The head of the request, which ends at the given position.
    pub fn head(&self, end: usize) -> (bytes: Vec<u8>)
        requires
            end <= self.bytes@.len(),
        ensures
            bytes@ == self.bytes@.take(end as int),
    {
        assert(self.bytes@.take(end as int) == self.bytes@.subrange(0, end as int));
        slice_to_vec(slice_subrange(self.bytes.as_slice(), 0, end))
    }

    /// What was read of the body, behind the head that ends at the given position.
    pub fn body(&self, end: usize) -> (bytes: Vec<u8>)
        requires
            end + 4 <= self.bytes@.len(),
        ensures
            bytes@ == self.bytes@.skip(end + 4),
    {
        let len = self.bytes.len();
        assert(self.bytes@.skip(end + 4) == self.bytes@.subrange(end + 4, len as int));
        slice_to_vec(slice_subrange(self.bytes.as_slice(), end + 4, len))
    }
}

/// The method and the address of a request, from the first line of its head; nothing
/// where there is no line or where it has fewer than two words.
pub open spec fn request_line(text: Seq<char>) -> Option<(Seq<char>, Seq<char>)> {
    let all = lines_of(text);
    if all.len() == 0 || words_of(all[0]).len() < 2 {
        None
    } else {
        Some((words_of(all[0])[0], words_of(all[0])[1]))
    }
}

/// What a request asks for by its method and address.
#[derive(Clone, Copy, Debug, PartialEq, Eq, Structural)]
pub enum Route {
    Portal,
    Upload,
    NotFound,
}

/// What a method and an address ask for.
pub open spec fn routed(method: Seq<char>, uri: Seq<char>) -> Route {
    if method == "GET"@ && (uri == "/"@ || uri == "/index.html"@) {
        Route::Portal
    } else if method == "POST"@ && begins(uri, "/upload"@) {
        Route::Upload
    } else {
        Route::NotFound
    }
}

/// Whether a parameter gives the name of a file: `name` or `filename`, with exactly
/// one equals sign.
pub open spec fn is_name_param(param: Seq<char>) -> bool {
    let pair = split(param, '=');
    pair.len() == 2 && (pair[0] == "name"@ || pair[0] == "filename"@)
}

/// The value of the first parameter that gives the name of a file.
pub open spec fn first_name(params: Seq<Seq<char>>) -> Option<Seq<char>>
    decreases params.len(),
{
    if params.len() == 0 {
        None
    } else if is_name_param(params[0]) {
        Some(split(params[0], '=')[1])
    } else {
        first_name(params.skip(1))
    }
}

/// The encoded file name in the address of an upload. The parameters stand behind the
/// first question mark, with `&` between them.
pub open spec fn encoded_name(uri: Seq<char>) -> Option<Seq<char>> {
    let i = first_of(uri, '?') as int;
    if i < uri.len() {
        first_name(split(uri.skip(i + 1), '&'))
    } else {
        None
    }
}

/// The file name in the address of an upload, as it was meant.
pub open spec fn uploaded_name(uri: Seq<char>) -> Seq<char> {
    match encoded_name(uri) {
        Some(value) => lossy_text(percent_decoded(encode_utf8(value))),
        None => "uploaded_file"@,
    }
}

/// The length that a line of the head gives, where the text in front of its first
/// colon has been recognised. What stands between the first and the second colon is
/// the number; 0 where it is none.
pub open spec fn length_in(line: Seq<char>, so_far: u64) -> u64 {
    let parts = split(line, ':');
    if parts.len() < 2 {
        so_far
    } else {
        match parsed_u64(trimmed(parts[1])) {
            Some(n) => n,
            None => 0,
        }
    }
}

/// The length of the body according to the lines of the head: the last line that
/// gives one counts; 0 where none does.
pub open spec fn length_of(header_lines: Seq<Seq<char>>) -> u64
    decreases header_lines.len(),
{
    if header_lines.len() == 0 {
        0
    } else {
        let so_far = length_of(header_lines.drop_last());
        let line = header_lines.last();
        if begins(lowercase(line), "content-length:"@) {
            length_in(line, so_far)
        } else {
            so_far
        }
    }
}

/// What the head of a request asks for.
pub enum Asked {
    Nothing,
    Portal,
    NotFound,
    Upload { name: Seq<char>, content_length: u64 },
}

/// What the text of a head asks for.
pub open spec fn asked(text: Seq<char>) -> Asked {
    match request_line(text) {
        None => Asked::Nothing,
        Some((method, uri)) => match routed(method, uri) {
            Route::Portal => Asked::Portal,
            Route::NotFound => Asked::NotFound,
            Route::Upload => Asked::Upload {
                name: uploaded_name(uri),
                content_length: length_of(lines_of(text).skip(1)),
            },
        },
    }
}

/// What is to be done with a request: nothing, show the page, refuse it in one of three
/// ways, or take the upload. `backslash` says whether the system, which finds no name to
/// save the file under, reads backslashes and drives.
#[derive(Clone, Debug, PartialEq, Eq)]
pub enum WebRequest {
    Ignored,
    Portal,
    NotFound,
    InvalidName { backslash: bool },
    LengthRequired,
    Upload { name: SaveName, content_length: u64 },
}

/// Whether a decision is the one for what was asked. An upload is refused where its
/// name gives none to save it under, and then where its length is missing; else it is
/// taken, under the name that it gives and with that length.
pub open spec fn fits(r: WebRequest, asked: Asked) -> bool {
    match asked {
        Asked::Nothing => r is Ignored,
        Asked::Portal => r is Portal,
        Asked::NotFound => r is NotFound,
        Asked::Upload { name, content_length } => {
            let nameless = saved_name(name, false) is None && !begins_with_two(name) && saved_name(
                name,
                true,
            ) is None;
            &&& r matches WebRequest::InvalidName { backslash } ==> is_refused(name, backslash)
            &&& is_usable(name) ==> !(r is InvalidName)
            &&& nameless ==> r is InvalidName
            &&& r is InvalidName || (r is LengthRequired && content_length == 0) || (r is Upload
                && content_length > 0)
            &&& r matches WebRequest::Upload { name: saved, content_length: n } ==> {
                &&& n == content_length
                &&& is_saved_as(saved, name)
            }
        },
    }
}

/// What a method and an address ask for.
pub fn route(method: &[char], uri: &[char]) -> (r: Route)
    ensures
        r == routed(method@, uri@),
{
    if spells(method, "GET") && (spells(uri, "/") || spells(uri, "/index.html")) {
        Route::Portal
    } else if spells(method, "POST") && begins_with(uri, "/upload") {
        Route::Upload
    } else {
        Route::NotFound
    }
}

/// The encoded file name in the address of an upload.
pub fn find_encoded_name(uri: &[char]) -> (value: Option<Vec<char>>)
    ensures
        match value {
            Some(v) => encoded_name(uri@) == Some(v@),
            None => encoded_name(uri@) is None,
        },
{
    let i = find_char(uri, '?');
    if i >= uri.len() {
        proof {
            lemma_first_of(uri@, '?');
        }
        return None;
    }
    let query = slice_subrange(uri, i + 1, uri.len());
    assert(query@ == uri@.skip(i + 1));
    let params = split_on(query, '&');
    let ghost all = views(params@);
    let mut k: usize = 0;
    assert(all.skip(0) == all);
    while k < params.len()
        invariant
            k <= params@.len(),
            all == views(params@),
            first_name(all.skip(k as int)) == first_name(all),
            encoded_name(uri@) == first_name(all),
        decreases params@.len() - k,
    {
        let ghost rest = all.skip(k as int);
        assert(rest[0] == params@[k as int]@);
        assert(rest.skip(1) == all.skip(k + 1));
        let pair = split_on(params[k].as_slice(), '=');
        assert(views(pair@) == split(rest[0], '='));
        if pair.len() == 2 {
            assert(views(pair@)[0] == pair@[0]@);
            assert(views(pair@)[1] == pair@[1]@);
            if spells(pair[0].as_slice(), "name") || spells(pair[0].as_slice(), "filename") {
                return Some(cut(pair[1].as_slice(), 0, pair[1].len()));
            }
        }
        k += 1;
    }
    assert(all.skip(k as int).len() == 0);
    None
}

/// The file name in the address of an upload.
pub fn find_name(uri: &[char]) -> (name: String)
    ensures
        name@ == uploaded_name(uri@),
{
    match find_encoded_name(uri) {
        Some(value) => url_decode(string_of(value.as_slice()).as_str()),
        None => "uploaded_file".to_owned(),
    }
}

/// Whether a line, in lower case, gives the length of the body.
pub fn is_length_line(lowered: &str) -> (r: bool)
    ensures
        r == begins(lowered@, "content-length:"@),
{
    begins_with(chars_of(lowered).as_slice(), "content-length:")
}

/// The length that such a line gives, after what the lines before it gave.
pub fn read_length(line: &[char], so_far: u64) -> (n: u64)
    ensures
        n == length_in(line@, so_far),
{
    let parts = split_on(line, ':');
    assert(views(parts@).len() == parts@.len());
    if parts.len() < 2 {
        return so_far;
    }
    assert(views(parts@)[1] == parts@[1]@);
    match parse_u64(trim(parts[1].as_slice()).as_slice()) {
        Some(n) => n,
        None => 0,
    }
}

/// The length of the body according to the lines of the head behind the first.
pub fn content_length(all: &Vec<Vec<char>>) -> (n: u64)
    requires
        all@.len() > 0,
    ensures
        n == length_of(views(all@).skip(1)),
{
    let ghost header_lines = views(all@).skip(1);
    let mut n: u64 = 0;
    let mut k: usize = 1;
    assert(header_lines.take(0).len() == 0);
    while k < all.len()
        invariant
            1 <= k <= all@.len(),
            header_lines == views(all@).skip(1),
            n == length_of(header_lines.take(k - 1)),
        decreases all@.len() - k,
    {
        let line = string_of(all[k].as_slice());
        proof {
            assert(header_lines.take(k as int).drop_last() == header_lines.take(k - 1));
            assert(header_lines.take(k as int).last() == all@[k as int]@);
        }
        if is_length_line(lower(line.as_str()).as_str()) {
            n = read_length(all[k].as_slice(), n);
        }
        k += 1;
    }
    assert(header_lines.take(k - 1) == header_lines);
    n
}

/// Decides what to do with a request, from the text of its head.
pub fn route_request(text: &str) -> (r: WebRequest)
    ensures
        fits(r, asked(text@)),
{
    let all = lines(chars_of(text).as_slice());
    assert(views(all@).len() == all@.len());
    if all.len() == 0 {
        return WebRequest::Ignored;
    }
    assert(views(all@)[0] == all@[0]@);
    let parts = words(all[0].as_slice());
    assert(views(parts@).len() == parts@.len());
    if parts.len() < 2 {
        return WebRequest::Ignored;
    }
    assert(views(parts@)[0] == parts@[0]@);
    assert(views(parts@)[1] == parts@[1]@);
    let uri = parts[1].as_slice();
    match route(parts[0].as_slice(), uri) {
        Route::Portal => WebRequest::Portal,
        Route::NotFound => WebRequest::NotFound,
        Route::Upload => {
            let raw = find_name(uri);
            match save_name(raw.as_str()) {
                (None, backslash) => WebRequest::InvalidName { backslash },
                (Some(name), _) => {
                    let length = content_length(&all);
                    if length == 0 {
                        WebRequest::LengthRequired
                    } else {
                        WebRequest::Upload { name, content_length: length }
                    }
                },
            }
        },
    }
}

/// Decides what to do with a request, from the bytes of its head.
pub fn parse_request(head: &[u8]) -> (r: WebRequest)
    ensures
        fits(r, asked(lossy_text(head@))),
{
    route_request(text_of_bytes(head).as_str())
}

/// The text of the answer that shows the page. It announces the length of the page in
/// bytes.
pub open spec fn page_answer() -> Seq<char> {
    "HTTP/1.1 200 OK\r\nContent-Type: text/html; charset=utf-8\r\nContent-Length: "@ + decimal(
        encode_utf8(PORTAL_HTML@).len(),
    ) + "\r\nConnection: close\r\n\r\n"@ + PORTAL_HTML@
}

/// What a request is answered before anything is read of its body: nothing where it is
/// not understood, where its name cannot be used, or where the upload is taken.
pub open spec fn answer_text(r: WebRequest) -> Option<Seq<char>> {
    match r {
        WebRequest::Portal => Some(page_answer()),
        WebRequest::NotFound => Some(NOT_FOUND@),
        WebRequest::LengthRequired => Some(LENGTH_REQUIRED@),
        WebRequest::Ignored => None,
        WebRequest::InvalidName { .. } => None,
        WebRequest::Upload { .. } => None,
    }
}

/// The answer that shows the page.
pub fn portal_response() -> (response: String)
    ensures
        response@ == page_answer(),
{
    let html = get_portal_html();
    let mut response =
        "HTTP/1.1 200 OK\r\nContent-Type: text/html; charset=utf-8\r\nContent-Length: ".to_owned();
    push_decimal(&mut response, html.as_bytes().len() as u128);
    response.append("\r\nConnection: close\r\n\r\n");
    response.append(html);
    response
}

/// What to answer a request at once, if anything.
pub fn answer(request: &WebRequest) -> (text: Option<String>)
    ensures
        viewed(text) == answer_text(*request),
{
    match request {
        WebRequest::Portal => Some(portal_response()),
        WebRequest::NotFound => Some(NOT_FOUND.to_owned()),
        WebRequest::LengthRequired => Some(LENGTH_REQUIRED.to_owned()),
        WebRequest::Ignored => None,
        WebRequest::InvalidName { .. } => None,
        WebRequest::Upload { .. } => None,
    }
}

/// What is done next with an upload: read this many bytes, or end it.
#[derive(Clone, Copy, Debug, PartialEq, Eq, Structural)]
pub enum UploadStep {
    Read(usize),
    Finished,
}

/// A file that is being uploaded through the portal. `written` stands for what was
/// written of it.
pub struct Upload {
    pub transfer_id: String,
    pub file_name: String,
    pub content_length: u64,
    pub received: u64,
    pub written: Ghost<Seq<u8>>,
}

/// How much of what came with the head belongs to the file.
pub open spec fn initial_len(body_len: nat, content_length: u64) -> nat {
    if body_len < content_length {
        body_len
    } else {
        content_length as nat
    }
}

impl Upload {
    /// What was written of the file so far.
    pub open spec fn content(&self) -> Seq<u8> {
        self.written@
    }

    /// Whether the count fits what was written, and that is no more than was announced.
    pub open spec fn wf(&self) -> bool {
        self.received == self.content().len() && self.received <= self.content_length
    }

    /// An upload, and how many bytes of what came with the head belong to the file.
    pub fn new(transfer_id: String, file_name: String, content_length: u64, body: &[u8]) -> (r: (
        Upload,
        usize,
    ))
        ensures
            r.0.wf(),
            r.1 == initial_len(body@.len(), content_length),
            r.0.content() == body@.take(r.1 as int),
            r.0.transfer_id == transfer_id && r.0.file_name == file_name && r.0.content_length
                == content_length,
    {
        let n: usize = if (body.len() as u64) < content_length {
            body.len()
        } else {
            content_length as usize
        };
        let written: Ghost<Seq<u8>> = Ghost(body@.take(n as int));
        (Upload { transfer_id, file_name, content_length, received: n as u64, written }, n)
    }

    /// The news that the upload begins.
    pub fn start(&self) -> (u: FileProgressUpdate)
        ensures
            u@ == starting(self.transfer_id@, self.file_name@),
    {
        starting_update(self.transfer_id.as_str(), self.file_name.as_str())
    }

    /// Decides what to do next.
    pub fn next(&self) -> (step: UploadStep)
        requires
            self.wf(),
        ensures
            step == if self.received < self.content_length {
                UploadStep::Read(chunk_size(self.received, self.content_length))
            } else {
                UploadStep::Finished
            },
    {
        if self.received < self.content_length {
            UploadStep::Read(next_chunk(self.received, self.content_length))
        } else {
            UploadStep::Finished
        }
    }

    /// Records the next bytes, which are written to the file. Where none came, the other
    /// side has closed the connection, and the upload ends as it is.
    pub fn record(&mut self, chunk: &[u8]) -> (go_on: bool)
        requires
            old(self).wf(),
            old(self).received + chunk@.len() <= old(self).content_length,
        ensures
            final(self).wf(),
            go_on == (chunk@.len() > 0),
            final(self).content() == old(self).content() + chunk@,
            final(self).transfer_id == old(self).transfer_id,
            final(self).file_name == old(self).file_name,
            final(self).content_length == old(self).content_length,
    {
        self.received += chunk.len() as u64;
        self.written = Ghost(self.written@ + chunk@);
        chunk.len() > 0
    }

    /// The news of the progress, if enough milliseconds have passed since the last.
    pub fn progress(&self, since_last: u128) -> (u: Option<FileProgressUpdate>)
        ensures
            u is Some <==> since_last >= crate::transfer::REPORT_INTERVAL,
            u matches Some(u) ==> u@ == processing(
                self.transfer_id@,
                self.file_name@,
                self.received,
                self.content_length,
            ),
    {
        processing_update(
            self.transfer_id.as_str(),
            self.file_name.as_str(),
            self.received,
            self.content_length,
            since_last,
        )
    }

    /// The news that the upload is over.
    pub fn conclude(&self) -> (u: FileProgressUpdate)
        ensures
            u@ == completed(
                self.transfer_id@,
                self.file_name@,
                self.content_length,
                Some(true),
            ),
    {
        completed_update(
            self.transfer_id.as_str(),
            self.file_name.as_str(),
            self.content_length,
            Some(true),
        )
    }

    /// The answer to an upload that is over.
    pub fn reply(&self) -> (text: &'static str)
        ensures
            text@ == UPLOADED@,
    {
        UPLOADED
    }
}

/// A request is answered by what its head asks for: the page where it asks for that,
/// "411 Length Required" to an upload under a usable name without a length, "404 Not
/// Found" to anything else that is understood, and nothing to what is not.
pub proof fn law_answers(r: WebRequest, text: Seq<char>)
    requires
        fits(r, asked(text)),
    ensures
        match asked(text) {
            Asked::Nothing => answer_text(r) is None,
            Asked::Portal => answer_text(r) == Some(page_answer()),
            Asked::NotFound => answer_text(r) == Some(NOT_FOUND@),
            Asked::Upload { name, content_length } => {
                &&& content_length > 0 ==> answer_text(r) is None
                &&& is_usable(name) && content_length == 0 ==> answer_text(r) == Some(
                    LENGTH_REQUIRED@,
                )
                &&& answer_text(r) is Some ==> content_length == 0
            },
        },
{
}

/// Where the head of a request ends does not depend on the bytes behind it.
pub proof fn law_head_end_is_stable(read: Seq<u8>, more: Seq<u8>, i: int)
    requires
        first_found(read, head_end(), i),
    ensures
        first_found(read + more, head_end(), i),
{
    let all = read + more;
    assert(all.subrange(i, i + 4) == read.subrange(i, i + 4));
    assert forall|j: int| j < i implies !#[trigger] found_at(all, head_end(), j) by {
        if 0 <= j {
            assert(all.subrange(j, j + 4) == read.subrange(j, j + 4));
            assert(!found_at(read, head_end(), j));
        }
    }
}

/// What came in a series of reads, up to the first that brought nothing: there the other
/// side has stopped sending.
pub open spec fn arrived(reads: Seq<Seq<u8>>) -> Seq<u8>
    decreases reads.len(),
{
    if reads.len() == 0 || reads[0].len() == 0 {
        seq![]
    } else {
        reads[0] + arrived(reads.skip(1))
    }
}

/// Whether each read brings no more than an upload asks for.
pub open spec fn as_asked(done: nat, total: u64, reads: Seq<Seq<u8>>) -> bool
    decreases reads.len(),
{
    ||| done >= total
    ||| reads.len() == 0
    ||| reads[0].len() == 0
    ||| {
        &&& reads[0].len() <= chunk_size(done as u64, total)
        &&& as_asked(done + reads[0].len(), total, reads.skip(1))
    }
}

/// What is written of a file in the course of a series of reads, which ends where the
/// file is complete or a read brings nothing.
pub open spec fn written_after(content: Seq<u8>, total: u64, reads: Seq<Seq<u8>>) -> Seq<u8>
    decreases reads.len(),
{
    if content.len() >= total || reads.len() == 0 || reads[0].len() == 0 {
        content
    } else {
        written_after(content + reads[0], total, reads.skip(1))
    }
}

/// What is saved of an upload of `total` bytes: `read` was read until the head ended, at
/// `end`, and then came the reads.
pub open spec fn saved_content(total: u64, read: Seq<u8>, end: int, reads: Seq<Seq<u8>>) -> Seq<
    u8,
> {
    let body = read.skip(end + 4);
    written_after(body.take(initial_len(body.len(), total) as int), total, reads)
}

/// Whether what was read is how an upload of `total` bytes is read from a stream: from
/// its beginning, and until the file is complete or the stream ends.
pub open spec fn is_reading_of(
    stream: Seq<u8>,
    total: u64,
    read: Seq<u8>,
    end: int,
    reads: Seq<Seq<u8>>,
) -> bool {
    let got = read + arrived(reads);
    &&& first_found(read, head_end(), end)
    &&& as_asked(initial_len(read.skip(end + 4).len(), total), total, reads)
    &&& got.len() <= stream.len() && stream.take(got.len() as int) == got
    &&& saved_content(total, read, end, reads).len() >= total || got == stream
}

/// What is written is the beginning of what came, as far as it was announced.
proof fn lemma_written_after(content: Seq<u8>, total: u64, reads: Seq<Seq<u8>>)
    requires
        content.len() <= total,
        as_asked(content.len(), total, reads),
    ensures
        ({
            let all = content + arrived(reads);
            written_after(content, total, reads) == all.take(initial_len(all.len(), total) as int)
        }),
    decreases reads.len(),
{
    let all = content + arrived(reads);
    if content.len() >= total || reads.len() == 0 || reads[0].len() == 0 {
        assert(all.take(initial_len(all.len(), total) as int) == content);
    } else {
        let more = content + reads[0];
        lemma_written_after(more, total, reads.skip(1));
        assert(more + arrived(reads.skip(1)) == all);
    }
}

/// Of an upload the first bytes behind the head are saved, as many as were announced or
/// as came, however the stream is cut into reads.
pub proof fn law_upload_content(
    stream: Seq<u8>,
    total: u64,
    read: Seq<u8>,
    end: int,
    reads: Seq<Seq<u8>>,
)
    requires
        is_reading_of(stream, total, read, end, reads),
    ensures
        ({
            let body = stream.skip(end + 4);
            &&& first_found(stream, head_end(), end)
            &&& saved_content(total, read, end, reads) == body.take(
                initial_len(body.len(), total) as int,
            )
        }),
{
    let got = read + arrived(reads);
    let first = read.skip(end + 4);
    let n = initial_len(first.len(), total) as int;
    assert(read + stream.skip(read.len() as int) == stream) by {
        assert forall|i: int| 0 <= i < read.len() implies read[i] == stream[i] by {
            assert(got[i] == stream.take(got.len() as int)[i]);
        }
    }
    law_head_end_is_stable(read, stream.skip(read.len() as int), end);
    lemma_written_after(first.take(n), total, reads);
    let all = first.take(n) + arrived(reads);
    let body = stream.skip(end + 4);
    let saved = saved_content(total, read, end, reads);
    let m = initial_len(body.len(), total) as int;
    if first.len() < total {
        // Nothing of what came with the head is left out.
        assert(first.take(n) == first);
        assert forall|i: int| 0 <= i < all.len() implies all[i] == body[i] by {
            assert(all[i] == got[i + end + 4]);
            assert(got[i + end + 4] == stream.take(got.len() as int)[i + end + 4]);
        }
        assert(saved == all.take(initial_len(all.len(), total) as int));
        assert(saved.len() == m);
        assert(saved == body.take(m));
    } else {
        assert(saved == first.take(n));
        assert forall|i: int| 0 <= i < n implies first[i] == body[i] by {
            assert(read[i + end + 4] == stream[i + end + 4]);
        }
        assert(saved == body.take(m));
    }
}

/// Two ways of cutting a stream into reads save the same file.
pub proof fn law_any_split_saves_the_same(
    stream: Seq<u8>,
    total: u64,
    read_a: Seq<u8>,
    end_a: int,
    reads_a: Seq<Seq<u8>>,
    read_b: Seq<u8>,
    end_b: int,
    reads_b: Seq<Seq<u8>>,
)
    requires
        is_reading_of(stream, total, read_a, end_a, reads_a),
        is_reading_of(stream, total, read_b, end_b, reads_b),
    ensures
        end_a == end_b,
        saved_content(total, read_a, end_a, reads_a) == saved_content(
            total,
            read_b,
            end_b,
            reads_b,
        ),
{
    law_upload_content(stream, total, read_a, end_a, reads_a);
    law_upload_content(stream, total, read_b, end_b, reads_b);
    assert(found_at(stream, head_end(), end_a) && found_at(stream, head_end(), end_b));
}

/// A head that ends within the limit is never found too long, however much is read at a
/// time: where more than the limit was read, its end is among it.
pub proof fn law_short_head_is_read(stream: Seq<u8>, end: int, read_len: int)
    requires
        first_found(stream, head_end(), end),
        end + 4 <= HEAD_LIMIT,
        HEAD_LIMIT < read_len <= stream.len(),
    ensures
        found_at(stream.take(read_len), head_end(), end),
{
    assert(stream.take(read_len).subrange(end, end + 4) == stream.subrange(end, end + 4));
}

/// The name of a file comes through an upload from the page as it was: the page asks
/// for `/upload?name=` with the encoded name.
pub proof fn law_upload_keeps_name(name: Seq<char>)
    ensures
        routed("POST"@, "/upload?name="@ + component(name)) == Route::Upload,
        encoded_name("/upload?name="@ + component(name)) == Some(component(name)),
        uploaded_name("/upload?name="@ + component(name)) == name,
{
    reveal_strlit("/upload?name=");
    reveal_strlit("/upload");
    reveal_strlit("POST");
    reveal_strlit("GET");
    reveal_strlit("name");
    let encoded = component(name);
    let uri = "/upload?name="@ + encoded;
    // No separator stands in the encoded name.
    lemma_component(name);
    assert forall|i: int| 0 <= i < encoded.len() implies encoded[i] != '&' && encoded[i] != '='
        && encoded[i] != '?' by {
        assert(is_plain(encoded[i] as u8) || encoded[i] == '%');
    }
    assert(uri.take(7) == "/upload"@);
    assert("POST"@.len() != "GET"@.len());
    assert(begins(uri, "/upload"@));
    let q: int = 7;
    assert(first_of(uri, '?') == q) by {
        lemma_first_of(uri, '?');
        assert(uri[q] == '?');
        assert forall|j: int| 0 <= j < q implies uri[j] != '?' by {
            assert(uri[j] == "/upload?name="@[j]);
        }
    }
    let query = uri.skip(q + 1);
    assert forall|j: int| 0 <= j < query.len() implies query[j] != '&' by {
        if j >= 5 {
            assert(query[j] == encoded[j - 5]);
        } else {
            assert(query[j] == "/upload?name="@[j + 8]);
        }
    }
    lemma_first_of(query, '&');
    assert(first_of(query, '&') == query.len());
    assert(split(query, '&') == seq![query]);
    let e: int = 4;
    assert(first_of(query, '=') == e) by {
        lemma_first_of(query, '=');
        assert(query[e] == '=');
        assert forall|j: int| 0 <= j < e implies query[j] != '=' by {
            assert(query[j] == "/upload?name="@[j + 8]);
        }
    }
    assert(query.take(e) == "name"@);
    assert(query.skip(e + 1) == encoded);
    lemma_first_of(encoded, '=');
    assert(first_of(encoded, '=') == encoded.len());
    assert(split(encoded, '=') == seq![encoded]);
    assert(split(query, '=') == seq![query.take(e)] + split(encoded, '='));
    assert(is_name_param(query));
    law_name_round_trip(name);
}

/// Whether a text has a character and no white space.
pub open spec fn is_word(s: Seq<char>) -> bool {
    s.len() > 0 && forall|i: int| 0 <= i < s.len() ==> !is_space(#[trigger] s[i])
}

/// A word in front of white space or of the end is the first word.
proof fn lemma_first_word(word: Seq<char>, rest: Seq<char>)
    requires
        is_word(word),
        rest.len() == 0 || is_space(rest[0]),
    ensures
        words_of(word + rest) == seq![word] + words_of(rest),
{
    let s = word + rest;
    lemma_word_len(s);
    let n = word_len(s) as int;
    if n < word.len() {
        assert(s[n] == word[n]);
    }
    if n > word.len() {
        assert(s[word.len() as int] == rest[0]);
    }
    assert(n == word.len());
    assert(s.take(n) == word);
    assert(s.skip(n) == rest);
    assert(s[0] == word[0]);
}

/// A word in front of white space or of the end is the first word of a text, and white
/// space in front changes none of its words.
pub proof fn law_first_word(word: Seq<char>, rest: Seq<char>)
    requires
        is_word(word),
        rest.len() == 0 || is_space(rest[0]),
    ensures
        words_of(word + rest) == seq![word] + words_of(rest),
        rest.len() > 0 ==> words_of(rest) == words_of(rest.skip(1)),
        words_of(Seq::empty()) == Seq::<Seq<char>>::empty(),
{
    lemma_first_word(word, rest);
}

/// The first line of a request gives its method and its address, whatever follows.
pub proof fn law_request_line(method: Seq<char>, uri: Seq<char>, rest: Seq<char>)
    requires
        is_word(method),
        is_word(uri),
    ensures
        request_line(method + seq![' '] + uri + " HTTP/1.1\r\n"@ + rest) == Some((method, uri)),
{
    reveal_strlit(" HTTP/1.1\r\n");
    let end = " HTTP/1.1\r\n"@;
    let text = method + seq![' '] + uri + end + rest;
    let n: int = method.len() as int + 1 + uri.len() + 10;
    assert(text[n] == '\n') by {
        assert(text[n] == end[10]);
    }
    assert forall|j: int| 0 <= j < n implies text[j] != '\n' by {
        if j < method.len() {
            assert(text[j] == method[j]);
            assert(!is_space(method[j]));
        } else if j == method.len() {
            assert(text[j] == ' ');
        } else if j < method.len() + 1 + uri.len() {
            let k = j - method.len() - 1;
            assert(text[j] == uri[k]);
            assert(!is_space(uri[k]));
        } else {
            assert(text[j] == end[j - method.len() - 1 - uri.len()]);
        }
    }
    lemma_first_of(text, '\n');
    assert(first_of(text, '\n') == n);
    let version = end.take(9);
    let line = method + seq![' '] + uri + version;
    assert(text.take(n).drop_last() == line) by {
        assert(text.take(n).last() == end[9]);
    }
    assert(lines_of(text)[0] == line);
    let after_method = seq![' '] + uri + version;
    assert(line == method + after_method);
    law_first_word(method, after_method);
    assert(after_method.skip(1) == uri + version);
    law_first_word(uri, version);
    assert(version[0] == ' ');
    assert(words_of(after_method) == words_of(uri + version));
    assert(words_of(line) == seq![method] + (seq![uri] + words_of(version)));
}

/// A request of the page for an upload is understood as one, under the name that the
/// file has there.
pub proof fn law_upload_request(name: Seq<char>, rest: Seq<char>)
    ensures
        asked("POST /upload?name="@ + component(name) + " HTTP/1.1\r\n"@ + rest) matches
            Asked::Upload { name: n, .. } && n == name,
{
    reveal_strlit("POST /upload?name=");
    reveal_strlit("/upload?name=");
    reveal_strlit("POST");
    let uri = "/upload?name="@ + component(name);
    let method = "POST"@;
    lemma_component(name);
    assert forall|i: int| 0 <= i < uri.len() implies !is_space(#[trigger] uri[i]) by {
        if i >= 13 {
            assert(uri[i] == component(name)[i - 13]);
            assert(is_plain(component(name)[i - 13] as u8) || component(name)[i - 13] == '%');
        } else {
            assert(uri[i] == "/upload?name="@[i]);
        }
    }
    law_request_line(method, uri, rest);
    law_upload_keeps_name(name);
    assert(method + seq![' '] + uri == "POST /upload?name="@ + component(name));
}

/// Lines as they stand in a head, with a carriage return and a line feed between them.
pub open spec fn with_line_ends(header_lines: Seq<Seq<char>>) -> Seq<char>
    decreases header_lines.len(),
{
    if header_lines.len() == 0 {
        seq![]
    } else if header_lines.len() == 1 {
        header_lines[0]
    } else {
        header_lines[0] + seq!['\r', '\n'] + with_line_ends(header_lines.skip(1))
    }
}

/// Whether lines are not empty and hold no line feed.
pub open spec fn are_lines(header_lines: Seq<Seq<char>>) -> bool {
    forall|i: int|
        0 <= i < header_lines.len() ==> (#[trigger] header_lines[i]).len() > 0
            && !header_lines[i].contains('\n')
}

/// The lines of a head are those that were put into it.
pub proof fn law_header_lines(header_lines: Seq<Seq<char>>)
    requires
        are_lines(header_lines),
    ensures
        lines_of(with_line_ends(header_lines)) == header_lines,
    decreases header_lines.len(),
{
    if header_lines.len() == 0 {
    } else if header_lines.len() == 1 {
        assert(!header_lines[0].contains('\n'));
        law_first_line(header_lines[0], Seq::empty());
        assert(header_lines == seq![header_lines[0]]);
    } else {
        let rest = header_lines.skip(1);
        assert forall|i: int| 0 <= i < rest.len() implies (#[trigger] rest[i]).len() > 0
            && !rest[i].contains('\n') by {
            assert(rest[i] == header_lines[i + 1]);
        }
        law_header_lines(rest);
        assert(!header_lines[0].contains('\n'));
        law_first_line(header_lines[0], with_line_ends(rest));
        assert(header_lines == seq![header_lines[0]] + rest);
    }
}

/// Whether no line is one that gives the length, that is, in lower case begins with
/// "content-length:".
pub open spec fn none_gives_length(header_lines: Seq<Seq<char>>) -> bool {
    forall|i: int|
        0 <= i < header_lines.len() ==> !begins(
            lowercase(#[trigger] header_lines[i]),
            "content-length:"@,
        )
}

/// A line that does not give the length can stand anywhere in the head, or not, without
/// changing the length.
pub proof fn law_other_lines_do_not_count(
    before: Seq<Seq<char>>,
    line: Seq<char>,
    behind: Seq<Seq<char>>,
)
    requires
        !begins(lowercase(line), "content-length:"@),
    ensures
        length_of(before + seq![line] + behind) == length_of(before + behind),
    decreases behind.len(),
{
    let with = before + seq![line] + behind;
    let without = before + behind;
    if behind.len() == 0 {
        assert(with.drop_last() == before);
        assert(without == before);
    } else {
        law_other_lines_do_not_count(before, line, behind.drop_last());
        assert(with.drop_last() == before + seq![line] + behind.drop_last());
        assert(without.drop_last() == before + behind.drop_last());
        assert(with.last() == without.last());
    }
}

/// Lines that do not give the length, behind others, leave the length as it is; alone
/// they give none.
pub proof fn law_length_survives(header_lines: Seq<Seq<char>>, behind: Seq<Seq<char>>)
    requires
        none_gives_length(behind),
    ensures
        length_of(header_lines + behind) == length_of(header_lines),
        length_of(behind) == 0,
    decreases behind.len(),
{
    if behind.len() == 0 {
        assert(header_lines + behind == header_lines);
    } else {
        let init = behind.drop_last();
        assert forall|i: int| 0 <= i < init.len() implies !begins(
            lowercase(#[trigger] init[i]),
            "content-length:"@,
        ) by {
            assert(init[i] == behind[i]);
        }
        law_length_survives(header_lines, init);
        let all = header_lines + behind;
        assert(all.drop_last() == header_lines + init);
        assert(all.last() == behind.last());
        assert(behind.last() == behind[behind.len() - 1]);
    }
}

/// The number in a line that gives the length is what stands between its first and its
/// second colon, or behind its only one, without the white space around it; whatever is
/// not such a number is 0. What other lines gave does not matter.
pub proof fn law_number_in_line(
    field: Seq<char>,
    value: Seq<char>,
    rest: Seq<char>,
    so_far: u64,
)
    requires
        !field.contains(':'),
        !value.contains(':'),
    ensures
        ({
            let n = match parsed_u64(trimmed(value)) {
                Some(n) => n,
                None => 0,
            };
            &&& length_in(field + seq![':'] + value, so_far) == n
            &&& length_in(field + seq![':'] + value + seq![':'] + rest, so_far) == n
            &&& length_in(field, so_far) == so_far
        }),
{
    law_split_whole(field, ':');
    law_split_whole(value, ':');
    law_split_at_separator(field, ':', value);
    let line = field + seq![':'] + value;
    law_split_at_separator(line, ':', rest);
    let parts = split(line, ':');
    assert(parts == seq![field, value]);
    assert(split(line + seq![':'] + rest, ':')[1] == value);
}

/// A number behind a space is trimmed to itself.
proof fn lemma_trimmed_number(n: nat)
    ensures
        trimmed(seq![' '] + decimal(n)) == decimal(n),
        !decimal(n).contains(':'),
{
    let d = decimal(n);
    let s = seq![' '] + d;
    lemma_decimal(n);
    assert(is_digit(d[0]));
    assert(is_digit(d[d.len() - 1]));
    assert(s.skip(1) == d);
    assert(trimmed_front(d) == d);
    assert(trimmed_front(s) == trimmed_front(d));
    assert(trimmed_back(d) == d);
    if d.contains(':') {
        let j = choose|j: int| 0 <= j < d.len() && d[j] == ':';
        assert(is_digit(d[j]));
    }
}

/// Where one line of the head gives the length, that is the length, wherever the line
/// stands among the others.
pub proof fn law_length_wherever_it_stands(
    before: Seq<Seq<char>>,
    line: Seq<char>,
    behind: Seq<Seq<char>>,
    n: u64,
)
    requires
        none_gives_length(before),
        none_gives_length(behind),
        begins(lowercase(line), "content-length:"@),
        line == "Content-Length: "@ + decimal(n as nat),
    ensures
        length_of(before + seq![line] + behind) == n,
{
    reveal_strlit("Content-Length: ");
    let field = "Content-Length: "@.take(14);
    let value = seq![' '] + decimal(n as nat);
    lemma_trimmed_number(n as nat);
    if field.contains(':') {
        let j = choose|j: int| 0 <= j < field.len() && field[j] == ':';
        assert("Content-Length: "@[j] == ':');
    }
    if value.contains(':') {
        let j = choose|j: int| 0 <= j < value.len() && value[j] == ':';
        assert(decimal(n as nat)[j - 1] == ':');
    }
    assert(line == field + seq![':'] + value);
    law_number_in_line(field, value, Seq::empty(), length_of(before));
    law_decimal_parses(n);
    let upto = before + seq![line];
    assert(upto.drop_last() == before);
    assert(upto.last() == line);
    assert(length_of(upto) == n);
    law_length_survives(upto, behind);
}

/// Of several lines that give the length the last one counts.
pub proof fn law_last_length_counts(
    before: Seq<Seq<char>>,
    other: Seq<Seq<char>>,
    field: Seq<char>,
    value: Seq<char>,
    behind: Seq<Seq<char>>,
)
    requires
        none_gives_length(behind),
        !field.contains(':'),
        !value.contains(':'),
        begins(lowercase(field + seq![':'] + value), "content-length:"@),
    ensures
        length_of(before + seq![field + seq![':'] + value] + behind) == match parsed_u64(
            trimmed(value),
        ) {
            Some(n) => n,
            None => 0,
        },
        length_of(before + seq![field + seq![':'] + value] + behind) == length_of(
            other + seq![field + seq![':'] + value] + behind,
        ),
{
    let line = field + seq![':'] + value;
    law_number_in_line(field, value, Seq::empty(), length_of(before));
    law_number_in_line(field, value, Seq::empty(), length_of(other));
    assert((before + seq![line]).drop_last() == before);
    assert((before + seq![line]).last() == line);
    assert((other + seq![line]).drop_last() == other);
    assert((other + seq![line]).last() == line);
    law_length_survives(before + seq![line], behind);
    law_length_survives(other + seq![line], behind);
}

/// An upload from the page is understood with its name and its length, wherever the line
/// with the length stands in the head and whatever else stands there.
pub proof fn law_upload_with_length(
    name: Seq<char>,
    before: Seq<Seq<char>>,
    line: Seq<char>,
    behind: Seq<Seq<char>>,
    n: u64,
)
    requires
        are_lines(before),
        are_lines(behind),
        none_gives_length(before),
        none_gives_length(behind),
        begins(lowercase(line), "content-length:"@),
        line == "Content-Length: "@ + decimal(n as nat),
    ensures
        asked(
            "POST /upload?name="@ + component(name) + " HTTP/1.1\r\n"@ + with_line_ends(
                before + seq![line] + behind,
            ),
        ) == (Asked::Upload { name, content_length: n }),
{
    reveal_strlit("Content-Length: ");
    reveal_strlit("POST /upload?name=");
    reveal_strlit(" HTTP/1.1\r\n");
    let header_lines = before + seq![line] + behind;
    lemma_decimal(n as nat);
    assert(!line.contains('\n')) by {
        if line.contains('\n') {
            let j = choose|j: int| 0 <= j < line.len() && line[j] == '\n';
            if j >= 16 {
                assert(is_digit(decimal(n as nat)[j - 16]));
            } else {
                assert("Content-Length: "@[j] == '\n');
            }
        }
    }
    assert(are_lines(header_lines)) by {
        assert forall|i: int| 0 <= i < header_lines.len() implies (
        #[trigger] header_lines[i]).len() > 0 && !header_lines[i].contains('\n') by {
            if i < before.len() {
                assert(header_lines[i] == before[i]);
            } else if i > before.len() {
                assert(header_lines[i] == behind[i - before.len() - 1]);
            }
        }
    }
    let rest = with_line_ends(header_lines);
    law_header_lines(header_lines);
    law_upload_request(name, rest);
    law_length_wherever_it_stands(before, line, behind, n);
    // The first line ends where the headers begin.
    let start = "POST /upload?name="@ + component(name);
    let version = " HTTP/1.1\r\n"@.take(9);
    let first = start + version;
    lemma_component(name);
    assert(!first.contains('\n')) by {
        if first.contains('\n') {
            let j = choose|j: int| 0 <= j < first.len() && first[j] == '\n';
            if j < 18 {
                assert("POST /upload?name="@[j] == '\n');
            } else if j < start.len() {
                let c = component(name)[j - 18];
                assert(is_plain(c as u8) || c == '%');
                assert(c == '\n');
            } else {
                assert(" HTTP/1.1\r\n"@[j - start.len()] == '\n');
            }
        }
    }
    law_first_line(first, rest);
    let text = "POST /upload?name="@ + component(name) + " HTTP/1.1\r\n"@ + rest;
    assert(" HTTP/1.1\r\n"@ == version + seq!['\r', '\n']);
    assert(text == first + seq!['\r', '\n'] + rest);
    assert(lines_of(text).skip(1) == header_lines);
}

/// What a method and an address ask for, and nothing else: the page by GET at the two
/// addresses of the page, an upload by POST at every address that begins with "/upload".
pub proof fn law_routes(method: Seq<char>, uri: Seq<char>)
    ensures
        routed(method, uri) is Portal <==> method == "GET"@ && (uri == "/"@ || uri
            == "/index.html"@),
        method == "POST"@ ==> (routed(method, uri) is Upload <==> uri.len() >= 7 && uri.take(7)
            == "/upload"@),
        method != "POST"@ ==> !(routed(method, uri) is Upload),
{
    reveal_strlit("/upload");
    reveal_strlit("GET");
    reveal_strlit("POST");
    assert("POST"@.len() != "GET"@.len());
}

/// What a request asks for follows from the method and the address in its first line,
/// whatever comes behind.
pub proof fn law_requests(method: Seq<char>, uri: Seq<char>, rest: Seq<char>)
    requires
        is_word(method),
        is_word(uri),
    ensures
        ({
            let a = asked(method + seq![' '] + uri + " HTTP/1.1\r\n"@ + rest);
            &&& a is Portal <==> method == "GET"@ && (uri == "/"@ || uri == "/index.html"@)
            &&& a is Upload <==> method == "POST"@ && uri.len() >= 7 && uri.take(7) == "/upload"@
            &&& a is NotFound <==> !(a is Portal) && !(a is Upload)
            &&& a matches Asked::Upload { name, .. } ==> name == uploaded_name(uri)
        }),
{
    law_request_line(method, uri, rest);
    law_routes(method, uri);
    reveal_strlit("GET");
    reveal_strlit("POST");
    assert("POST"@.len() != "GET"@.len());
}

/// A head without a line, or with one word in its first line, asks for nothing.
pub proof fn law_unreadable_requests(word: Seq<char>, rest: Seq<char>)
    requires
        is_word(word),
    ensures
        asked(Seq::empty()) is Nothing,
        asked(word + seq!['\r', '\n'] + rest) is Nothing,
{
    assert(!word.contains('\n')) by {
        if word.contains('\n') {
            let j = choose|j: int| 0 <= j < word.len() && word[j] == '\n';
            assert(!is_space(word[j]));
        }
    }
    law_first_line(word, rest);
    law_first_word(word, Seq::empty());
    assert(word + Seq::<char>::empty() == word);
    assert(words_of(Seq::<char>::empty()).len() == 0);
    let all = lines_of(word + seq!['\r', '\n'] + rest);
    assert(all[0] == word);
}

/// A parameter gives the name just where it is "name" or "filename", an equals sign and a
/// value without another one.
pub proof fn law_name_parameter(key: Seq<char>, value: Seq<char>, more: Seq<char>)
    requires
        !key.contains('='),
        !value.contains('='),
    ensures
        is_name_param(key + seq!['='] + value) <==> key == "name"@ || key == "filename"@,
        split(key + seq!['='] + value, '=') == seq![key, value],
        !is_name_param(key),
        !is_name_param(key + seq!['='] + value + seq!['='] + more),
{
    law_split_whole(key, '=');
    law_split_whole(value, '=');
    law_split_at_separator(key, '=', value);
    let pair = key + seq!['='] + value;
    assert(split(pair, '=') == seq![key, value]);
    law_split_at_separator(pair, '=', more);
    assert(split(more, '=').len() > 0);
    assert(split(pair + seq!['='] + more, '=').len() > 2);
}

/// The name of an upload is that of the first parameter that gives one, wherever it stands
/// behind the question mark; parameters stand between ampersands.
pub proof fn law_name_among_parameters(
    path: Seq<char>,
    before: Seq<char>,
    key: Seq<char>,
    value: Seq<char>,
    behind: Seq<char>,
)
    requires
        !path.contains('?'),
        forall|i: int|
            0 <= i < split(before, '&').len() ==> !is_name_param(#[trigger] split(before, '&')[i]),
        key == "name"@ || key == "filename"@,
        !value.contains('='),
        !value.contains('&'),
    ensures
        ({
            let param = key + seq!['='] + value;
            &&& encoded_name(path + seq!['?'] + param) == Some(value)
            &&& encoded_name(path + seq!['?'] + param + seq!['&'] + behind) == Some(value)
            &&& encoded_name(path + seq!['?'] + before + seq!['&'] + param + seq!['&'] + behind)
                == Some(value)
            &&& encoded_name(path + seq!['?'] + before) is None
            &&& encoded_name(path) is None
        }),
{
    reveal_strlit("name");
    reveal_strlit("filename");
    let param = key + seq!['='] + value;
    let none = Seq::<char>::empty();
    if key.contains('=') {
        let j = choose|j: int| 0 <= j < key.len() && key[j] == '=';
        assert(key[j] == '=');
    }
    law_name_parameter(key, value, none);
    if param.contains('&') {
        let j = choose|j: int| 0 <= j < param.len() && param[j] == '&';
        if j < key.len() {
            assert(key[j] == '&');
        } else {
            assert(value[j - key.len() - 1] == '&');
        }
    }
    law_split_whole(param, '&');
    law_split_at_separator(param, '&', behind);
    let last_two = param + seq!['&'] + behind;
    law_split_at_separator(before, '&', last_two);
    let names = split(before, '&');
    let tail = split(behind, '&');
    lemma_first_name(names, seq![param] + tail);
    lemma_first_name(names, Seq::empty());
    assert(names + Seq::<Seq<char>>::empty() == names);
    assert((seq![param] + tail)[0] == param);
    lemma_query(path, param);
    lemma_query(path, last_two);
    lemma_query(path, before + seq!['&'] + last_two);
    lemma_query(path, before);
    assert(path + seq!['?'] + param + seq!['&'] + behind == path + seq!['?'] + last_two);
    assert(path + seq!['?'] + before + seq!['&'] + param + seq!['&'] + behind == path + seq!['?']
        + (before + seq!['&'] + last_two));
    lemma_first_of(path, '?');
    assert(first_of(path, '?') == path.len()) by {
        if first_of(path, '?') < path.len() {
            assert(path.contains(path[first_of(path, '?') as int]));
        }
    }
}

/// Where no parameter in front gives a name, the search goes on behind them.
proof fn lemma_first_name(before: Seq<Seq<char>>, rest: Seq<Seq<char>>)
    requires
        forall|i: int| 0 <= i < before.len() ==> !is_name_param(#[trigger] before[i]),
    ensures
        first_name(before + rest) == first_name(rest),
    decreases before.len(),
{
    if before.len() == 0 {
        assert(before + rest == rest);
    } else {
        let tail = before.skip(1);
        assert forall|i: int| 0 <= i < tail.len() implies !is_name_param(#[trigger] tail[i]) by {
            assert(tail[i] == before[i + 1]);
        }
        lemma_first_name(tail, rest);
        assert((before + rest)[0] == before[0]);
        assert((before + rest).skip(1) == tail + rest);
    }
}

/// The parameters stand behind the first question mark.
proof fn lemma_query(path: Seq<char>, query: Seq<char>)
    requires
        !path.contains('?'),
    ensures
        encoded_name(path + seq!['?'] + query) == first_name(split(query, '&')),
{
    let uri = path + seq!['?'] + query;
    let n = path.len() as int;
    lemma_first_of(uri, '?');
    assert(uri[n] == '?');
    assert forall|j: int| 0 <= j < n implies uri[j] != '?' by {
        assert(path.contains(path[j]));
        assert(uri[j] == path[j]);
    }
    assert(first_of(uri, '?') == n);
    assert(uri.skip(n + 1) == query);
}

/// The name of an upload is the decoded one; without one it is "uploaded_file".
pub proof fn law_uploaded_name(uri: Seq<char>)
    ensures
        encoded_name(uri) matches Some(value) ==> uploaded_name(uri) == lossy_text(
            percent_decoded(encode_utf8(value)),
        ),
        encoded_name(uri) is None ==> uploaded_name(uri) == "uploaded_file"@,
{
}

/// A decision follows what was asked: an upload that is taken has the announced length,
/// which is not 0, and is saved under a name of its own; one without a length is refused
/// for that, unless it has no name.
pub proof fn law_decisions(r: WebRequest, a: Asked)
    requires
        fits(r, a),
    ensures
        a is Nothing ==> r is Ignored,
        a is Portal ==> r is Portal,
        a is NotFound ==> r is NotFound,
        a is Upload ==> r is InvalidName || r is LengthRequired || r is Upload,
        r matches WebRequest::Upload { name, content_length } ==> (a matches Asked::Upload {
            name: raw,
            content_length: n,
        } && content_length == n && n > 0 && is_saved_as(name, raw)),
        r is LengthRequired ==> (a matches Asked::Upload { content_length, .. } && content_length
            == 0),
        r matches WebRequest::InvalidName { backslash } ==> (a matches Asked::Upload { name, .. }
            && is_refused(name, backslash)),
{
}

/// A run of bytes stands at a position just where it agrees there byte by byte; the first
/// such position is one in front of which there is none.
pub proof fn law_found(haystack: Seq<u8>, needle: Seq<u8>, i: int)
    ensures
        found_at(haystack, needle, i) <==> 0 <= i && i + needle.len() <= haystack.len() && (forall|k: int|
            0 <= k < needle.len() ==> haystack[i + k] == #[trigger] needle[k]),
        first_found(haystack, needle, i) <==> found_at(haystack, needle, i) && forall|j: int|
            0 <= j < i ==> !#[trigger] found_at(haystack, needle, j),
{
    if found_at(haystack, needle, i) {
        let part = haystack.subrange(i, i + needle.len());
        assert forall|k: int| 0 <= k < needle.len() implies haystack[i + k]
            == #[trigger] needle[k] by {
            assert(part[k] == haystack[i + k]);
        }
    }
    if 0 <= i && i + needle.len() <= haystack.len() && (forall|k: int|
        0 <= k < needle.len() ==> haystack[i + k] == #[trigger] needle[k]) {
        assert(haystack.subrange(i, i + needle.len()) == needle);
    }
}

/// The head of a request ends at the first empty line: a carriage return and a line feed,
/// twice.
pub proof fn law_end_of_head(read: Seq<u8>, end: int)
    requires
        first_found(read, head_end(), end),
    ensures
        0 <= end && end + 4 <= read.len(),
        read[end] == 13 && read[end + 1] == 10 && read[end + 2] == 13 && read[end + 3] == 10,
        head_end().len() == 4,
{
    let part = read.subrange(end, end + 4);
    assert(part[0] == 13 && part[1] == 10 && part[2] == 13 && part[3] == 10);
}

/// Of what came with the head the file gets as much as was announced, but no more than
/// came.
pub proof fn law_initial_bytes(body_len: nat, content_length: u64)
    ensures
        body_len <= content_length ==> initial_len(body_len, content_length) == body_len,
        body_len > content_length ==> initial_len(body_len, content_length) == content_length,
{
}

/// What an upload counts is what was written of it.
pub proof fn law_upload_content_is_written(upload: Upload)
    requires
        upload.wf(),
    ensures
        upload.content() == upload.written@,
        upload.received == upload.written@.len(),
        upload.received <= upload.content_length,
{
}

/// The page is sent with its length, and behind an empty line.
pub proof fn law_page()
    ensures
        page_answer()
            == "HTTP/1.1 200 OK\r\nContent-Type: text/html; charset=utf-8\r\nContent-Length: "@
            + decimal(encode_utf8(PORTAL_HTML@).len()) + "\r\nConnection: close\r\n\r\n"@
            + PORTAL_HTML@,
{
}

/// What each decision is answered at once.
pub proof fn law_answer_of(r: WebRequest)
    ensures
        r is Portal ==> answer_text(r) == Some(page_answer()),
        r is NotFound ==> answer_text(r) == Some(
            "HTTP/1.1 404 Not Found\r\nContent-Length: 9\r\nConnection: close\r\n\r\nNot Found"@,
        ),
        r is LengthRequired ==> answer_text(r) == Some(
            "HTTP/1.1 411 Length Required\r\nConnection: close\r\n\r\n"@,
        ),
        r is Ignored || r is InvalidName || r is Upload ==> answer_text(r) is None,
{
}

} // verus!
