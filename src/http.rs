use vstd::prelude::*;
use vstd::string::StrSliceExecFns;
use crate::bytes::push_all;
use crate::error::BootError;

verus! {

/// The firmware HTTP status value that stands for `200 OK`.
pub const HTTP_STATUS_OK: i32 = 3;

/// The chunk count (the first response included) past which the loop stops asking for
/// more data, whatever the declared length.
pub const MAX_CHUNKS: usize = 50;

/// The header name `content-length`, in lower case.
pub open spec fn content_length_name() -> Seq<char> {
    seq!['c', 'o', 'n', 't', 'e', 'n', 't', '-', 'l', 'e', 'n', 'g', 't', 'h']
}

/// `c` is the lower-case ASCII letter or character `lower`, or its upper-case form.
pub open spec fn same_ignoring_ascii_case(c: char, lower: char) -> bool {
    c == lower || ('a' <= lower && lower <= 'z' && c as u32 + 32 == lower as u32)
}

/// `name` is `Content-Length` in any mix of ASCII case.
pub open spec fn is_content_length_name(name: Seq<char>) -> bool {
    &&& name.len() == content_length_name().len()
    &&& forall|i: int|
        0 <= i < name.len() ==> same_ignoring_ascii_case(name[i], #[trigger] content_length_name()[i])
}

/// `c` is an ASCII decimal digit.
pub open spec fn is_digit(c: char) -> bool {
    '0' <= c && c <= '9'
}

/// The value of a sequence of decimal digits.
pub open spec fn digits_value(d: Seq<char>) -> nat
    decreases d.len(),
{
    if d.len() == 0 {
        0
    } else {
        digits_value(d.drop_last()) * 10 + (d.last() as u32 - '0' as u32) as nat
    }
}

/// The digits of a number as `str::parse` reads it: `s` without one leading `+`.
pub open spec fn unsigned_digits(s: Seq<char>) -> Seq<char> {
    if s.len() > 0 && s[0] == '+' {
        s.subrange(1, s.len() as int)
    } else {
        s
    }
}

/// `d` holds only decimal digits.
pub open spec fn all_digits(d: Seq<char>) -> bool {
    forall|i: int| 0 <= i < d.len() ==> is_digit(#[trigger] d[i])
}

/// The number `s` writes in decimal, with an optional leading `+`, when it fits a
/// `usize`.
pub open spec fn parse_usize_spec(s: Seq<char>) -> Option<usize> {
    let d = unsigned_digits(s);
    if d.len() > 0 && all_digits(d) && digits_value(d) <= usize::MAX {
        Some(digits_value(d) as usize)
    } else {
        None
    }
}

/// The declared content length: the value of the last `Content-Length` header whose
/// value is a number.
pub open spec fn content_length_spec(headers: Seq<(String, String)>) -> Option<usize>
    decreases headers.len(),
{
    if headers.len() == 0 {
        None
    } else {
        let h = headers.last();
        if is_content_length_name(h.0@) && parse_usize_spec(h.1@) is Some {
            parse_usize_spec(h.1@)
        } else {
            content_length_spec(headers.drop_last())
        }
    }
}

/// A download in progress, as the chunk loop sees it.
pub struct DownloadView {
    pub body: Seq<u8>,
    pub declared_length: Option<usize>,
    pub chunks: nat,
    pub finished: bool,
}

/// The body bytes a chunk event carries, or the failure that ended the stream.
pub open spec fn chunk_view(chunk: Result<Vec<u8>, BootError>) -> Result<Seq<u8>, BootError> {
    match chunk {
        Ok(d) => Ok(d@),
        Err(e) => Err(e),
    }
}

/// One turn of the chunk loop. A finished download stays as it is. A failure (the
/// end-of-stream signal included) or an empty chunk finishes it. Otherwise the chunk is
/// appended and counted, and the download finishes once the declared length is reached
/// or the count passes the cap.
pub open spec fn chunk_step(s: DownloadView, chunk: Result<Seq<u8>, BootError>) -> DownloadView {
    if s.finished {
        s
    } else {
        match chunk {
            Err(_) => DownloadView { finished: true, ..s },
            Ok(d) => if d.len() == 0 {
                DownloadView { finished: true, ..s }
            } else {
                let body = s.body + d;
                let chunks = s.chunks + 1;
                DownloadView {
                    body,
                    declared_length: s.declared_length,
                    chunks,
                    finished: (s.declared_length matches Some(t) && body.len() >= t) || chunks
                        > MAX_CHUNKS,
                }
            },
        }
    }
}

/// The chunk loop run over `chunks` in order.
pub open spec fn run_chunks(s: DownloadView, chunks: Seq<Result<Seq<u8>, BootError>>) -> DownloadView
    decreases chunks.len(),
{
    if chunks.len() == 0 {
        s
    } else {
        run_chunks(chunk_step(s, chunks[0]), chunks.subrange(1, chunks.len() as int))
    }
}

/// What every reachable download state satisfies: a first chunk counted, and an
/// unfinished download below the cap.
pub open spec fn download_invariant(s: DownloadView) -> bool {
    s.chunks >= 1 && (s.finished || s.chunks <= MAX_CHUNKS)
}

/// The chunk loop keeps its invariant.
pub proof fn lemma_chunk_step_invariant(s: DownloadView, chunk: Result<Seq<u8>, BootError>)
    requires
        download_invariant(s),
    ensures
        download_invariant(chunk_step(s, chunk)),
        chunk_step(s, chunk).chunks <= s.chunks + 1,
{
}

/// However large the declared length, the chunk loop is finished after non-empty chunks
/// bring the count past the cap: from any reachable state, `MAX_CHUNKS + 1 - chunks`
/// more non-empty chunks finish it.
pub proof fn lemma_chunk_cap(s: DownloadView, chunks: Seq<Result<Seq<u8>, BootError>>)
    requires
        download_invariant(s),
        chunks.len() == MAX_CHUNKS + 1 - s.chunks,
        forall|i: int| 0 <= i < chunks.len() ==> (#[trigger] chunks[i] matches Ok(d) && d.len() > 0),
    ensures
        run_chunks(s, chunks).finished,
    decreases chunks.len(),
{
    if s.finished {
        lemma_finished_stays(s, chunks);
    } else {
        let next = chunk_step(s, chunks[0]);
        let rest = chunks.subrange(1, chunks.len() as int);
        if next.finished {
            lemma_finished_stays(next, rest);
        } else {
            assert forall|i: int| 0 <= i < rest.len() implies (#[trigger] rest[i] matches Ok(d) && d.len() > 0) by {
                assert(rest[i] == chunks[i + 1]);
            }
            lemma_chunk_cap(next, rest);
        }
    }
}

/// A finished download ignores every later chunk.
pub proof fn lemma_finished_stays(s: DownloadView, chunks: Seq<Result<Seq<u8>, BootError>>)
    requires
        s.finished,
    ensures
        run_chunks(s, chunks) == s,
    decreases chunks.len(),
{
    if chunks.len() > 0 {
        lemma_finished_stays(s, chunks.subrange(1, chunks.len() as int));
    }
}

/// A completed download.
#[derive(Debug)]
pub struct DownloadResult {
    /// The whole body received.
    pub body: Vec<u8>,
    /// The length the response declared, if it declared one.
    pub declared_length: Option<usize>,
    /// How many body chunks arrived, the first response included.
    pub chunks: usize,
    /// The body is shorter than the declared length; returned all the same.
    pub incomplete: bool,
}

/// The state of one HTTP GET whose body arrives in chunks.
pub struct Download {
    body: Vec<u8>,
    declared_length: Option<usize>,
    chunks: usize,
    finished: bool,
}

impl View for Download {
    type V = DownloadView;

    closed spec fn view(&self) -> DownloadView {
        DownloadView {
            body: self.body@,
            declared_length: self.declared_length,
            chunks: self.chunks as nat,
            finished: self.finished,
        }
    }
}

/// `name` is `Content-Length` in any mix of ASCII case.
pub fn is_content_length_header(name: &str) -> (r: bool)
    ensures
        r == is_content_length_name(name@),
{
    proof {
        reveal_strlit("content-length");
    }
    let target = "content-length";
    assert(target@ =~= content_length_name());
    let n = name.unicode_len();
    if n != 14 {
        return false;
    }
    let mut i: usize = 0;
    while i < n
        invariant
            n == name@.len(),
            n == content_length_name().len(),
            target@ == content_length_name(),
            i <= n,
            forall|k: int|
                0 <= k < i ==> same_ignoring_ascii_case(name@[k], #[trigger] content_length_name()[k]),
        decreases n - i,
    {
        let c = name.get_char(i);
        let t = target.get_char(i);
        if !(c == t || ('a' <= t && t <= 'z' && c as u32 + 32 == t as u32)) {
            return false;
        }
        i = i + 1;
    }
    true
}

proof fn lemma_digits_prefix(d: Seq<char>, k: int)
    requires
        0 <= k <= d.len(),
        forall|i: int| 0 <= i < d.len() ==> is_digit(#[trigger] d[i]),
    ensures
        digits_value(d.subrange(0, k)) <= digits_value(d),
    decreases d.len(),
{
    if k < d.len() {
        let p = d.drop_last();
        assert(p.subrange(0, k) =~= d.subrange(0, k));
        lemma_digits_prefix(p, k);
    } else {
        assert(d.subrange(0, k) =~= d);
    }
}

/// Reads a decimal `usize` as `str::parse` does: an optional `+`, then one or more
/// digits, and a value that fits.
pub fn parse_usize(s: &str) -> (r: Option<usize>)
    ensures
        r == parse_usize_spec(s@),
{
    let n = s.unicode_len();
    let mut start: usize = 0;
    if n > 0 && s.get_char(0) == '+' {
        start = 1;
    }
    let ghost d = unsigned_digits(s@);
    assert(d =~= s@.subrange(start as int, n as int));
    if start == n {
        return None;
    }
    let mut value: usize = 0;
    let mut i: usize = start;
    while i < n
        invariant
            n == s@.len(),
            start <= i <= n,
            d == s@.subrange(start as int, n as int),
            d == unsigned_digits(s@),
            value as nat == digits_value(d.subrange(0, i - start)),
            forall|k: int| 0 <= k < i - start ==> is_digit(#[trigger] d[k]),
        decreases n - i,
    {
        let c = s.get_char(i);
        if !('0' <= c && c <= '9') {
            assert(!is_digit(d[i - start]));
            assert(!all_digits(d));
            return None;
        }
        let digit = (c as u32 - '0' as u32) as usize;
        let ghost prefix = d.subrange(0, i - start + 1);
        assert(prefix.drop_last() =~= d.subrange(0, i - start));
        assert(prefix.last() == c);
        match value.checked_mul(10) {
            None => {
                proof {
                    assert(digits_value(prefix) == value * 10 + digit);
                    if all_digits(d) {
                        lemma_digits_prefix(d, i - start + 1);
                    }
                }
                return None;
            },
            Some(v) => match v.checked_add(digit) {
                None => {
                    proof {
                        assert(digits_value(prefix) == value * 10 + digit);
                        if all_digits(d) {
                            lemma_digits_prefix(d, i - start + 1);
                        }
                    }
                    return None;
                },
                Some(v2) => {
                    value = v2;
                },
            },
        }
        i = i + 1;
    }
    assert(d.subrange(0, n - start) =~= d);
    Some(value)
}

/// The declared content length: the value of the last `Content-Length` header whose
/// value is a number.
pub fn content_length(headers: &Vec<(String, String)>) -> (r: Option<usize>)
    ensures
        r == content_length_spec(headers@),
{
    let mut found: Option<usize> = None;
    let mut i: usize = 0;
    while i < headers.len()
        invariant
            i <= headers@.len(),
            found == content_length_spec(headers@.subrange(0, i as int)),
        decreases headers@.len() - i,
    {
        let ghost next = headers@.subrange(0, i + 1);
        assert(next.drop_last() =~= headers@.subrange(0, i as int));
        assert(next.last() == headers@[i as int]);
        if is_content_length_header(headers[i].0.as_str()) {
            let v = parse_usize(headers[i].1.as_str());
            if v.is_some() {
                found = v;
            }
        }
        i = i + 1;
    }
    assert(headers@.subrange(0, headers@.len() as int) =~= headers@);
    found
}

impl Download {
    #[verifier::type_invariant]
    spec fn well_formed(self) -> bool {
        self.chunks >= 1 && (self.finished || self.chunks <= MAX_CHUNKS)
    }

    /// Starts a download from the first response: refused unless its status is
    /// `200 OK`; otherwise its body is the first chunk and its headers give the declared
    /// length.
    pub fn start(status: i32, headers: &Vec<(String, String)>, first_body: Vec<u8>) -> (r: Result<
        Download,
        BootError,
    >)
        ensures
            status != HTTP_STATUS_OK ==> r == Err::<Download, BootError>(BootError::ProtocolError),
            status == HTTP_STATUS_OK ==> (r matches Ok(d) && d@ == DownloadView {
                body: first_body@,
                declared_length: content_length_spec(headers@),
                chunks: 1,
                finished: false,
            }),
    {
        if status != HTTP_STATUS_OK {
            return Err(BootError::ProtocolError);
        }
        let declared_length = content_length(headers);
        Ok(Download { body: first_body, declared_length, chunks: 1, finished: false })
    }

    /// Takes the outcome of one request for more body data.
    pub fn on_chunk(&mut self, chunk: Result<Vec<u8>, BootError>)
        ensures
            final(self)@ == chunk_step(old(self)@, chunk_view(chunk)),
    {
        proof {
            use_type_invariant(&*self);
        }
        if self.finished {
            return;
        }
        match chunk {
            Err(_) => {
                self.finished = true;
            },
            Ok(d) => {
                if d.len() == 0 {
                    self.finished = true;
                } else {
                    let mut taken = Download {
                        body: Vec::new(),
                        declared_length: None,
                        chunks: 1,
                        finished: true,
                    };
                    std::mem::swap(self, &mut taken);
                    let Download { mut body, declared_length, chunks, finished } = taken;
                    push_all(&mut body, d.as_slice());
                    let chunks = chunks + 1;
                    let reached = match declared_length {
                        Some(t) => body.len() >= t,
                        None => false,
                    };
                    let finished = reached || chunks > MAX_CHUNKS;
                    *self = Download { body, declared_length, chunks, finished };
                }
            },
        }
    }

    /// The loop is over: ask for no more data.
    pub fn is_finished(&self) -> (r: bool)
        ensures
            r == self@.finished,
    {
        self.finished
    }

    /// The body received so far.
    pub fn body(&self) -> (r: &Vec<u8>)
        ensures
            r@ == self@.body,
    {
        &self.body
    }

    /// The number of chunks received so far, the first response included.
    pub fn chunk_count(&self) -> (r: usize)
        ensures
            r == self@.chunks,
    {
        self.chunks
    }

    /// Ends the download: an empty body is `NoResponse`; a body shorter than the declared
    /// length is returned, marked incomplete.
    pub fn finish(self) -> (r: Result<DownloadResult, BootError>)
        ensures
            self@.body.len() == 0 ==> r == Err::<DownloadResult, BootError>(BootError::NoResponse),
            self@.body.len() > 0 ==> (r matches Ok(res) && res.body@ == self@.body
                && res.declared_length == self@.declared_length && res.chunks == self@.chunks
                && res.incomplete == (self@.declared_length matches Some(t) && self@.body.len()
                < t)),
    {
        if self.body.len() == 0 {
            return Err(BootError::NoResponse);
        }
        let incomplete = match self.declared_length {
            Some(t) => self.body.len() < t,
            None => false,
        };
        Ok(DownloadResult {
            body: self.body,
            declared_length: self.declared_length,
            chunks: self.chunks,
            incomplete,
        })
    }
}

} // verus!
