//! Requests to a provider: addresses, retries and bounded bodies.

use vstd::prelude::*;
use crate::text;
use crate::url;

verus! {

/// How often a connection is attempted at most.
pub const MAX_CONNECT_ATTEMPTS: usize = 6;

/// The pause after the first failed attempt, in milliseconds.
pub const INITIAL_CONNECT_RETRY_DELAY_MS: u64 = 25;

/// The pause after the given attempt: it doubles with each one.
pub open spec fn pause_after(attempt: nat) -> nat
    decreases attempt,
{
    if attempt <= 1 {
        INITIAL_CONNECT_RETRY_DELAY_MS as nat
    } else {
        2 * pause_after((attempt - 1) as nat)
    }
}

/// The attempts to connect so far.
#[derive(Debug)]
pub struct ConnectAttempts {
    attempt: usize,
    delay_ms: u64,
}

impl ConnectAttempts {
    /// The attempt under way, and the pause that would follow it.
    pub closed spec fn wf(self) -> bool {
        &&& 1 <= self.attempt <= MAX_CONNECT_ATTEMPTS
        &&& self.delay_ms == pause_after(self.attempt as nat)
    }

    /// The number of the attempt under way.
    pub closed spec fn current(self) -> nat {
        self.attempt as nat
    }

    /// The first attempt.
    pub fn first() -> (r: ConnectAttempts)
        ensures
            r.wf(),
            r.current() == 1,
    {
        ConnectAttempts { attempt: 1, delay_ms: INITIAL_CONNECT_RETRY_DELAY_MS }
    }

    /// The number of the attempt under way.
    pub fn number(&self) -> (n: usize)
        requires
            self.wf(),
        ensures
            n == self.current(),
            1 <= n <= MAX_CONNECT_ATTEMPTS,
    {
        self.attempt
    }

    /// What follows a failed attempt: the pause in milliseconds before the next
    /// attempt, or nothing where the failure stands. Only a failure to connect is
    /// tried again.
    pub fn after_failure(&mut self, connect_failure: bool) -> (pause: Option<u64>)
        requires
            old(self).wf(),
        ensures
            final(self).wf(),
            match pause {
                Some(ms) => {
                    &&& connect_failure
                    &&& old(self).current() < MAX_CONNECT_ATTEMPTS
                    &&& ms == pause_after(old(self).current())
                    &&& final(self).current() == old(self).current() + 1
                },
                None => {
                    &&& !connect_failure || old(self).current() >= MAX_CONNECT_ATTEMPTS
                    &&& *final(self) == *old(self)
                },
            },
    {
        if connect_failure && self.attempt < MAX_CONNECT_ATTEMPTS {
            let pause: u64 = self.delay_ms;
            proof {
                reveal_with_fuel(pause_after, 7);
                assert(self.delay_ms <= 800);
            }
            self.attempt = self.attempt + 1;
            self.delay_ms = self.delay_ms * 2;
            Some(pause)
        } else {
            None
        }
    }
}

/// What is said of a request for a document that failed.
pub open spec fn request_failure(address: Seq<char>, attempt: nat) -> Seq<char> {
    if attempt == 1 {
        "request failed for "@ + address
    } else {
        "request failed for "@ + address + " after "@ + text::numeral(attempt) + " attempts"@
    }
}

/// What is said of a request for a document that failed.
pub fn request_failure_text(address: &str, attempt: usize) -> (m: String)
    ensures
        m@ == request_failure(address@, attempt as nat),
{
    let mut m = text::cat("request failed for ", address);
    if attempt != 1 {
        m.append(" after ");
        m.append(text::decimal(attempt as u64).as_str());
        m.append(" attempts");
    }
    m
}

/// What is said of a request for a resource that failed.
pub fn binary_failure_text(address: &str, attempt: usize) -> (m: String)
    ensures
        m@ == "binary request failed for "@ + address@ + " after "@ + text::numeral(
            attempt as nat,
        ) + " attempts"@,
{
    let mut m = text::cat("binary request failed for ", address);
    m.append(" after ");
    m.append(text::decimal(attempt as u64).as_str());
    m.append(" attempts");
    m
}

/// The address of a document below the base, with the query appended, or what is told
/// where there is no such address.
pub open spec fn document_address(
    base: Seq<char>,
    path: Seq<char>,
    query: Seq<(Seq<char>, Seq<char>)>,
) -> Result<Seq<char>, Seq<char>> {
    if query.len() > 0 {
        url::queried(base, path, query)
    } else {
        url::resolved(base, path)
    }
}

/// What is told where a document has no address.
pub open spec fn address_fault(path: Seq<char>, error: Seq<char>) -> Seq<char> {
    text::in_context("failed to build URL for "@ + path, error)
}

fn address_fault_text(path: &str, error: &str) -> (m: String)
    ensures
        m@ == address_fault(path@, error@),
{
    text::with_context(text::cat("failed to build URL for ", path).as_str(), error)
}

/// The address of a document below the base.
pub fn url_for(base_url: &str, path: &str, query: &Vec<(String, String)>) -> (r: Result<
    String,
    String,
>)
    ensures
        match document_address(base_url@, path@, url::pairs(query@)) {
            Ok(address) => r matches Ok(a) && a@ == address,
            Err(error) => r matches Err(m) && m@ == address_fault(path@, error),
        },
{
    let built = if query.len() > 0 {
        url::resolve_with_query(base_url, path, query)
    } else {
        url::resolve(base_url, path)
    };
    match built {
        Ok(address) => Ok(address),
        Err(error) => Err(address_fault_text(path, error.as_str())),
    }
}

/// The media type that a header names, in lower case and without parameters.
pub open spec fn media_type(header: Option<Seq<char>>) -> Seq<char> {
    match header {
        None => "application/octet-stream"@,
        Some(h) => {
            let t = text::trimmed(text::pieces(h, ';')[0]);
            if t.len() == 0 {
                "application/octet-stream"@
            } else {
                text::lower(t)
            }
        },
    }
}

/// The media type that a header names.
pub fn content_type_of(header: Option<&str>) -> (r: String)
    ensures
        r@ == media_type(text::opt_str(header)),
{
    match header {
        None => "application/octet-stream".to_owned(),
        Some(h) => {
            let parts = text::split(h, ';');
            proof {
                text::pieces_are_some(h@, ';');
                assert(text::texts(parts@)[0] == parts@[0]@);
            }
            let t = text::trim(parts[0].as_str());
            if t.is_empty() {
                "application/octet-stream".to_owned()
            } else {
                text::to_lower(t)
            }
        },
    }
}

/// What is said of a body over its limit.
pub open spec fn too_large(address: Seq<char>, max_bytes: usize) -> Seq<char> {
    "binary response from "@ + address + " exceeds "@ + text::numeral(max_bytes as nat)
        + " bytes"@
}

fn too_large_text(address: &str, max_bytes: usize) -> (m: String)
    ensures
        m@ == too_large(address@, max_bytes),
{
    let mut m = text::cat("binary response from ", address);
    m.append(" exceeds ");
    m.append(text::decimal(max_bytes as u64).as_str());
    m.append(" bytes");
    m
}

/// A body that is received piece by piece and never grows over its limit.
#[derive(Debug)]
pub struct BoundedBody {
    bytes: Vec<u8>,
    max_bytes: usize,
}

impl View for BoundedBody {
    type V = Seq<u8>;

    closed spec fn view(&self) -> Seq<u8> {
        self.bytes@
    }
}

impl BoundedBody {
    /// The limit.
    pub closed spec fn limit(self) -> usize {
        self.max_bytes
    }

    /// The body is within its limit, which is not zero.
    pub closed spec fn wf(self) -> bool {
        0 < self.max_bytes && self.bytes@.len() <= self.max_bytes
    }

    /// What every body has: a limit above zero that its length does not exceed.
    pub proof fn within_limit(self)
        requires
            self.wf(),
        ensures
            self@.len() <= self.limit(),
            0 < self.limit(),
    {
    }

    /// Checks the limit before a request is made.
    pub fn check_limit(max_bytes: usize) -> (r: Result<(), String>)
        ensures
            match r {
                Ok(_) => max_bytes > 0,
                Err(m) => max_bytes == 0 && m@
                    == "binary response limit must be greater than zero"@,
            },
    {
        if max_bytes == 0 {
            Err("binary response limit must be greater than zero".to_owned())
        } else {
            Ok(())
        }
    }

    /// An empty body, unless the response declares a length over the limit.
    pub fn start(address: &str, declared: Option<u64>, max_bytes: usize) -> (r: Result<
        BoundedBody,
        String,
    >)
        requires
            max_bytes > 0,
        ensures
            match r {
                Ok(b) => {
                    &&& b.wf()
                    &&& b.limit() == max_bytes
                    &&& b@ == Seq::<u8>::empty()
                    &&& declared matches Some(n) ==> n <= max_bytes
                },
                Err(m) => {
                    &&& declared matches Some(n)
                    &&& n > max_bytes
                    &&& m@ == too_large(address@, max_bytes)
                },
            },
    {
        match declared {
            Some(n) => {
                if n > max_bytes as u64 {
                    return Err(too_large_text(address, max_bytes));
                }
            },
            None => {},
        }
        Ok(BoundedBody { bytes: Vec::new(), max_bytes })
    }

    /// Appends a piece, unless the body would grow over its limit.
    pub fn push(&mut self, address: &str, piece: &Vec<u8>) -> (r: Result<(), String>)
        requires
            old(self).wf(),
        ensures
            final(self).wf(),
            final(self).limit() == old(self).limit(),
            match r {
                Ok(_) => {
                    &&& old(self)@.len() + piece@.len() <= old(self).limit()
                    &&& final(self)@ == old(self)@ + piece@
                },
                Err(m) => {
                    &&& old(self)@.len() + piece@.len() > old(self).limit()
                    &&& final(self)@ == old(self)@
                    &&& m@ == if old(self)@.len() + piece@.len() > usize::MAX {
                        "binary response size overflow"@
                    } else {
                        too_large(address@, old(self).limit())
                    }
                },
            },
    {
        let next_len = match self.bytes.len().checked_add(piece.len()) {
            Some(n) => n,
            None => {
                return Err("binary response size overflow".to_owned());
            },
        };
        if next_len > self.max_bytes {
            return Err(too_large_text(address, self.max_bytes));
        }
        let mut i: usize = 0;
        let ghost before = self.bytes@;
        while i < piece.len()
            invariant
                i <= piece@.len(),
                before.len() + piece@.len() <= self.max_bytes,
                self.max_bytes == old(self).max_bytes,
                self.bytes@ == before + piece@.take(i as int),
            decreases piece@.len() - i,
        {
            self.bytes.push(piece[i]);
            i = i + 1;
            assert(self.bytes@ =~= before + piece@.take(i as int));
        }
        assert(piece@.take(piece@.len() as int) =~= piece@);
        Ok(())
    }

    /// The bytes received.
    pub fn finish(self) -> (r: Vec<u8>)
        ensures
            r@ == self@,
    {
        self.bytes
    }
}

/// The pauses between the attempts to connect start with 25 milliseconds and double.
pub proof fn pauses_double(attempt: nat)
    requires
        attempt >= 1,
    ensures
        pause_after(1) == 25,
        pause_after(attempt + 1) == 2 * pause_after(attempt),
        MAX_CONNECT_ATTEMPTS == 6,
{
}

/// A failure tells the address, and how often it was tried where that was not once.
pub proof fn failures_tell_the_attempts(address: Seq<char>, attempt: nat)
    ensures
        request_failure(address, 1) == "request failed for "@ + address,
        attempt != 1 ==> request_failure(address, attempt) == "request failed for "@ + address
            + " after "@ + text::numeral(attempt) + " attempts"@,
{
}

/// The media type of a header stands before the first semicolon, in lower case and without
/// white space around it. Where there is none the bytes are of no particular type.
pub proof fn media_types_stand_before_parameters(t: Seq<char>, parameters: Seq<char>)
    requires
        !t.contains(';'),
    ensures
        media_type(None) == "application/octet-stream"@,
        text::blank(t) ==> media_type(Some(t)) == "application/octet-stream"@,
        !text::blank(t) ==> media_type(Some(t)) == text::lower(text::trimmed(t)),
        media_type(Some(t + ";"@ + parameters)) == media_type(Some(t)),
{
    text::first_piece_ends_at_the_separator(t, ';', parameters);
    reveal_strlit(";");
    assert(";"@ =~= seq![';']);
}

/// A document without a query is found by its path below the base; the query is added where
/// there is one.
pub proof fn queries_are_added_where_there_are_any(
    base: Seq<char>,
    path: Seq<char>,
    query: Seq<(Seq<char>, Seq<char>)>,
)
    ensures
        query.len() == 0 ==> document_address(base, path, query) == url::resolved(base, path),
        query.len() > 0 ==> document_address(base, path, query) == url::queried(base, path, query),
{
}

/// A body over its limit and a document without an address are told as such.
pub proof fn refused_documents_are_told(
    address: Seq<char>,
    max_bytes: usize,
    path: Seq<char>,
    error: Seq<char>,
)
    ensures
        too_large(address, max_bytes) == "binary response from "@ + address + " exceeds "@
            + text::numeral(max_bytes as nat) + " bytes"@,
        address_fault(path, error) == "failed to build URL for "@ + path + ": "@ + error,
{
}

} // verus!
