//! The boundary bridge: the connection-level state and decisions behind the
//! entry points a host caller uses to run statements and queries.
//!
//! A [`Connection`] here is the host-facing side of one open database
//! connection. It records the most recent failure as a chain of messages;
//! the chain is flattened into one numbered, human-readable message only when
//! the host explicitly asks for it, and is consumed by that request. Query
//! payloads arrive as JSON bytes holding a statement and its positional
//! parameters; parsing them — and recording a diagnostic when they are
//! malformed — happens here, while running the statement against the engine
//! and walking its rows is left to the embedding.

use vstd::prelude::*;
use vstd::string::StrSliceExecFns;
use vstd::string::StringExecFns;

verus! {

/// The JSON value type of the serialization library, carried through this
/// module opaquely: the bridge hands parameter values to the engine as they
/// arrived, without reading them.
#[verifier::external_type_specification]
#[verifier::external_body]
pub struct ExJsonValue(serde_json::Value);

/// A parsed query payload: the statement text and its positional parameters,
/// the latter passed to the engine exactly as they arrived.
pub struct QueryEnvelope {
    pub sql: String,
    pub params: Vec<serde_json::Value>,
}

/// Whether the bytes are a well-formed query payload: valid JSON holding an
/// object with the statement text as a string under `sql` and an array under
/// `params`. The serialization library decides; its verdict depends on the
/// bytes alone.
pub uninterp spec fn envelope_wf(bytes: Seq<u8>) -> bool;

/// The statement text a well-formed query payload carries under `sql`.
pub uninterp spec fn sql_of(bytes: Seq<u8>) -> Seq<char>;

/// How many positional parameters a well-formed query payload carries under
/// `params`.
pub uninterp spec fn params_len_of(bytes: Seq<u8>) -> int;

/// Parse the byte payload into a query envelope.
///
/// Relies on `serde_json::from_slice::<Value>` and on `Value::get`,
/// `Value::as_str` and `Value::as_array`: together they accept exactly the
/// payloads of [`envelope_wf`], and on those hand out the `sql` text and the
/// `params` elements. On bytes that are not valid JSON the error carries the
/// parser's own message; on valid JSON of the wrong shape it carries nothing,
/// and the caller words the diagnostic. The body makes those calls and moves
/// the borrowed results into owned values, nothing else.
#[verifier::external_body]
fn parse_envelope(bytes: &[u8]) -> (r: Result<QueryEnvelope, Option<String>>)
    ensures
        r is Ok <==> envelope_wf(bytes@),
        r is Ok ==> r.unwrap().sql@ == sql_of(bytes@) && r.unwrap().params@.len() == params_len_of(
            bytes@,
        ),
{
    let v: serde_json::Value = match serde_json::from_slice(bytes) {
        Ok(v) => v,
        Err(e) => return Err(Some(e.to_string())),
    };
    let sql = match v.get("sql").and_then(serde_json::Value::as_str) {
        Some(s) => s.to_owned(),
        None => return Err(None),
    };
    match v.get("params").and_then(serde_json::Value::as_array) {
        Some(p) => Ok(QueryEnvelope { sql, params: p.clone() }),
        None => Err(None),
    }
}

/// The views of a chain of error messages.
pub open spec fn msgs_of(chain: Seq<String>) -> Seq<Seq<char>> {
    Seq::new(chain.len(), |i: int| chain[i]@)
}

/// The decimal digit characters of `n`, most significant first.
pub open spec fn dec_digits(n: nat) -> Seq<char>
    decreases n,
{
    if n < 10 {
        seq![digit_char(n)]
    } else {
        dec_digits(n / 10) + seq![digit_char(n % 10)]
    }
}

/// The character of one decimal digit.
pub open spec fn digit_char(n: nat) -> char {
    if n == 0 {
        '0'
    } else if n == 1 {
        '1'
    } else if n == 2 {
        '2'
    } else if n == 3 {
        '3'
    } else if n == 4 {
        '4'
    } else if n == 5 {
        '5'
    } else if n == 6 {
        '6'
    } else if n == 7 {
        '7'
    } else if n == 8 {
        '8'
    } else {
        '9'
    }
}

/// `s`, left-padded with spaces to at least `width` characters.
pub open spec fn pad_left(s: Seq<char>, width: int) -> Seq<char> {
    if s.len() >= width {
        s
    } else {
        Seq::new((width - s.len()) as nat, |i: int| ' ') + s
    }
}

/// The numbered lines for the causes `chain[1], ..., chain[k-1]`: each cause
/// is numbered from zero, its number right-aligned to four characters, and
/// causes after the first stand on lines of their own.
pub open spec fn causes_upto(chain: Seq<Seq<char>>, k: int) -> Seq<char>
    decreases k,
{
    if k <= 1 {
        Seq::<char>::empty()
    } else {
        causes_upto(chain, k - 1) + (if k - 1 > 1 {
            "\n"@
        } else {
            Seq::<char>::empty()
        }) + pad_left(dec_digits((k - 2) as nat), 4) + ": "@ + chain[k - 1]
    }
}

/// The one message a recorded error chain is flattened into: the first
/// message, and — when the failure had causes — a numbered list of them.
pub open spec fn flattened_message(chain: Seq<Seq<char>>) -> Seq<char> {
    if chain.len() <= 1 {
        chain[0]
    } else {
        chain[0] + "\n\nCaused by:\n"@ + causes_upto(chain, chain.len() as int)
    }
}

/// The host-facing side of one open connection: the last failure, kept as a
/// chain of messages (the failure itself first, its causes after it) until
/// the host asks for it.
pub struct Connection {
    last_error: Option<Vec<String>>,
}

impl View for Connection {
    type V = Option<Seq<Seq<char>>>;

    closed spec fn view(&self) -> Option<Seq<Seq<char>>> {
        match self.last_error {
            Option::None => Option::None,
            Option::Some(v) => Option::Some(msgs_of(v@)),
        }
    }
}

impl Connection {
    /// A recorded error chain always holds at least the failure's own
    /// message.
    pub open spec fn wf(&self) -> bool {
        self@ is Some ==> self@.unwrap().len() >= 1
    }

    /// A fresh connection with no failure recorded.
    pub fn new() -> (r: Connection)
        ensures
            r@ is None,
            r.wf(),
    {
        Connection { last_error: None }
    }

    /// Record a failure: the chain replaces whatever was recorded before.
    pub fn record_failure(&mut self, chain: Vec<String>)
        requires
            chain@.len() >= 1,
        ensures
            final(self)@ == Some(msgs_of(chain@)),
            final(self).wf(),
    {
        self.last_error = Some(chain);
    }

    /// Parse a query payload: JSON bytes holding an object with the statement
    /// under `sql` and an array of positional parameters under `params`.
    /// Exactly the well-formed payloads yield an envelope, with the statement
    /// text and the parameter count the payload carries, and leave the
    /// recorded error untouched; on any malformed payload nothing is returned
    /// and a one-message diagnostic is recorded.
    pub fn parse_payload(&mut self, bytes: &[u8]) -> (r: Option<QueryEnvelope>)
        requires
            old(self).wf(),
        ensures
            final(self).wf(),
            r is Some <==> envelope_wf(bytes@),
            r is Some ==> final(self)@ == old(self)@ && r.unwrap().sql@ == sql_of(bytes@)
                && r.unwrap().params@.len() == params_len_of(bytes@),
            r is None ==> final(self)@ is Some && final(self)@.unwrap().len() == 1
                && final(self)@.unwrap()[0].len() > 0,
    {
        match parse_envelope(bytes) {
            Ok(envelope) => Some(envelope),
            Err(detail) => {
                let message = match detail {
                    Some(m) => m,
                    None => String::from_str(
                        "expected a JSON object with a string `sql` and an array `params`",
                    ),
                };
                self.record_malformed(message);
                None
            },
        }
    }

    /// Record a one-message diagnostic for a malformed payload.
    fn record_malformed(&mut self, detail: String)
        ensures
            final(self)@ is Some && final(self)@.unwrap().len() == 1
                && final(self)@.unwrap()[0].len() > 0,
            final(self).wf(),
    {
        let mut message = String::from_str("malformed query payload: ");
        proof {
            reveal_strlit("malformed query payload: ");
        }
        message.append(detail.as_str());
        let chain = vec![message];
        proof {
            assert(msgs_of(chain@).len() == 1);
        }
        self.last_error = Some(chain);
    }

    /// Decide the boundary result of an execute call: the engine either
    /// accepted the statement (result one, recorded error untouched) or
    /// rejected it with a chain of messages (result zero, chain recorded).
    pub fn execute_outcome(&mut self, engine_error: Option<Vec<String>>) -> (r: i32)
        requires
            old(self).wf(),
            engine_error is Some ==> engine_error.unwrap()@.len() >= 1,
        ensures
            final(self).wf(),
            engine_error is None ==> r == 1 && final(self)@ == old(self)@,
            engine_error is Some ==> r == 0 && final(self)@ == Some(
                msgs_of(engine_error.unwrap()@),
            ),
    {
        match engine_error {
            None => 1,
            Some(chain) => {
                self.record_failure(chain);
                0
            },
        }
    }

    /// Hand the recorded failure to the host, flattened into one message, and
    /// consume it: a second call without a failure in between returns
    /// nothing.
    pub fn take_last_error(&mut self) -> (r: Option<String>)
        requires
            old(self).wf(),
        ensures
            final(self)@ is None,
            final(self).wf(),
            r is Some <==> old(self)@ is Some,
            r is Some ==> r.unwrap()@ == flattened_message(old(self)@.unwrap()),
    {
        let chain = self.last_error.take();
        match chain {
            Some(msgs) => Some(flatten_chain(&msgs)),
            None => None,
        }
    }
}

/// Flatten an error chain into the one message the host sees: the failure's
/// own message first, then, if it had causes, a numbered list of them.
fn flatten_chain(chain: &Vec<String>) -> (r: String)
    requires
        chain@.len() >= 1,
    ensures
        r@ == flattened_message(msgs_of(chain@)),
{
    let ghost msgs = msgs_of(chain@);
    let mut message = chain[0].clone();
    if chain.len() > 1 {
        message.append("\n\nCaused by:\n");
        let mut j: usize = 1;
        proof {
            assert(message@ =~= msgs[0] + "\n\nCaused by:\n"@ + causes_upto(msgs, 1));
        }
        while j < chain.len()
            invariant
                chain@.len() >= 2,
                1 <= j <= chain@.len(),
                msgs == msgs_of(chain@),
                message@ == msgs[0] + "\n\nCaused by:\n"@ + causes_upto(msgs, j as int),
            decreases chain@.len() - j,
        {
            if j > 1 {
                message.append("\n");
            }
            let num = pad4(usize_to_dec(j - 1));
            message.append(num.as_str());
            message.append(": ");
            message.append(chain[j].as_str());
            proof {
                assert(message@ =~= msgs[0] + "\n\nCaused by:\n"@ + causes_upto(
                    msgs,
                    j as int + 1,
                ));
            }
            j = j + 1;
        }
    }
    message
}

/// The decimal text of `n`.
fn usize_to_dec(n: usize) -> (r: String)
    ensures
        r@ == dec_digits(n as nat),
    decreases n,
{
    if n < 10 {
        digit_str(n)
    } else {
        let mut s = usize_to_dec(n / 10);
        let d = digit_str(n % 10);
        s.append(d.as_str());
        s
    }
}

/// The one-character text of a decimal digit.
fn digit_str(n: usize) -> (r: String)
    requires
        n < 10,
    ensures
        r@ == seq![digit_char(n as nat)],
{
    let s = match n {
        0 => String::from_str("0"),
        1 => String::from_str("1"),
        2 => String::from_str("2"),
        3 => String::from_str("3"),
        4 => String::from_str("4"),
        5 => String::from_str("5"),
        6 => String::from_str("6"),
        7 => String::from_str("7"),
        8 => String::from_str("8"),
        _ => String::from_str("9"),
    };
    proof {
        reveal_strlit("0");
        reveal_strlit("1");
        reveal_strlit("2");
        reveal_strlit("3");
        reveal_strlit("4");
        reveal_strlit("5");
        reveal_strlit("6");
        reveal_strlit("7");
        reveal_strlit("8");
        reveal_strlit("9");
        assert(s@ =~= seq![digit_char(n as nat)]);
    }
    s
}

/// `s`, left-padded with spaces to at least four characters.
fn pad4(s: String) -> (r: String)
    ensures
        r@ == pad_left(s@, 4),
{
    let n = s.as_str().unicode_len();
    if n >= 4 {
        return s;
    }
    proof {
        reveal_strlit(" ");
    }
    let mut r = String::new();
    let mut k: usize = 0;
    while k < 4 - n
        invariant
            n == s@.len() < 4,
            k <= 4 - n,
            r@.len() == k,
            forall|i: int| 0 <= i < k ==> r@[i] == ' ',
        decreases 4 - n - k,
    {
        r.append(" ");
        proof {
            reveal_strlit(" ");
        }
        k = k + 1;
    }
    r.append(s.as_str());
    proof {
        assert(r@ =~= pad_left(s@, 4));
    }
    r
}

/// An owned result buffer whose contents cross the host boundary: the JSON
/// text of a query's rows. Ownership passes to the caller, who must release
/// it exactly once; consuming it here is that single release.
pub struct JsonString {
    text: String,
}

impl View for JsonString {
    type V = Seq<char>;

    closed spec fn view(&self) -> Seq<char> {
        self.text@
    }
}

impl JsonString {
    /// Wrap the JSON text of a result set for the handoff to the host.
    pub fn new(json: String) -> (r: JsonString)
        ensures
            r@ == json@,
    {
        JsonString { text: json }
    }

    /// Give up ownership of the buffer: the single consuming release. The raw
    /// text belongs to the caller afterwards.
    pub fn into_raw(self) -> (r: String)
        ensures
            r@ == self@,
    {
        self.text
    }
}

} // verus!
