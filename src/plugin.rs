//! What a plugin declares and what its phase hooks hand back.

use vstd::prelude::*;
use vstd::string::{StrSliceExecFns, StringSliceAdditionalSpecFns};

verus! {

/// A point in the processing of a request at which the host runs plugins.
#[derive(Debug, Clone, Copy, PartialEq, Eq, Structural)]
pub enum Phase {
    Access,
}

/// The name the host uses for a phase.
pub open spec fn phase_name(p: Phase) -> Seq<char> {
    match p {
        Phase::Access => "access"@,
    }
}

/// The phase the host calls `name`, if any.
pub open spec fn phase_named(name: Seq<char>) -> Option<Phase> {
    if name == "access"@ {
        Some(Phase::Access)
    } else {
        None
    }
}

/// Whether two strings hold the same characters.
pub fn same_chars(a: &str, b: &str) -> (r: bool)
    ensures
        r == (a@ == b@),
{
    let n = a.unicode_len();
    if n != b.unicode_len() {
        return false;
    }
    let mut i: usize = 0;
    while i < n
        invariant
            i <= n,
            n == a@.len(),
            n == b@.len(),
            forall|k: int| 0 <= k < i ==> a@[k] == b@[k],
        decreases n - i,
    {
        if a.get_char(i) != b.get_char(i) {
            return false;
        }
        i = i + 1;
    }
    assert(a@ =~= b@);
    true
}

impl Phase {
    /// The name the host uses for this phase.
    pub fn as_str(&self) -> (r: &'static str)
        ensures
            r@ == phase_name(*self),
    {
        match self {
            Phase::Access => "access",
        }
    }

    /// The phase the host calls `name`; `None` for a name no phase has.
    pub fn from_name(name: &str) -> (r: Option<Phase>)
        ensures
            r == phase_named(name@),
    {
        if same_chars(name, "access") {
            Some(Phase::Access)
        } else {
            None
        }
    }
}

/// A plugin kind's static declaration: its name, version, priority, the
/// phases it takes part in, and its configuration schema as JSON text.
#[derive(Debug, Clone)]
pub struct PluginInfo {
    pub name: String,
    pub phases: Vec<Phase>,
    pub version: String,
    pub priority: i32,
    pub schema: String,
}

impl PluginInfo {
    /// Whether the plugin declares `phase`.
    pub fn declares(&self, phase: Phase) -> (r: bool)
        ensures
            r == self.phases@.contains(phase),
    {
        let mut i: usize = 0;
        while i < self.phases.len()
            invariant
                i <= self.phases@.len(),
                forall|k: int| 0 <= k < i ==> self.phases@[k] != phase,
            decreases self.phases@.len() - i,
        {
            if self.phases[i] == phase {
                return true;
            }
            i = i + 1;
        }
        false
    }

    /// The host's names of the declared phases, in declaration order.
    pub fn phase_names(&self) -> (r: Vec<String>)
        ensures
            r@.len() == self.phases@.len(),
            forall|k: int| 0 <= k < r@.len() ==> #[trigger] r@[k]@ == phase_name(self.phases@[k]),
    {
        let mut out: Vec<String> = Vec::new();
        let mut i: usize = 0;
        while i < self.phases.len()
            invariant
                i <= self.phases@.len(),
                out@.len() == i,
                forall|k: int| 0 <= k < i ==> #[trigger] out@[k]@ == phase_name(self.phases@[k]),
            decreases self.phases@.len() - i,
        {
            out.push(self.phases[i].as_str().to_owned());
            i = i + 1;
        }
        out
    }
}

/// A response the host is asked to send to the client in place of going on
/// with the request.
#[derive(Debug, Clone)]
pub struct ExitResponse {
    pub status: u16,
    pub body: Vec<u8>,
    pub headers: Vec<(String, String)>,
}

/// What a phase hook returns: `Ok(None)` lets the request go on, `Ok(Some(r))`
/// ends it with `r`, and `Err(r)` ends it with the error response `r`.
pub type PluginResult = Result<Option<ExitResponse>, ExitResponse>;

/// The exit the host must be asked for after a hook returned `result`, or
/// `None` when the request goes on.
pub fn exit_for(result: PluginResult) -> (r: Option<ExitResponse>)
    ensures
        r == match result {
            Ok(Some(x)) => Some(x),
            Ok(None) => None,
            Err(x) => Some(x),
        },
{
    match result {
        Ok(found) => found,
        Err(x) => Some(x),
    }
}

/// The body of the response sent when a hook failed internally.
pub const INTERNAL_ERROR_BODY: &'static str = "The server encountered an unexpected error!";

/// The status of that response.
pub const INTERNAL_ERROR_STATUS: u16 = 500;

/// Errors met while serving the host.
#[derive(Debug, Clone)]
pub enum KongError {
    IOError(String),
    ProtobufDecodeError,
    HeaderParseError(String),
    LaunchError(String),
    SerdeError(String),
    EncodingError,
    InvalidValueError(String),
    BodyError(String),
}

impl KongError {
    /// The response that stands for this error towards the client: a 500
    /// with a fixed message, whatever the error was.
    pub fn to_internal_error(self) -> (r: ExitResponse)
        ensures
            r.status == INTERNAL_ERROR_STATUS,
            r.body@ == INTERNAL_ERROR_BODY.spec_bytes(),
            r.headers@.len() == 0,
    {
        internal_error_response()
    }
}

/// A 500 response with the fixed internal-error message and no header.
pub fn internal_error_response() -> (r: ExitResponse)
    ensures
        r.status == INTERNAL_ERROR_STATUS,
        r.body@ == INTERNAL_ERROR_BODY.spec_bytes(),
        r.headers@.len() == 0,
{
    let text = INTERNAL_ERROR_BODY.as_bytes();
    let mut body: Vec<u8> = Vec::new();
    body.extend_from_slice(text);
    ExitResponse { status: INTERNAL_ERROR_STATUS, body, headers: Vec::new() }
}

/// Turns a failed step of a hook into the internal-error response.
pub fn ok_or_internal_error<T>(result: Result<T, KongError>) -> (r: Result<T, ExitResponse>)
    ensures
        result is Ok <==> r is Ok,
        r matches Ok(v) ==> result == Ok::<T, KongError>(v),
        r matches Err(x) ==> x.status == INTERNAL_ERROR_STATUS && x.body@
            == INTERNAL_ERROR_BODY.spec_bytes() && x.headers@.len() == 0,
{
    match result {
        Ok(v) => Ok(v),
        Err(e) => Err(e.to_internal_error()),
    }
}

} // verus!
