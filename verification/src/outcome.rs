//! What the linker reports back: a success flag and diagnostic text.

use vstd::prelude::*;
use vstd::string::StringExecFns;
use vstd::utf8::{decode_utf8, encode_utf8, encode_utf8_decode_utf8, valid_utf8};

verus! {

/// The text that a lossy UTF-8 reading of `bytes` gives. Bytes that are not
/// valid UTF-8 are read with replacement characters in a way that only the
/// standard library fixes, so the text is named here and not written out.
pub uninterp spec fn lossy_text(bytes: Seq<u8>) -> Seq<char>;

/// Reads native diagnostic bytes as text with `String::from_utf8_lossy`.
///
/// Not proved: the result is the lossy reading of the bytes, and bytes that
/// are valid UTF-8 come back as a string of those very bytes, as the standard
/// library documents.
#[verifier::external_body]
fn read_lossy(bytes: &[u8]) -> (text: String)
    ensures
        text@ == lossy_text(bytes@),
        valid_utf8(bytes@) ==> encode_utf8(text@) == bytes@,
{
    String::from_utf8_lossy(bytes).into_owned()
}

/// The diagnostic text that a native message stands for: none is the empty
/// text, otherwise the lossy reading of its bytes.
pub open spec fn native_text(message: Option<Seq<u8>>) -> Seq<char> {
    match message {
        None => Seq::empty(),
        Some(bytes) => lossy_text(bytes),
    }
}

/// How a flag is written in the debug report.
pub open spec fn flag_text(flag: bool) -> Seq<char> {
    if flag {
        "true"@
    } else {
        "false"@
    }
}

/// The two-line debug report for a flag and a diagnostic text.
pub open spec fn report_text(success: bool, messages: Seq<char>) -> Seq<char> {
    "Result from invocation: "@ + flag_text(success) + "\n"@ + "Attached message(s): "@
        + messages + "\n"@
}

/// The outcome of one linker invocation.
#[derive(Debug)]
pub struct LldResult {
    success: bool,
    messages: String,
}

/// The mathematical content of an [`LldResult`].
pub struct LldResultView {
    pub success: bool,
    pub messages: Seq<char>,
}

impl View for LldResult {
    type V = LldResultView;

    closed spec fn view(&self) -> LldResultView {
        LldResultView { success: self.success, messages: self.messages@ }
    }
}

impl LldResult {
    /// An outcome with the given flag and diagnostic text.
    pub fn new(success: bool, messages: String) -> (r: LldResult)
        ensures
            r@ == (LldResultView { success, messages: messages@ }),
    {
        LldResult { success, messages }
    }

    /// The outcome that the native call reported: its flag, and its message
    /// bytes where it gave any.
    pub fn from_native(success: bool, message: Option<&[u8]>) -> (r: LldResult)
        ensures
            r@.success == success,
            r@.messages == native_text(
                match message {
                    None => None,
                    Some(bytes) => Some(bytes@),
                },
            ),
            message is Some && valid_utf8(message->Some_0@) ==> r@.messages == decode_utf8(
                message->Some_0@,
            ),
    {
        let messages = match message {
            None => String::new(),
            Some(bytes) => read_lossy(bytes),
        };
        proof {
            encode_utf8_decode_utf8(messages@);
        }
        LldResult::new(success, messages)
    }

    /// Whether the linker reported success.
    pub fn success(&self) -> (b: bool)
        ensures
            b == self@.success,
    {
        self.success
    }

    /// The diagnostic text that came with the outcome.
    pub fn messages(&self) -> (text: &str)
        ensures
            text@ == self@.messages,
    {
        self.messages.as_str()
    }

    /// The debug report of this outcome: one line for the flag and one for
    /// the diagnostic text.
    pub fn debug_text(&self) -> (text: String)
        ensures
            text@ == report_text(self@.success, self@.messages),
    {
        let mut text = String::from_str("Result from invocation: ");
        if self.success {
            text.append("true");
        } else {
            text.append("false");
        }
        text.append("\n");
        text.append("Attached message(s): ");
        text.append(self.messages.as_str());
        text.append("\n");
        text
    }

    /// Collapses the outcome: success becomes `Ok`, failure becomes `Err`
    /// with the diagnostic text as the linker gave it.
    pub fn ok(self) -> (r: Result<(), String>)
        ensures
            self@.success ==> r is Ok,
            !self@.success ==> r is Err && r->Err_0@ == self@.messages,
    {
        if self.success {
            Ok(())
        } else {
            Err(self.messages)
        }
    }
}

} // verus!
