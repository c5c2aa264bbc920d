//! Where a run's prompt comes from.
//!
//! Three sources and one rule. A prompt is typed; or `-` names standard input,
//! for one longer than a shell quotes comfortably; or there is none, and a
//! first run needs nothing typed. Standard input is read only when it is
//! asked for. An empty prompt is a mistake to report at the point it was made,
//! not a turn to spend.
use vstd::prelude::*;
use vstd::string::*;

use crate::rpc;
use crate::rpc::{ErrorCode, RpcError};
use crate::text;
use crate::text::{same, trim, trim_end};

verus! {

/// What a bare run asks.
pub const DEFAULT: &'static str = "run one full turn";

/// The prompt that means "read the prompt from standard input".
pub const STDIN: &'static str = "-";

/// Whether a prompt is to be read from standard input.
pub open spec fn asks_stdin(said: Option<Seq<char>>) -> bool {
    said == Some("-"@)
}

/// Whether a prompt is to be read from standard input. Nothing else reads it.
pub fn reads_stdin(said: &Option<String>) -> (r: bool)
    ensures
        r == asks_stdin(crate::json::held(*said)),
{
    match said {
        Some(said) => same(said.as_str(), "-"),
        None => false,
    }
}

/// A refusal that names the prompt as the argument to fix.
pub open spec fn is_unusable(error: rpc::Failure, why: Seq<char>) -> bool {
    &&& error == rpc::Failure::about(ErrorCode::InvalidParams, why, "field"@, "prompt"@)
    &&& error.names("field"@) == Some("prompt"@)
}

fn unusable(why: &str) -> (e: RpcError)
    ensures
        is_unusable(e@, why@),
{
    RpcError::about(ErrorCode::InvalidParams, why, "field", "prompt")
}

/// What standard input held, once the newline the plumbing added is off it; or
/// why it cannot be a prompt.
pub open spec fn piped_prompt(piped: Result<Seq<u8>, Seq<char>>) -> Result<Seq<char>, Seq<char>> {
    match piped {
        Ok(bytes) => if !vstd::utf8::valid_utf8(bytes) {
            Err("standard input is not UTF-8"@)
        } else {
            let said = text::trimmed_end(vstd::utf8::decode_utf8(bytes));
            if text::trimmed(said).len() == 0 {
                Err("standard input was empty"@)
            } else {
                Ok(said)
            }
        },
        Err(why) => Err("standard input: "@ + why),
    }
}

/// What reading standard input gave, by what it holds.
pub open spec fn piped_of(piped: Option<Result<Vec<u8>, String>>) -> Result<Seq<u8>, Seq<char>> {
    match piped {
        Some(Ok(bytes)) => Ok(bytes@),
        Some(Err(why)) => Err(why@),
        None => Ok(Seq::empty()),
    }
}

/// Resolve what to ask the agent.
///
/// `said` is whichever prompt was typed, and `piped` what reading standard
/// input to its end gave, which is only read when the prompt asks for it.
pub fn resolve(said: Option<String>, piped: Option<Result<Vec<u8>, String>>) -> (r: Result<
    String,
    RpcError,
>)
    ensures
        match said {
            None => r matches Ok(asked) && asked@ == DEFAULT@,
            Some(typed) => if asks_stdin(Some(typed@)) {
                match piped_prompt(piped_of(piped)) {
                    Ok(asked) => r matches Ok(prompt) && prompt@ == asked,
                    Err(why) => r matches Err(e) && if piped matches Some(Err(_)) {
                        e@ == rpc::Failure::of(ErrorCode::Io, why)
                    } else {
                        is_unusable(e@, why)
                    },
                }
            } else if text::trimmed(typed@).len() == 0 {
                r matches Err(e) && is_unusable(e@, "it is empty"@)
            } else {
                r matches Ok(asked) && asked@ == typed@
            },
        },
{
    let typed = match said {
        None => {
            return Ok(DEFAULT.to_owned());
        },
        Some(typed) => typed,
    };
    if !same(typed.as_str(), "-") {
        if trim(typed.as_str()).as_str().is_empty() {
            return Err(unusable("it is empty"));
        }
        return Ok(typed);
    }
    let bytes = match piped {
        Some(Ok(bytes)) => bytes,
        Some(Err(why)) => {
            let said = text::cat("standard input: ", why.as_str());
            return Err(RpcError::new(ErrorCode::Io, said.as_str()));
        },
        None => Vec::new(),
    };
    let ghost held = bytes@;
    match text::from_utf8(bytes) {
        Some(whole) => {
            let asked = trim_end(whole.as_str());
            if trim(asked.as_str()).as_str().is_empty() {
                return Err(unusable("standard input was empty"));
            }
            Ok(asked)
        },
        None => Err(unusable("standard input is not UTF-8")),
    }
}

/// Standard input is read exactly where the prompt is a dash and no more.
pub proof fn lemma_a_dash_asks_for_standard_input(said: Seq<char>)
    ensures
        asks_stdin(Some(said)) <==> said == seq!['-'],
        !asks_stdin(None),
{
    reveal_strlit("-");
    assert("-"@ =~= seq!['-']);
}

/// A prompt that is piped in is taken whole but for the blanks it ends with: it
/// opens as it was written, blanks included, and nothing but blanks is taken off.
pub proof fn lemma_a_piped_prompt_is_taken_whole(bytes: Seq<u8>)
    requires
        vstd::utf8::valid_utf8(bytes),
    ensures
        ({
            let written = vstd::utf8::decode_utf8(bytes);
            match piped_prompt(Ok(bytes)) {
                Ok(said) => {
                    &&& said.len() > 0
                    &&& said.len() <= written.len()
                    &&& said == written.take(said.len() as int)
                    &&& !text::is_space(said.last())
                    &&& forall|i: int|
                        said.len() <= i < written.len() ==> text::is_space(#[trigger] written[i])
                },
                Err(why) => why == "standard input was empty"@ && forall|i: int|
                    0 <= i < written.len() ==> text::is_space(#[trigger] written[i]),
            }
        }),
{
    let written = vstd::utf8::decode_utf8(bytes);
    let said = text::trimmed_end(written);
    text::lemma_trimming_the_end_takes_blanks_alone(written);
    text::lemma_blank_trims_to_nothing(said);
    if piped_prompt(Ok(bytes)) is Err {
        assert forall|i: int| 0 <= i < written.len() implies text::is_space(
            #[trigger] written[i],
        ) by {
            if i < said.len() {
                assert(text::is_space(said[i]));
            }
        }
    } else {
        assert(said.len() > 0);
    }
}

/// What is not UTF-8 is no prompt, and why standard input could not be read is
/// told.
pub proof fn lemma_an_unreadable_prompt_is_told(bytes: Seq<u8>, why: Seq<char>)
    ensures
        !vstd::utf8::valid_utf8(bytes) ==> piped_prompt(Ok(bytes)) == Err::<Seq<char>, Seq<char>>(
            "standard input is not UTF-8"@,
        ),
        piped_prompt(Err(why)) == Err::<Seq<char>, Seq<char>>("standard input: "@ + why),
{
}

/// Whatever prompt is resolved is the one that was typed, as it was typed, unless
/// it is blank or a dash; the usual one where none was typed; and for a dash what
/// was piped in without the blanks at its end.
pub proof fn lemma_a_typed_prompt_stands(
    typed: String,
    bytes: Vec<u8>,
    piped: Option<Result<Vec<u8>, String>>,
    none: Result<String, RpcError>,
    r: Result<String, RpcError>,
    read: Result<String, RpcError>,
    dash: String,
)
    requires
        call_ensures(resolve, (None, piped), none),
        call_ensures(resolve, (Some(typed), piped), r),
        dash@ == seq!['-'],
        call_ensures(resolve, (Some(dash), Some(Ok(bytes))), read),
        typed@ != seq!['-'],
    ensures
        none matches Ok(asked) && asked@ == "run one full turn"@,
        text::trimmed(typed@).len() > 0 ==> (r matches Ok(asked) && asked@ == typed@),
        text::trimmed(typed@).len() == 0 ==> (r matches Err(error) && error@.kind() == Some(
            ErrorCode::InvalidParams,
        ) && error@.message == "it is empty"@),
        vstd::utf8::valid_utf8(bytes@) && text::trimmed(
            text::trimmed_end(vstd::utf8::decode_utf8(bytes@)),
        ).len() > 0 ==> (read matches Ok(asked) && asked@ == text::trimmed_end(
            vstd::utf8::decode_utf8(bytes@),
        )),
        !vstd::utf8::valid_utf8(bytes@) ==> (read matches Err(error) && error@.kind() == Some(
            ErrorCode::InvalidParams,
        )),
{
    lemma_a_dash_asks_for_standard_input(typed@);
    lemma_a_dash_asks_for_standard_input(dash@);
}

/// A prompt that cannot be used is a wrong parameter of that name, told why.
pub proof fn lemma_an_unusable_prompt_is_told_why(error: rpc::Failure, why: Seq<char>)
    requires
        is_unusable(error, why),
    ensures
        error.kind() == Some(ErrorCode::InvalidParams),
        error.message == why,
        error.names("field"@) == Some("prompt"@),
        error.data == crate::json::json_with("{}"@, "field"@, "prompt"@),
{
}

} // verus!
