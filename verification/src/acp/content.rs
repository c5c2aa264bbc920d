//! Admission: which prompts are prompts.
use vstd::prelude::*;
use vstd::string::*;

use crate::acp::wire;
use crate::acp::wire::ContentBlock;
use crate::json;
use crate::rpc;
use crate::rpc::{ErrorCode, RpcError};
use crate::text;
use crate::text::{join, trim};

verus! {

broadcast use crate::text::group_views;

/// What a rejected prompt failed on.
#[derive(Debug, Clone)]
pub struct ContentError {
    pub message: String,
    /// The block kind at fault, when one block is.
    pub kind: Option<String>,
}

/// What a rejected prompt failed on, by what it says.
pub struct Fault {
    pub message: Seq<char>,
    pub kind: Option<Seq<char>>,
}

impl View for ContentError {
    type V = Fault;

    open spec fn view(&self) -> Fault {
        Fault { message: self.message@, kind: json::held(self.kind) }
    }
}

impl ContentError {
    pub fn new(message: &str, kind: Option<&str>) -> (e: ContentError)
        ensures
            e@ == (Fault {
                message: message@,
                kind: match kind {
                    Some(kind) => Some(kind@),
                    None => None,
                },
            }),
    {
        ContentError {
            message: message.to_owned(),
            kind: match kind {
                Some(kind) => Some(kind.to_owned()),
                None => None,
            },
        }
    }

    /// The refusal a client reads: a bad parameter, naming the kind of the
    /// block at fault when one block is.
    pub fn refusal(self) -> (e: RpcError)
        ensures
            e@ == self@.refused(),
            self@.kind is Some ==> e@.names("kind"@) == self@.kind,
    {
        match self.kind {
            Some(kind) => RpcError::about(
                ErrorCode::InvalidParams,
                self.message.as_str(),
                "kind",
                kind.as_str(),
            ),
            None => RpcError::new(ErrorCode::InvalidParams, self.message.as_str()),
        }
    }
}

impl Fault {
    /// The refusal a client reads.
    pub open spec fn refused(self) -> rpc::Failure {
        match self.kind {
            Some(kind) => rpc::Failure::about(
                ErrorCode::InvalidParams,
                self.message,
                "kind"@,
                kind,
            ),
            None => rpc::Failure::of(ErrorCode::InvalidParams, self.message),
        }
    }
}

/// What an admitted block adds to the prompt. A resource link is a bracketed
/// reference, and is not fetched.
pub open spec fn part_of(block: wire::Block) -> Option<Seq<char>> {
    match block {
        wire::Block::Text(said) => Some(said),
        wire::Block::ResourceLink(name, uri) => Some(
            "[resource_link name="@ + name + " uri="@ + uri + "]"@,
        ),
        _ => None,
    }
}

/// The refusal of a block that is not admitted.
pub open spec fn fault_of(block: wire::Block) -> Fault {
    match block {
        wire::Block::Image(_, _) => Fault {
            message: "this agent did not advertise the `image` prompt capability"@,
            kind: Some("image"@),
        },
        wire::Block::Audio(_, _) => Fault {
            message: "this agent did not advertise the `audio` prompt capability"@,
            kind: Some("audio"@),
        },
        wire::Block::Resource(_) => Fault {
            message: "this agent did not advertise the `embeddedContext` prompt capability"@,
            kind: Some("resource"@),
        },
        block => Fault {
            message: "unsupported content block `"@ + block.kind() + "`"@,
            kind: Some(block.kind()),
        },
    }
}

/// Whether every block of a prompt can be admitted.
pub open spec fn all_admitted(blocks: Seq<wire::Block>) -> bool {
    forall|i: int| 0 <= i < blocks.len() ==> part_of(#[trigger] blocks[i]) is Some
}

/// The first block of a prompt that cannot be admitted, or one past the last.
pub open spec fn first_refused(blocks: Seq<wire::Block>) -> nat
    decreases blocks.len(),
{
    if blocks.len() == 0 || part_of(blocks[0]) is None {
        0
    } else {
        1 + first_refused(blocks.skip(1))
    }
}

/// What the blocks of a prompt add to it, in order.
pub open spec fn parts_of(blocks: Seq<wire::Block>) -> Seq<Seq<char>> {
    blocks.map_values(|b: wire::Block| part_of(b)->0)
}

/// The whole prompt as one message, or the reason it is not a prompt.
pub open spec fn admission(blocks: Seq<wire::Block>) -> Result<Seq<char>, Fault> {
    if blocks.len() == 0 {
        Err(Fault { message: "a prompt carries at least one block"@, kind: None })
    } else if first_refused(blocks) < blocks.len() {
        Err(fault_of(blocks[first_refused(blocks) as int]))
    } else {
        let said = text::joined(parts_of(blocks), "\n"@);
        if text::trimmed(said).len() == 0 {
            Err(Fault { message: "a prompt carries some text"@, kind: None })
        } else {
            Ok(said)
        }
    }
}

proof fn lemma_first_refused(blocks: Seq<wire::Block>, n: nat)
    requires
        n <= blocks.len(),
        forall|i: int| 0 <= i < n ==> part_of(#[trigger] blocks[i]) is Some,
        n == blocks.len() || part_of(blocks[n as int]) is None,
    ensures
        first_refused(blocks) == n,
    decreases n,
{
    if n > 0 {
        let rest = blocks.skip(1);
        assert forall|i: int| 0 <= i < n - 1 implies part_of(#[trigger] rest[i]) is Some by {
            assert(rest[i] == blocks[i + 1]);
        }
        assert(n < blocks.len() ==> rest[n - 1] == blocks[n as int]);
        lemma_first_refused(rest, (n - 1) as nat);
        assert(part_of(blocks[0]) is Some);
    }
}

/// Admission is all or nothing: one block that was not advertised refuses the
/// whole prompt, wherever it stands, and a prompt that is admitted has none.
pub proof fn lemma_admission_is_all_or_nothing(blocks: Seq<wire::Block>)
    ensures
        admission(blocks) is Ok ==> all_admitted(blocks),
        !all_admitted(blocks) ==> admission(blocks) is Err,
    decreases blocks.len(),
{
    lemma_refused_is_first(blocks);
}

proof fn lemma_refused_is_first(blocks: Seq<wire::Block>)
    ensures
        first_refused(blocks) <= blocks.len(),
        first_refused(blocks) == blocks.len() ==> all_admitted(blocks),
    decreases blocks.len(),
{
    if blocks.len() > 0 && part_of(blocks[0]) is Some {
        let rest = blocks.skip(1);
        lemma_refused_is_first(rest);
        if first_refused(blocks) == blocks.len() {
            assert forall|i: int| 0 <= i < blocks.len() implies part_of(
                #[trigger] blocks[i],
            ) is Some by {
                if i > 0 {
                    assert(rest[i - 1] == blocks[i]);
                }
            }
        }
    }
}

/// The order of a prompt is kept: what each block adds stands where the block
/// stood, and two blocks are told apart by the newline between them.
pub proof fn lemma_admission_keeps_order(a: Seq<wire::Block>, b: wire::Block)
    requires
        a.len() > 0,
        part_of(b) is Some,
        admission(a) is Ok,
    ensures
        admission(a.push(b)) == Ok::<Seq<char>, Fault>(admission(a)->Ok_0 + "\n"@ + part_of(b)->0),
{
    lemma_refused_is_first(a);
    let more = a.push(b);
    assert forall|i: int| 0 <= i < more.len() implies part_of(#[trigger] more[i]) is Some by {
        if i < a.len() {
            assert(part_of(a[i]) is Some);
        }
    }
    lemma_first_refused(more, more.len());
    assert(parts_of(more).drop_last() =~= parts_of(a));
    assert(parts_of(more).last() == part_of(b)->0);
    let said = text::joined(parts_of(a), "\n"@);
    let whole = text::joined(parts_of(more), "\n"@);
    assert(whole == said + "\n"@ + part_of(b)->0);
    text::lemma_blank_trims_to_nothing(said);
    text::lemma_blank_trims_to_nothing(whole);
    if text::trimmed(whole).len() == 0 {
        assert forall|i: int| 0 <= i < said.len() implies text::is_space(#[trigger] said[i]) by {
            assert(whole[i] == said[i]);
        }
    }
}

/// The whole prompt as one message, or the reason it is not a prompt.
///
/// Order is preserved, and adjacent text is joined with a newline rather than
/// run together: two blocks are two things the client chose to send
/// separately. Blocks that are all whitespace are a prompt in shape and not in
/// substance, and are refused too.
pub fn accept(prompt: &[ContentBlock]) -> (r: Result<String, ContentError>)
    ensures
        (match r {
            Ok(said) => Ok(said@),
            Err(fault) => Err(fault@),
        }) == admission(wire::blocks_of(prompt@)),
{
    let ghost blocks = wire::blocks_of(prompt@);
    if prompt.len() == 0 {
        return Err(ContentError::new("a prompt carries at least one block", None));
    }
    let mut parts: Vec<String> = Vec::new();
    let mut i: usize = 0;
    proof {
        assert(text::views(parts@) =~= parts_of(blocks).take(0));
    }
    while i < prompt.len()
        invariant
            i <= prompt.len(),
            blocks == wire::blocks_of(prompt@),
            blocks.len() > 0,
            forall|j: int| 0 <= j < i ==> part_of(#[trigger] blocks[j]) is Some,
            text::views(parts@) == parts_of(blocks).take(i as int),
        decreases prompt.len() - i,
    {
        let block = &prompt[i];
        proof {
            assert(blocks[i as int] == block@);
        }
        let said = match block {
            ContentBlock::Text { text } => text.clone(),
            ContentBlock::ResourceLink { name, uri } => {
                let mut s = text::cat("[resource_link name=", name.as_str());
                s.append(" uri=");
                s.append(uri.as_str());
                s.append("]");
                s
            },
            ContentBlock::Image { .. } => {
                proof {
                    lemma_first_refused(blocks, i as nat);
                }
                return Err(
                    ContentError::new(
                        "this agent did not advertise the `image` prompt capability",
                        Some("image"),
                    ),
                );
            },
            ContentBlock::Audio { .. } => {
                proof {
                    lemma_first_refused(blocks, i as nat);
                }
                return Err(
                    ContentError::new(
                        "this agent did not advertise the `audio` prompt capability",
                        Some("audio"),
                    ),
                );
            },
            ContentBlock::Resource { .. } => {
                proof {
                    lemma_first_refused(blocks, i as nat);
                }
                return Err(
                    ContentError::new(
                        "this agent did not advertise the `embeddedContext` prompt capability",
                        Some("resource"),
                    ),
                );
            },
            ContentBlock::Other(_) => {
                proof {
                    lemma_first_refused(blocks, i as nat);
                }
                let kind = block.kind();
                let mut message = text::cat("unsupported content block `", kind.as_str());
                message.append("`");
                return Err(ContentError::new(message.as_str(), Some(kind.as_str())));
            },
        };
        parts.push(said);
        proof {
            assert(parts_of(blocks).take(i + 1) =~= parts_of(blocks).take(i as int).push(
                parts_of(blocks)[i as int],
            ));
        }
        i = i + 1;
    }
    proof {
        lemma_first_refused(blocks, i as nat);
        assert(parts_of(blocks).take(i as int) =~= parts_of(blocks));
    }
    let admitted = join(&parts, "\n");
    if trim(admitted.as_str()).as_str().is_empty() {
        return Err(ContentError::new("a prompt carries some text", None));
    }
    Ok(admitted)
}

/// A prompt of one text is that text as it stands, unless it is blank.
pub proof fn lemma_a_text_is_taken_as_it_stands(said: Seq<char>, name: Seq<char>, uri: Seq<char>)
    ensures
        text::trimmed(said).len() > 0 ==> admission(seq![wire::Block::Text(said)]) == Ok::<
            Seq<char>,
            Fault,
        >(said),
        text::trimmed(said).len() == 0 ==> admission(seq![wire::Block::Text(said)]) == Err::<
            Seq<char>,
            Fault,
        >(Fault { message: "a prompt carries some text"@, kind: None }),
        part_of(wire::Block::Text(said)) == Some(said),
        part_of(wire::Block::ResourceLink(name, uri)) == Some(
            "[resource_link name="@ + name + " uri="@ + uri + "]"@,
        ),
{
    let blocks = seq![wire::Block::Text(said)];
    lemma_first_refused(blocks, 1);
    assert(parts_of(blocks) =~= seq![said]);
}

/// Text and links are taken, and nothing else is.
pub proof fn lemma_only_text_and_links_are_taken(block: wire::Block)
    ensures
        part_of(block) is Some <==> block is Text || block is ResourceLink,
{
}

/// A prompt is refused for the first block of it that is not taken, by that
/// block's kind: one this agent has no capability for in the capability's name,
/// and any other as unsupported.
pub proof fn lemma_the_first_refused_block_is_told(
    before: Seq<wire::Block>,
    block: wire::Block,
    behind: Seq<wire::Block>,
)
    requires
        forall|i: int| 0 <= i < before.len() ==> part_of(#[trigger] before[i]) is Some,
        part_of(block) is None,
    ensures
        admission(before.push(block) + behind) matches Err(fault) && fault.kind == Some(
            block.kind(),
        ) && fault.message == match block {
            wire::Block::Image(_, _) =>
                "this agent did not advertise the `image` prompt capability"@,
            wire::Block::Audio(_, _) =>
                "this agent did not advertise the `audio` prompt capability"@,
            wire::Block::Resource(_) =>
                "this agent did not advertise the `embeddedContext` prompt capability"@,
            block => "unsupported content block `"@ + block.kind() + "`"@,
        },
{
    let blocks = before.push(block) + behind;
    assert forall|i: int| 0 <= i < before.len() implies part_of(#[trigger] blocks[i]) is Some by {
        assert(blocks[i] == before[i]);
    }
    lemma_first_refused(blocks, before.len());
}

/// Blocks that are all taken make one prompt: their parts in order, a line break
/// between each two. No blocks make none.
pub proof fn lemma_a_prompt_is_its_parts_in_lines(blocks: Seq<wire::Block>)
    ensures
        blocks.len() == 0 ==> admission(blocks) == Err::<Seq<char>, Fault>(
            Fault { message: "a prompt carries at least one block"@, kind: None },
        ),
        blocks.len() > 0 && all_admitted(blocks) && text::trimmed(
            text::joined(blocks.map_values(|b: wire::Block| part_of(b)->0), "\n"@),
        ).len() > 0 ==> admission(blocks) == Ok::<Seq<char>, Fault>(
            text::joined(blocks.map_values(|b: wire::Block| part_of(b)->0), "\n"@),
        ),
{
    if all_admitted(blocks) {
        lemma_first_refused(blocks, blocks.len());
    }
    assert(blocks.map_values(|b: wire::Block| part_of(b)->0) =~= parts_of(blocks));
}

/// A refused prompt is a wrong parameter in the fault's own words, about the kind
/// of block at fault where one is.
pub proof fn lemma_a_refused_prompt_is_a_wrong_parameter(fault: Fault)
    ensures
        fault.refused().kind() == Some(ErrorCode::InvalidParams),
        fault.refused().message == fault.message,
        fault.kind is None ==> fault.refused().data is None,
        fault.kind matches Some(kind) ==> fault.refused().data == json::json_with(
            "{}"@,
            "kind"@,
            kind,
        ),
{
}

} // verus!
