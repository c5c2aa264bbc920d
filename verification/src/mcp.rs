//! What is said of the MCP servers a document declares.
//!
//! A server that will not start does not stop the harness, but it is said: a
//! tool that is silently absent is a capability nobody took away.
use vstd::prelude::*;
use vstd::string::*;

use crate::text;
use crate::text::{decimal, quoted};

verus! {

broadcast use crate::text::group_views;

/// A declared server that is serving.
#[derive(Clone, Debug)]
pub struct Serving {
    pub name: String,
    /// How many tools it contributes.
    pub tools: usize,
}

/// A declared server that is not, and why.
#[derive(Clone, Debug)]
pub struct Refused {
    pub name: String,
    /// The kind of fault, in one word.
    pub class: String,
    pub fault: String,
}

/// Whether anything is to be started: a document whose servers are all
/// switched off starts none.
pub open spec fn starts(enabled: Seq<bool>) -> bool {
    exists|i: int| 0 <= i < enabled.len() && #[trigger] enabled[i]
}

/// Whether anything is to be started.
pub fn any_enabled(enabled: &Vec<bool>) -> (r: bool)
    ensures
        r == starts(enabled@),
{
    let mut i: usize = 0;
    while i < enabled.len()
        invariant
            i <= enabled.len(),
            forall|j: int| 0 <= j < i ==> !#[trigger] enabled@[j],
        decreases enabled.len() - i,
    {
        if enabled[i] {
            return true;
        }
        i = i + 1;
    }
    false
}

/// What is said of a server that is serving.
pub open spec fn serving_line(server: Serving) -> Seq<char> {
    "the MCP server "@ + text::quoted_of(server.name@) + " is serving "@ + text::dec(
        server.tools as nat,
    ) + if server.tools == 1 {
        " tool"@
    } else {
        " tools"@
    }
}

/// What is said of a server that is not.
pub open spec fn refused_line(server: Refused) -> Seq<char> {
    "the MCP server "@ + text::quoted_of(server.name@) + " did not start ["@ + server.class@
        + "]: "@ + server.fault@
}

/// What is said, a line for each server: those that are serving, then those
/// that are not.
pub open spec fn lines_of(serving: Seq<Serving>, refused: Seq<Refused>) -> Seq<Seq<char>> {
    serving.map_values(|s: Serving| serving_line(s)) + refused.map_values(
        |r: Refused| refused_line(r),
    )
}

/// What is said of the servers a document declares, once, before the run.
pub fn report(serving: &Vec<Serving>, refused: &Vec<Refused>) -> (r: Vec<String>)
    ensures
        text::views(r@) == lines_of(serving@, refused@),
{
    let ghost left = serving@.map_values(|s: Serving| serving_line(s));
    let ghost right = refused@.map_values(|s: Refused| refused_line(s));
    let mut r: Vec<String> = Vec::new();
    let mut i: usize = 0;
    proof {
        assert(left.take(0) =~= Seq::<Seq<char>>::empty());
    }
    while i < serving.len()
        invariant
            i <= serving.len(),
            left == serving@.map_values(|s: Serving| serving_line(s)),
            text::views(r@) == left.take(i as int),
        decreases serving.len() - i,
    {
        let mut said = text::cat("the MCP server ", quoted(serving[i].name.as_str()).as_str());
        said.append(" is serving ");
        said.append(decimal(serving[i].tools as u64).as_str());
        if serving[i].tools == 1 {
            said.append(" tool");
        } else {
            said.append(" tools");
        }
        proof {
            assert(said@ == left[i as int]);
            assert(left.take(i + 1) =~= left.take(i as int).push(left[i as int]));
        }
        r.push(said);
        i = i + 1;
    }
    proof {
        assert(left.take(i as int) =~= left);
        assert(left + right.take(0) =~= left);
    }
    let mut i: usize = 0;
    while i < refused.len()
        invariant
            i <= refused.len(),
            right == refused@.map_values(|s: Refused| refused_line(s)),
            text::views(r@) == left + right.take(i as int),
        decreases refused.len() - i,
    {
        let mut said = text::cat("the MCP server ", quoted(refused[i].name.as_str()).as_str());
        said.append(" did not start [");
        said.append(refused[i].class.as_str());
        said.append("]: ");
        said.append(refused[i].fault.as_str());
        proof {
            assert(said@ == right[i as int]);
            assert((left + right.take(i as int)).push(right[i as int]) =~= left + right.take(
                i + 1,
            ));
        }
        r.push(said);
        i = i + 1;
    }
    proof {
        assert(right.take(i as int) =~= right);
    }
    r
}

/// Every declared server is spoken of: a line for each, whether it is serving
/// or not.
pub proof fn lemma_no_server_is_passed_over(serving: Seq<Serving>, refused: Seq<Refused>)
    ensures
        lines_of(serving, refused).len() == serving.len() + refused.len(),
        forall|i: int|
            0 <= i < refused.len() ==> lines_of(serving, refused).contains(
                refused_line(#[trigger] refused[i]),
            ),
{
    assert forall|i: int| 0 <= i < refused.len() implies lines_of(serving, refused).contains(
        refused_line(#[trigger] refused[i]),
    ) by {
        assert(lines_of(serving, refused)[serving.len() + i] == refused_line(refused[i]));
    }
}

/// A server that serves is told by its name and its tools, one tool as one.
/// One that does not is told by its name, the kind of its fault and the fault.
/// Those that serve come first, each kind in its own order.
pub proof fn lemma_a_server_is_told_by_its_name(
    serving: Seq<Serving>,
    refused: Seq<Refused>,
    i: int,
)
    ensures
        0 <= i < serving.len() ==> lines_of(serving, refused)[i] == "the MCP server "@
            + text::quoted_of(serving[i].name@) + " is serving "@ + text::dec(
            serving[i].tools as nat,
        ) + (if serving[i].tools == 1 {
            " tool"@
        } else {
            " tools"@
        }),
        0 <= i < refused.len() ==> lines_of(serving, refused)[serving.len() + i]
            == "the MCP server "@ + text::quoted_of(refused[i].name@) + " did not start ["@
            + refused[i].class@ + "]: "@ + refused[i].fault@,
{
}

/// Servers are started exactly where one of them is enabled.
pub proof fn lemma_one_enabled_server_is_enough(enabled: Seq<bool>, more: bool)
    ensures
        starts(enabled.push(more)) <==> starts(enabled) || more,
        !starts(Seq::empty()),
{
    let all = enabled.push(more);
    if starts(enabled) {
        let i = choose|i: int| 0 <= i < enabled.len() && #[trigger] enabled[i];
        assert(all[i]);
    }
    if more {
        assert(all[enabled.len() as int]);
    }
    if starts(all) && !more {
        let i = choose|i: int| 0 <= i < all.len() && #[trigger] all[i];
        assert(enabled[i]);
    }
}

} // verus!
