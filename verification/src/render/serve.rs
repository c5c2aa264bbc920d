//! What a person sees when the binary stops being a command and becomes a
//! server.
//!
//! A server that prints nothing and one that failed to start look the same, so
//! the banner says which happened, where the work will land, and how to stop
//! it, which is not the same key on every carrier.
use vstd::prelude::*;
use vstd::string::*;

use crate::paint;
use crate::paint::{Field, Line, Role, Sheet};
use crate::render::rows;
use crate::text;

verus! {

broadcast use crate::paint::group_fields;

/// The columns of the widest label, which is `sessions`.
pub const LABEL: usize = 8;

/// Which carrier is hosting the protocol, and what a person needs to know
/// about it: where to point a peer, and which key ends the process.
#[derive(Clone, Copy, Debug)]
pub enum Carrier<'a> {
    /// stdin and stdout, one frame per line.
    Stdio,
    /// A WebSocket server, on the address it actually bound.
    WebSocket(&'a str),
}

impl<'a> Carrier<'a> {
    /// The carrier's name, as the banner says it.
    pub open spec fn named(self) -> Seq<char> {
        match self {
            Carrier::Stdio => "stdio"@,
            Carrier::WebSocket(_) => "websocket"@,
        }
    }

    /// The key that ends this server. One that reads stdin ends with it; one
    /// that does not ends with the key a user tries first.
    pub open spec fn stops(self) -> Seq<char> {
        match self {
            Carrier::Stdio => "Ctrl-D"@,
            Carrier::WebSocket(_) => "Ctrl-C"@,
        }
    }

    /// Why this server stopped, in the ordinary course.
    pub open spec fn ended(self) -> Seq<char> {
        match self {
            Carrier::Stdio => "the peer closed stdin"@,
            Carrier::WebSocket(_) => "interrupted"@,
        }
    }

    /// The carrier's name, as the banner says it.
    pub fn name(&self) -> (s: &'static str)
        ensures
            s@ == self.named(),
    {
        match self {
            Carrier::Stdio => "stdio",
            Carrier::WebSocket(_) => "websocket",
        }
    }

    /// The key that ends this server.
    pub fn stop_key(&self) -> (s: &'static str)
        ensures
            s@ == self.stops(),
    {
        match self {
            Carrier::Stdio => "Ctrl-D",
            Carrier::WebSocket(_) => "Ctrl-C",
        }
    }
}

/// What the server is about to do.
#[derive(Clone, Copy, Debug)]
pub struct Serving<'a> {
    /// The carrier hosting the protocol.
    pub carrier: Carrier<'a>,
    /// Where the journals this server writes will land, as the terminal draws
    /// it.
    pub sessions: &'a str,
    /// The `major.minor` of the protocol it speaks.
    pub protocol: &'a str,
}

/// A labelled row on this page.
pub open spec fn row_of(label: Seq<char>, said: Seq<char>) -> paint::Labelled {
    paint::Labelled { label, column: LABEL as nat, said: seq![rows::plain(said)] }
}

/// The rows of the banner. An address leads: it is the one fact a peer cannot
/// work out for itself.
pub open spec fn serving_rows(serving: Serving) -> Seq<paint::Labelled> {
    let rest = seq![
        row_of("sessions"@, serving.sessions@),
        row_of("protocol"@, serving.protocol@),
    ];
    match serving.carrier {
        Carrier::Stdio => rest,
        Carrier::WebSocket(address) => seq![row_of("address"@, address@)] + rest,
    }
}

fn field(label: &str, said: &str) -> (f: Field)
    ensures
        f@ == row_of(label@, said@),
{
    Field { label: label.to_owned(), column: LABEL, said: Line::of(Role::Plain, said) }
}

/// Announce the server, before the first frame is read.
pub fn banner(serving: &Serving) -> (s: Sheet)
    ensures
        s.heading@ == seq![
            rows::plain("tetanus serving on "@),
            (Role::Accent, serving.carrier.named()),
        ],
        s.at is None,
        paint::fields_of(s.fields@) == serving_rows(*serving),
        s.rows@.len() == 0,
        s.note matches Some(note) && note@ == "end with "@ + serving.carrier.stops(),
{
    let mut heading = Line::of(Role::Plain, "tetanus serving on ");
    heading.put(Role::Accent, serving.carrier.name());
    proof {
        assert(heading@ =~= seq![
            rows::plain("tetanus serving on "@),
            (Role::Accent, serving.carrier.named()),
        ]);
    }
    let mut fields: Vec<Field> = Vec::new();
    if let Carrier::WebSocket(address) = serving.carrier {
        fields.push(field("address", address));
    }
    fields.push(field("sessions", serving.sessions));
    fields.push(field("protocol", serving.protocol));
    proof {
        assert(paint::fields_of(fields@) =~= serving_rows(*serving));
    }
    Sheet {
        heading,
        at: None,
        fields,
        rows: Vec::new(),
        note: Some(text::cat("end with ", serving.carrier.stop_key())),
    }
}

/// Why the server stopped, so that an exit is never mistaken for a crash.
pub fn stopped(carrier: Carrier) -> (s: String)
    ensures
        s@ == carrier.ended() + ", so the server stopped"@,
{
    let why = match carrier {
        Carrier::Stdio => "the peer closed stdin",
        Carrier::WebSocket(_) => "interrupted",
    };
    text::cat(why, ", so the server stopped")
}

/// A server is told by where it serves and by what: its sessions and its protocol
/// always, and before them the address, exactly where it has one.
pub proof fn lemma_a_server_is_told_by_where_it_serves(serving: Serving)
    ensures
        ({
            let rows = serving_rows(serving);
            let at: int = if serving.carrier is WebSocket {
                1
            } else {
                0
            };
            &&& rows.len() == at + 2
            &&& serving.carrier matches Carrier::WebSocket(address) ==> rows[0].label == "address"@
                && rows[0].said == seq![rows::plain(address@)]
            &&& rows[at].label == "sessions"@ && rows[at].said == seq![
                rows::plain(serving.sessions@),
            ]
            &&& rows[at + 1].label == "protocol"@ && rows[at + 1].said == seq![
                rows::plain(serving.protocol@),
            ]
        }),
{
}

/// Each carrier has its own name, its own key to end it with, and its own reason
/// to have ended.
pub proof fn lemma_each_carrier_has_its_own_words(carrier: Carrier)
    ensures
        carrier is Stdio ==> carrier.named() == "stdio"@ && carrier.stops() == "Ctrl-D"@
            && carrier.ended() == "the peer closed stdin"@,
        carrier is WebSocket ==> carrier.named() == "websocket"@ && carrier.stops() == "Ctrl-C"@
            && carrier.ended() == "interrupted"@,
{
}

/// Whatever banner is up names the carrier in its heading and the key to end it
/// with in its note; and what ended it is told in the carrier's own words.
pub proof fn lemma_a_banner_names_its_carrier(
    serving: &Serving,
    sheet: Sheet,
    carrier: Carrier,
    said: String,
)
    requires
        call_ensures(banner, (serving,), sheet),
        call_ensures(stopped, (carrier,), said),
    ensures
        sheet.heading@ == seq![
            rows::plain("tetanus serving on "@),
            (Role::Accent, serving.carrier.named()),
        ],
        paint::fields_of(sheet.fields@) == serving_rows(*serving),
        sheet.note matches Some(note) && note@ == "end with "@ + serving.carrier.stops(),
        said@ == carrier.ended() + ", so the server stopped"@,
{
}

} // verus!
