use vstd::prelude::*;
use crate::common::sourcemap::SourceMap;
use crate::compiler::CompileMessageType;

verus! {

/// A message of the compiler about a span of source, with notes.
pub struct CompileMessage {
    pub ty: CompileMessageType,
    pub source: SourceMap,
    pub message: String,
    pub notes: Vec<CompileMessage>,
}

/// The text of a message that expected `what` `link` `place`, naming the
/// token found instead when there is one.
pub open spec fn expected_text(what: Seq<char>, link: Seq<char>, place: Seq<char>, found: Option<Seq<char>>) -> Seq<char> {
    let base = "expected "@ + what + link + place;
    match found {
        Some(t) => base + ", got token: "@ + t,
        None => base,
    }
}

fn expected_message(what: &str, link: &str, place: &str, found: Option<&str>) -> (r: String)
    ensures
        r@ == expected_text(what@, link@, place@, match found {
            Some(t) => Some(t@),
            None => None,
        }),
{
    let mut s = String::from_str("expected ");
    s.append(what);
    s.append(link);
    s.append(place);
    match found {
        Some(t) => {
            s.append(", got token: ");
            s.append(t);
        },
        None => {},
    }
    s
}

impl CompileMessage {
    pub fn new(src: SourceMap, msg: String, ty: CompileMessageType) -> (r: Self)
        ensures
            r.source == src,
            r.message == msg,
            r.ty == ty,
            r.notes@.len() == 0,
    {
        CompileMessage { source: src, message: msg, notes: Vec::new(), ty }
    }

    /// An error saying that `what` was expected after `after`; `next_token`
    /// names the token found instead, if any.
    pub fn expected_token_error(src: SourceMap, what: &str, after: &str, next_token: Option<&str>) -> (r: Self)
        ensures
            r.source == src,
            r.ty == CompileMessageType::Error,
            r.message@ == expected_text(what@, " after "@, after@, match next_token {
                Some(t) => Some(t@),
                None => None,
            }),
            r.notes@.len() == 0,
    {
        let msg = expected_message(what, " after ", after, next_token);
        CompileMessage::new(src, msg, CompileMessageType::Error)
    }

    /// An error saying that `what` was expected in `in_`; `next_token` names
    /// the token found instead, if any.
    pub fn expected_token_in_error(src: SourceMap, what: &str, in_: &str, next_token: Option<&str>) -> (r: Self)
        ensures
            r.source == src,
            r.ty == CompileMessageType::Error,
            r.message@ == expected_text(what@, " in "@, in_@, match next_token {
                Some(t) => Some(t@),
                None => None,
            }),
            r.notes@.len() == 0,
    {
        let msg = expected_message(what, " in ", in_, next_token);
        CompileMessage::new(src, msg, CompileMessageType::Error)
    }

    /// An informational message.
    pub fn note(src: SourceMap, msg: String) -> (r: Self)
        ensures
            r.source == src,
            r.message == msg,
            r.ty == CompileMessageType::Info,
            r.notes@.len() == 0,
    {
        CompileMessage { source: src, message: msg, notes: Vec::new(), ty: CompileMessageType::Info }
    }

    /// The message with `msg` added as its last note.
    pub fn add_note(self, msg: CompileMessage) -> (r: Self)
        ensures
            r.ty == self.ty,
            r.source == self.source,
            r.message == self.message,
            r.notes@ == self.notes@.push(msg),
    {
        let mut m = self;
        m.notes.push(msg);
        m
    }
}

} // verus!

verus! {

/// A note of a message, as plain values.
pub struct NoteV {
    pub ty: CompileMessageType,
    pub source: SourceMap,
    pub text: Seq<char>,
}

/// A message as plain values: its kind, its span, its text and its notes.
pub struct MsgV {
    pub ty: CompileMessageType,
    pub source: SourceMap,
    pub text: Seq<char>,
    pub notes: Seq<NoteV>,
}

pub open spec fn note_view(m: CompileMessage) -> NoteV {
    NoteV { ty: m.ty, source: m.source, text: m.message@ }
}

/// The message as plain values.
pub open spec fn msg_view(m: CompileMessage) -> MsgV {
    MsgV { ty: m.ty, source: m.source, text: m.message@, notes: m.notes@.map_values(|n: CompileMessage| note_view(n)) }
}

/// The messages as plain values.
pub open spec fn msgs_view(ms: Seq<CompileMessage>) -> Seq<MsgV> {
    ms.map_values(|m: CompileMessage| msg_view(m))
}

/// An error without notes.
pub open spec fn error_msg(source: SourceMap, text: Seq<char>) -> MsgV {
    MsgV { ty: CompileMessageType::Error, source, text, notes: Seq::empty() }
}

/// Adding a message to a list of messages adds its view to their views.
pub proof fn lemma_msgs_push(ms: Seq<CompileMessage>, m: CompileMessage)
    ensures
        msgs_view(ms.push(m)) == msgs_view(ms).push(msg_view(m)),
{
    assert(msgs_view(ms.push(m)) =~= msgs_view(ms).push(msg_view(m)));
}

/// Adds a message at the end of the list.
pub fn emit(msgs: &mut Vec<CompileMessage>, m: CompileMessage)
    ensures
        msgs_view(final(msgs)@) == msgs_view(old(msgs)@).push(msg_view(m)),
{
    proof {
        lemma_msgs_push(msgs@, m);
    }
    msgs.push(m);
}

} // verus!
