//! The mathematical model of tokenization.
//!
//! An [`EvModel`] is the abstract shape of one decoded lexical event. The
//! functions here say, for every event and tokenizer state, exactly which
//! tokens and state markers are emitted, how nesting depth and the
//! whitespace-preservation scope change, and when tokenization halts. The
//! executable tokenizer is proved to follow [`run_tokens`] / [`run_markers`]
//! over the event stream named by [`crate::decoder::event_at`].

use vstd::prelude::*;
use vstd::utf8::decode_utf8;
use vstd::utf8::valid_utf8;

use crate::decoder::attrs_html;
use crate::decoder::attrs_strict;
use crate::decoder::event_at;
use crate::decoder::offset_after;
use crate::decoder::position_after;
use crate::text::bad_utf8_reason;
use crate::text::error_value;
use crate::text::ws_only_bytes;
use crate::State;
use crate::Token;

verus! {

/// Abstract form of one token: kind, decoded text, optional attribute value.
pub struct TokenModel {
    /// The token kind.
    pub kind: Token,
    /// The decoded text of the token.
    pub value: Seq<char>,
    /// The attribute value, present exactly on `TagAttribute` tokens.
    pub detail: Option<Seq<char>>,
}

/// Abstract form of one parser-state marker.
pub struct StateModel {
    /// The marker kind.
    pub kind: State,
    /// Byte offset in the source at which the state began.
    pub position: nat,
}

/// Abstract form of one decoded lexical event, as handed over by the event
/// decoder: payloads are raw (undecoded) byte runs. A `Start`/`Empty` event
/// carries the whole tag content and the length of the leading name.
pub enum EvModel {
    /// XML declaration content.
    Decl(Seq<u8>),
    /// Doctype content.
    Doctype(Seq<u8>),
    /// Processing-instruction content.
    Instruction(Seq<u8>),
    /// Start tag: content bytes and name length.
    Start(Seq<u8>, nat),
    /// Self-closing tag: content bytes and name length.
    Empty(Seq<u8>, nat),
    /// End tag: name bytes.
    End(Seq<u8>),
    /// Text run between tags, escaped as in the source.
    Text(Seq<u8>),
    /// CDATA content.
    CData(Seq<u8>),
    /// Comment content.
    Comment(Seq<u8>),
    /// End of the byte stream.
    Eof,
    /// Decoder failure, with its description.
    Fail(Seq<char>),
}

/// Tokenizer state: current nesting depth and the depth at which whitespace
/// preservation was last switched on (0 when off).
pub struct TkState {
    /// Count of currently open, unmatched start tags.
    pub depth: int,
    /// Depth of the active `xml:space="preserve"` scope; 0 means none.
    pub preserve: int,
}

/// The state before any event.
pub open spec fn init_state() -> TkState {
    TkState { depth: 0, preserve: 0 }
}

/// Everything one event produces: tokens, leftover state markers, whether
/// tokenization halts after it, and the next tokenizer state.
pub struct EvOut {
    /// Tokens appended for this event, in order.
    pub tokens: Seq<TokenModel>,
    /// State markers left in the marker output by this event.
    pub markers: Seq<StateModel>,
    /// Whether tokenization stops after this event.
    pub halt: bool,
    /// The tokenizer state after this event.
    pub next: TkState,
}

/// Everything a start or empty tag produces, before depth bookkeeping.
pub struct TagOut {
    /// Tokens appended for this tag, in order.
    pub tokens: Seq<TokenModel>,
    /// State markers left behind; always empty, since the attribute-parsing
    /// marker is pushed when attribute parsing begins and popped again before
    /// the tag's emission ends, also when tokenization halts inside it.
    pub markers: Seq<StateModel>,
    /// Whether tokenization stops inside this tag.
    pub halt: bool,
    /// Whether an `xml:space="preserve"` attribute was enumerated.
    pub preserve_found: bool,
}

/// A token without attribute detail.
pub open spec fn tok(kind: Token, value: Seq<char>) -> TokenModel {
    TokenModel { kind, value, detail: None }
}

/// An attribute token: key as value, attribute value as detail.
pub open spec fn attr_tok(k: Seq<char>, v: Seq<char>) -> TokenModel {
    TokenModel { kind: Token::TagAttribute, value: k, detail: Some(v) }
}

/// An error token for a failure at byte offset `pos`.
pub open spec fn err_tok(pos: nat, reason: Seq<char>) -> TokenModel {
    tok(Token::Error, error_value(pos, reason))
}

/// An attribute-parsing marker at byte offset `pos`.
pub open spec fn marker(pos: nat) -> StateModel {
    StateModel { kind: State::ParseAttribute, position: pos }
}

/// The key bytes `xml:space`.
pub open spec fn xml_space_key() -> Seq<u8> {
    seq![120u8, 109u8, 108u8, 58u8, 115u8, 112u8, 97u8, 99u8, 101u8]
}

/// The value bytes `preserve`.
pub open spec fn preserve_value() -> Seq<u8> {
    seq![112u8, 114u8, 101u8, 115u8, 101u8, 114u8, 118u8, 101u8]
}

/// Whether the enumerated attribute pairs contain `xml:space="preserve"`.
pub open spec fn has_preserve(pairs: Seq<(Seq<u8>, Seq<u8>)>) -> bool {
    exists|i: int|
        0 <= i < pairs.len() && pairs[i].0 == xml_space_key() && pairs[i].1 == preserve_value()
}

/// Depth increment, saturating at the machine bound.
pub open spec fn sat_inc(d: int) -> int {
    if d < i64::MAX {
        d + 1
    } else {
        d
    }
}

/// Depth decrement, saturating at the machine bound.
pub open spec fn sat_dec(d: int) -> int {
    if d > i64::MIN {
        d - 1
    } else {
        d
    }
}

/// Tokens for one event that simply decodes its payload into one token of a
/// fixed kind (declaration, doctype, instruction, CDATA, comment), and
/// whether that fails.
pub open spec fn plain_out(kind: Token, b: Seq<u8>, pos: nat) -> (Seq<TokenModel>, bool) {
    if valid_utf8(b) {
        (seq![tok(kind, decode_utf8(b))], false)
    } else {
        (seq![err_tok(pos, bad_utf8_reason())], true)
    }
}

/// Tokens for a text event under the whitespace policy: text outside any
/// element is dropped; whitespace-only text is dropped unless the current
/// depth lies inside the preservation scope (`depth <= preserve`).
pub open spec fn text_out(depth: int, preserve: int, b: Seq<u8>, pos: nat) -> (
    Seq<TokenModel>,
    bool,
) {
    if depth == 0 {
        (seq![], false)
    } else if !valid_utf8(b) {
        (seq![err_tok(pos, bad_utf8_reason())], true)
    } else if depth > preserve && ws_only_bytes(b) {
        (seq![], false)
    } else {
        (seq![tok(Token::Text, decode_utf8(b))], false)
    }
}

/// Attribute tokens for the enumerated pairs from index `i` on: one
/// `TagAttribute` token per pair in source order, stopping with an error
/// token at the first pair whose key or value is not valid UTF-8. The second
/// component is false exactly when that happened.
pub open spec fn attr_tokens_from(pairs: Seq<(Seq<u8>, Seq<u8>)>, pos: nat, i: int) -> (
    Seq<TokenModel>,
    bool,
)
    decreases pairs.len() - i,
{
    if i < 0 || i >= pairs.len() {
        (seq![], true)
    } else {
        let k = pairs[i].0;
        let v = pairs[i].1;
        if valid_utf8(k) && valid_utf8(v) {
            let rest = attr_tokens_from(pairs, pos, i + 1);
            (seq![attr_tok(decode_utf8(k), decode_utf8(v))] + rest.0, rest.1)
        } else {
            (seq![err_tok(pos, bad_utf8_reason())], false)
        }
    }
}

/// Attribute tokens for all enumerated pairs of one tag.
pub open spec fn attr_tokens(pairs: Seq<(Seq<u8>, Seq<u8>)>, pos: nat) -> (Seq<TokenModel>, bool) {
    attr_tokens_from(pairs, pos, 0)
}

/// Everything a start or empty tag emits: a `TagOpen` token, one attribute
/// token per enumerated pair, for an empty tag a closing `TagClose`, and on
/// any failure a final error token. The attribute-parsing marker is pushed
/// and popped within the tag, so none is left behind.
pub open spec fn tag_out(content: Seq<u8>, name_len: nat, pos: nat, html: bool, is_empty: bool) -> TagOut {
    let name = content.subrange(0, name_len as int);
    if !valid_utf8(name) {
        TagOut {
            tokens: seq![err_tok(pos, bad_utf8_reason())],
            markers: seq![],
            halt: true,
            preserve_found: false,
        }
    } else {
        let a = if html {
            attrs_html(content, name_len)
        } else {
            attrs_strict(content, name_len)
        };
        let open = tok(Token::TagOpen, decode_utf8(name));
        let at = attr_tokens(a.0, pos);
        if !at.1 {
            TagOut {
                tokens: seq![open] + at.0,
                markers: seq![],
                halt: true,
                preserve_found: false,
            }
        } else if a.1 is Some {
            TagOut {
                tokens: seq![open] + at.0 + seq![err_tok(pos, a.1.unwrap())],
                markers: seq![],
                halt: true,
                preserve_found: false,
            }
        } else if is_empty {
            TagOut {
                tokens: seq![open] + at.0 + seq![tok(Token::TagClose, decode_utf8(name))],
                markers: seq![],
                halt: false,
                preserve_found: has_preserve(a.0),
            }
        } else {
            TagOut {
                tokens: seq![open] + at.0,
                markers: seq![],
                halt: false,
                preserve_found: has_preserve(a.0),
            }
        }
    }
}

/// The full effect of one event on the tokenizer.
pub open spec fn ev_step(st: TkState, ev: EvModel, pos: nat, html: bool) -> EvOut {
    match ev {
        EvModel::Eof => EvOut { tokens: seq![], markers: seq![], halt: true, next: st },
        EvModel::Fail(msg) => EvOut {
            tokens: seq![err_tok(pos, msg)],
            markers: seq![],
            halt: true,
            next: st,
        },
        EvModel::Decl(b) => plain_ev(st, Token::XMLDeclaration, b, pos),
        EvModel::Doctype(b) => plain_ev(st, Token::XMLDoctype, b, pos),
        EvModel::Instruction(b) => plain_ev(st, Token::XMLInstruction, b, pos),
        EvModel::CData(b) => plain_ev(st, Token::CData, b, pos),
        EvModel::Comment(b) => plain_ev(st, Token::Comment, b, pos),
        EvModel::Text(b) => {
            let r = text_out(st.depth, st.preserve, b, pos);
            EvOut { tokens: r.0, markers: seq![], halt: r.1, next: st }
        },
        EvModel::End(nm) => end_ev(st, nm, pos),
        EvModel::Start(c, nl) => start_ev(st, c, nl, pos, html),
        EvModel::Empty(c, nl) => empty_ev(st, c, nl, pos, html),
    }
}

/// Step for the single-token event kinds.
pub open spec fn plain_ev(st: TkState, kind: Token, b: Seq<u8>, pos: nat) -> EvOut {
    let r = plain_out(kind, b, pos);
    EvOut { tokens: r.0, markers: seq![], halt: r.1, next: st }
}

/// Step for an end tag: one `TagClose` token, depth decreases, and the
/// preservation scope is cleared when the new depth reaches it.
pub open spec fn end_ev(st: TkState, nm: Seq<u8>, pos: nat) -> EvOut {
    if !valid_utf8(nm) {
        EvOut {
            tokens: seq![err_tok(pos, bad_utf8_reason())],
            markers: seq![],
            halt: true,
            next: st,
        }
    } else {
        let d2 = sat_dec(st.depth);
        let p2 = if d2 == st.preserve {
            0
        } else {
            st.preserve
        };
        EvOut {
            tokens: seq![tok(Token::TagClose, decode_utf8(nm))],
            markers: seq![],
            halt: false,
            next: TkState { depth: d2, preserve: p2 },
        }
    }
}

/// Step for a start tag: the tag's tokens, then depth increases and — when an
/// `xml:space="preserve"` attribute was enumerated — the preservation scope
/// becomes the new depth.
pub open spec fn start_ev(st: TkState, content: Seq<u8>, name_len: nat, pos: nat, html: bool) -> EvOut {
    let out = tag_out(content, name_len, pos, html, false);
    let next = if out.halt {
        st
    } else {
        let d2 = sat_inc(st.depth);
        TkState {
            depth: d2,
            preserve: if out.preserve_found {
                d2
            } else {
                st.preserve
            },
        }
    };
    EvOut { tokens: out.tokens, markers: out.markers, halt: out.halt, next }
}

/// Step for a self-closing tag: like a start tag followed directly by its
/// close, with no lasting change to depth or preservation scope.
pub open spec fn empty_ev(st: TkState, content: Seq<u8>, name_len: nat, pos: nat, html: bool) -> EvOut {
    let out = tag_out(content, name_len, pos, html, true);
    EvOut { tokens: out.tokens, markers: out.markers, halt: out.halt, next: st }
}

/// Tokenizer state after the first `n` events.
pub open spec fn run_state(bytes: Seq<u8>, strict: bool, html: bool, n: nat) -> TkState
    decreases n,
{
    if n == 0 {
        init_state()
    } else {
        ev_step(
            run_state(bytes, strict, html, (n - 1) as nat),
            event_at(bytes, strict, (n - 1) as nat),
            position_after(bytes, strict, n),
            html,
        ).next
    }
}

/// The step taken for event number `i` of the stream of `bytes`.
pub open spec fn step_at(bytes: Seq<u8>, strict: bool, html: bool, i: nat) -> EvOut {
    ev_step(
        run_state(bytes, strict, html, i),
        event_at(bytes, strict, i),
        position_after(bytes, strict, i + 1),
        html,
    )
}

/// All tokens emitted by the first `n` events.
pub open spec fn run_tokens(bytes: Seq<u8>, strict: bool, html: bool, n: nat) -> Seq<TokenModel>
    decreases n,
{
    if n == 0 {
        seq![]
    } else {
        run_tokens(bytes, strict, html, (n - 1) as nat) + step_at(
            bytes,
            strict,
            html,
            (n - 1) as nat,
        ).tokens
    }
}

/// All state markers left by the first `n` events.
pub open spec fn run_markers(bytes: Seq<u8>, strict: bool, html: bool, n: nat) -> Seq<StateModel>
    decreases n,
{
    if n == 0 {
        seq![]
    } else {
        run_markers(bytes, strict, html, (n - 1) as nat) + step_at(
            bytes,
            strict,
            html,
            (n - 1) as nat,
        ).markers
    }
}

/// Whether tokenization halts on event number `i`.
pub open spec fn halts_at(bytes: Seq<u8>, strict: bool, html: bool, i: nat) -> bool {
    step_at(bytes, strict, html, i).halt
}

/// Event number `n` is the first halting event of the stream.
pub open spec fn complete_run(bytes: Seq<u8>, strict: bool, html: bool, n: nat) -> bool {
    &&& halts_at(bytes, strict, html, n)
    &&& forall|i: nat| i < n ==> !halts_at(bytes, strict, html, i)
}

/// How much of the byte buffer is left unconsumed after `idx` events: an
/// upper bound on the events still to come, since every further event
/// consumes at least one byte. Used as the tokenizer loop's termination
/// measure.
pub open spec fn fuel_left(bytes: Seq<u8>, strict: bool, idx: nat) -> int {
    if offset_after(bytes, strict, idx) <= bytes.len() {
        bytes.len() - offset_after(bytes, strict, idx)
    } else {
        0
    }
}

/// The markup mode encoded by the optional flag: permissive (HTML-like) only
/// when the flag is `Some(true)`.
pub open spec fn html_mode(flag: Option<bool>) -> bool {
    flag == Some(true)
}

/// The output of the complete run of length `n + 1`: event `n` is the first
/// halting one, and the tokens and markers are those of events `0 ..= n`.
pub open spec fn complete_output(
    bytes: Seq<u8>,
    flag: Option<bool>,
    n: nat,
    toks: Seq<TokenModel>,
    marks: Seq<StateModel>,
) -> bool {
    let html = html_mode(flag);
    let strict = !html;
    &&& complete_run(bytes, strict, html, n)
    &&& toks == run_tokens(bytes, strict, html, n + 1)
    &&& marks == run_markers(bytes, strict, html, n + 1)
}

/// What tokenizing the bytes of a source produces: the tokens and markers of
/// the events up to and including the first halting one.
pub open spec fn tokenize_post(
    bytes: Seq<u8>,
    flag: Option<bool>,
    toks: Seq<TokenModel>,
    marks: Seq<StateModel>,
) -> bool {
    exists|n: nat| #[trigger] complete_output(bytes, flag, n, toks, marks)
}

/// The output when the byte source itself failed before decoding could run:
/// a single error token wrapping the source's message, and no markers.
pub open spec fn read_failed_post(toks: Seq<TokenModel>, marks: Seq<StateModel>) -> bool {
    &&& marks.len() == 0
    &&& toks.len() == 1
    &&& exists|m: Seq<char>| toks[0] == err_tok(0, crate::text::read_fail_reason(m))
}

/// View of a token list.
pub open spec fn toks_view(s: Seq<crate::TokenRecord>) -> Seq<TokenModel> {
    s.map_values(|t: crate::TokenRecord| t@)
}

/// View of a marker list.
pub open spec fn marks_view(s: Seq<crate::StateRecord>) -> Seq<StateModel> {
    s.map_values(|m: crate::StateRecord| m@)
}

} // verus!
