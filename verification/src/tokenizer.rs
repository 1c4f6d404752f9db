//! The tokenizer state machine: pulls decoded events in a loop, classifies
//! each into tokens under the whitespace and attribute policies, tracks
//! nesting depth and the whitespace-preservation scope, and stops at
//! end-of-stream or on the first decode failure, which becomes the final
//! `Error` token.

use vstd::prelude::*;

use crate::decoder::decode_bytes;
use crate::decoder::decoder_bytes;
use crate::decoder::decoder_idx;
use crate::decoder::decoder_new;
use crate::decoder::decoder_strict;
use crate::decoder::pairs_view;
use crate::decoder::parse_attrs_html;
use crate::decoder::parse_attrs_strict;
use crate::decoder::position;
use crate::decoder::read_event;
use crate::decoder::AttrPair;
use crate::decoder::Decoder;
use crate::decoder::RawEvent;
use crate::model::attr_tokens_from;
use crate::model::complete_run;
use crate::model::err_tok;
use crate::model::ev_step;
use crate::model::fuel_left;
use crate::model::halts_at;
use crate::model::has_preserve;
use crate::model::html_mode;
use crate::model::marks_view;
use crate::model::plain_out;
use crate::model::preserve_value;
use crate::model::run_markers;
use crate::model::run_state;
use crate::model::run_tokens;
use crate::model::step_at;
use crate::model::tag_out;
use crate::model::text_out;
use crate::model::tokenize_post;
use crate::model::toks_view;
use crate::model::xml_space_key;
use crate::model::EvModel;
use crate::model::TkState;
use crate::source::read_all;
use crate::source::ByteReader;
use crate::text::error_message;
use crate::text::push_str;
use crate::text::whitespace_only;
use crate::State;
use crate::StateRecord;
use crate::Token;
use crate::TokenRecord;

verus! {

/// Copy the byte range `[a, b)` out of a buffer.
fn vec_subrange(v: &Vec<u8>, a: usize, b: usize) -> (r: Vec<u8>)
    requires
        a <= b <= v@.len(),
    ensures
        r@ == v@.subrange(a as int, b as int),
{
    let mut r: Vec<u8> = Vec::new();
    let mut i: usize = a;
    while i < b
        invariant
            a <= i <= b <= v@.len(),
            r@ =~= v@.subrange(a as int, i as int),
        decreases b - i,
    {
        r.push(v[i]);
        i += 1;
    }
    proof {
        assert(r@ =~= v@.subrange(a as int, b as int));
    }
    r
}

/// An `Error` token for a failure at byte offset `pos`.
fn error_record(pos: usize, reason: &str) -> (r: TokenRecord)
    ensures
        r@ == err_tok(pos as nat, reason@),
{
    TokenRecord { kind: Token::Error, value: error_message(pos, reason), detail: None }
}

/// Append the single token of a declaration, doctype, instruction, CDATA or
/// comment event, or the error token when its payload is not valid UTF-8.
fn push_plain(dec: &Decoder, kind: Token, b: &Vec<u8>, pos: usize, toks: &mut Vec<TokenRecord>) -> (halt:
    bool)
    ensures
        toks_view(final(toks)@) == toks_view(old(toks)@) + plain_out(kind, b@, pos as nat).0,
        halt == plain_out(kind, b@, pos as nat).1,
{
    let ghost t0 = toks@;
    match decode_bytes(dec, b) {
        Some(s) => {
            toks.push(TokenRecord { kind, value: s, detail: None });
            proof {
                assert(toks_view(toks@) =~= toks_view(t0) + plain_out(kind, b@, pos as nat).0);
            }
            false
        },
        None => {
            toks.push(error_record(pos, "invalid UTF-8"));
            proof {
                assert(toks_view(toks@) =~= toks_view(t0) + plain_out(kind, b@, pos as nat).0);
            }
            true
        },
    }
}

/// Append the token of a text event under the whitespace policy, or nothing
/// when the text is discarded, or the error token when it is not valid UTF-8.
fn push_text(
    dec: &Decoder,
    b: &Vec<u8>,
    pos: usize,
    depth: i64,
    preserve: i64,
    toks: &mut Vec<TokenRecord>,
) -> (halt: bool)
    ensures
        toks_view(final(toks)@) == toks_view(old(toks)@) + text_out(
            depth as int,
            preserve as int,
            b@,
            pos as nat,
        ).0,
        halt == text_out(depth as int, preserve as int, b@, pos as nat).1,
{
    let ghost t0 = toks@;
    let ghost out = text_out(depth as int, preserve as int, b@, pos as nat);
    if depth == 0 {
        proof {
            assert(toks_view(toks@) =~= toks_view(t0) + out.0);
        }
        return false;
    }
    match decode_bytes(dec, b) {
        None => {
            toks.push(error_record(pos, "invalid UTF-8"));
            proof {
                assert(toks_view(toks@) =~= toks_view(t0) + out.0);
            }
            true
        },
        Some(s) => {
            if depth > preserve && whitespace_only(b) {
                proof {
                    assert(toks_view(toks@) =~= toks_view(t0) + out.0);
                }
                false
            } else {
                toks.push(TokenRecord { kind: Token::Text, value: s, detail: None });
                proof {
                    assert(toks_view(toks@) =~= toks_view(t0) + out.0);
                }
                false
            }
        },
    }
}

/// Whether these are exactly the key bytes `xml:space`.
fn is_xml_space(k: &Vec<u8>) -> (r: bool)
    ensures
        r == (k@ == xml_space_key()),
{
    proof {
        assert(xml_space_key().len() == 9);
    }
    if k.len() != 9 {
        return false;
    }
    let eq = k[0] == 120 && k[1] == 109 && k[2] == 108 && k[3] == 58 && k[4] == 115 && k[5] == 112
        && k[6] == 97 && k[7] == 99 && k[8] == 101;
    proof {
        if eq {
            assert(k@ =~= xml_space_key());
        }
    }
    eq
}

/// Whether these are exactly the value bytes `preserve`.
fn is_preserve_val(v: &Vec<u8>) -> (r: bool)
    ensures
        r == (v@ == preserve_value()),
{
    proof {
        assert(preserve_value().len() == 8);
    }
    if v.len() != 8 {
        return false;
    }
    let eq = v[0] == 112 && v[1] == 114 && v[2] == 101 && v[3] == 115 && v[4] == 101 && v[5] == 114
        && v[6] == 118 && v[7] == 101;
    proof {
        if eq {
            assert(v@ =~= preserve_value());
        }
    }
    eq
}

/// Whether the enumerated attributes contain `xml:space="preserve"`.
fn find_preserve(pairs: &Vec<AttrPair>) -> (r: bool)
    ensures
        r == has_preserve(pairs_view(pairs@)),
{
    let mut i: usize = 0;
    while i < pairs.len()
        invariant
            i <= pairs@.len(),
            forall|j: int|
                0 <= j < i ==> !(pairs_view(pairs@)[j].0 == xml_space_key() && pairs_view(
                    pairs@,
                )[j].1 == preserve_value()),
        decreases pairs@.len() - i,
    {
        if is_xml_space(&pairs[i].key) && is_preserve_val(&pairs[i].value) {
            proof {
                assert(pairs_view(pairs@)[i as int].0 == xml_space_key());
                assert(pairs_view(pairs@)[i as int].1 == preserve_value());
            }
            return true;
        }
        i += 1;
    }
    false
}

/// Append one `TagAttribute` token per enumerated pair from index `i` on, in
/// source order, stopping with an error token at the first pair whose key or
/// value is not valid UTF-8; returns whether all pairs decoded.
fn emit_attrs(
    dec: &Decoder,
    pairs: &Vec<AttrPair>,
    i: usize,
    pos: usize,
    toks: &mut Vec<TokenRecord>,
) -> (ok: bool)
    requires
        i <= pairs@.len(),
    ensures
        toks_view(final(toks)@) == toks_view(old(toks)@) + attr_tokens_from(
            pairs_view(pairs@),
            pos as nat,
            i as int,
        ).0,
        ok == attr_tokens_from(pairs_view(pairs@), pos as nat, i as int).1,
    decreases pairs@.len() - i,
{
    let ghost t0 = toks@;
    let ghost rest = attr_tokens_from(pairs_view(pairs@), pos as nat, i as int);
    if i == pairs.len() {
        proof {
            assert(toks_view(toks@) =~= toks_view(t0) + rest.0);
        }
        return true;
    }
    let k = decode_bytes(dec, &pairs[i].key);
    let v = decode_bytes(dec, &pairs[i].value);
    match (k, v) {
        (Some(ks), Some(vs)) => {
            proof {
                assert(pairs_view(pairs@)[i as int] == (pairs@[i as int].key@, pairs@[
                    i as int
                ].value@));
            }
            toks.push(TokenRecord { kind: Token::TagAttribute, value: ks, detail: Some(vs) });
            let ghost t1 = toks@;
            let ok = emit_attrs(dec, pairs, i + 1, pos, toks);
            proof {
                assert(toks_view(t1) =~= toks_view(t0).push(
                    crate::model::attr_tok(
                        vstd::utf8::decode_utf8(pairs_view(pairs@)[i as int].0),
                        vstd::utf8::decode_utf8(pairs_view(pairs@)[i as int].1),
                    ),
                ));
                assert(toks_view(toks@) =~= toks_view(t0) + rest.0);
            }
            ok
        },
        _ => {
            toks.push(error_record(pos, "invalid UTF-8"));
            proof {
                assert(pairs_view(pairs@)[i as int] == (pairs@[i as int].key@, pairs@[
                    i as int
                ].value@));
                assert(toks_view(toks@) =~= toks_view(t0) + rest.0);
            }
            false
        },
    }
}

/// Append everything a start or empty tag emits — `TagOpen`, its attribute
/// tokens in order, for an empty tag the closing `TagClose` — pushing the
/// attribute-parsing marker while attributes are enumerated and popping it
/// again afterwards, also when tokenization halts during attribute parsing.
/// Returns whether tokenization halts and whether `xml:space="preserve"` was
/// enumerated.
fn push_tag(
    dec: &Decoder,
    content: &Vec<u8>,
    name_len: usize,
    pos: usize,
    html: bool,
    is_empty: bool,
    toks: &mut Vec<TokenRecord>,
    marks: &mut Vec<StateRecord>,
) -> (r: (bool, bool))
    requires
        name_len <= content@.len(),
    ensures
        ({
            let out = tag_out(content@, name_len as nat, pos as nat, html, is_empty);
            &&& toks_view(final(toks)@) == toks_view(old(toks)@) + out.tokens
            &&& marks_view(final(marks)@) == marks_view(old(marks)@) + out.markers
            &&& r.0 == out.halt
            &&& r.1 == out.preserve_found
        }),
{
    let ghost t0 = toks@;
    let ghost m0 = marks@;
    let ghost out = tag_out(content@, name_len as nat, pos as nat, html, is_empty);
    let ghost name_spec = content@.subrange(0, name_len as int);
    let name = vec_subrange(content, 0, name_len);
    match decode_bytes(dec, &name) {
        None => {
            toks.push(error_record(pos, "invalid UTF-8"));
            proof {
                assert(toks_view(toks@) =~= toks_view(t0) + out.tokens);
                assert(marks_view(marks@) =~= marks_view(m0) + out.markers);
            }
            (true, false)
        },
        Some(nm) => {
            let ghost a = if html {
                crate::decoder::attrs_html(content@, name_len as nat)
            } else {
                crate::decoder::attrs_strict(content@, name_len as nat)
            };
            let ghost at = crate::model::attr_tokens(a.0, pos as nat);
            let close_name = if is_empty {
                Some(nm.clone())
            } else {
                None
            };
            toks.push(TokenRecord { kind: Token::TagOpen, value: nm, detail: None });
            let ghost t1 = toks@;
            marks.push(StateRecord { kind: State::ParseAttribute, position: pos });
            let ghost m1 = marks@;
            proof {
                assert(toks_view(t1) =~= toks_view(t0).push(
                    crate::model::tok(
                        Token::TagOpen,
                        vstd::utf8::decode_utf8(name_spec),
                    ),
                ));
                assert(marks_view(m1) =~= marks_view(m0).push(crate::model::marker(pos as nat)));
            }
            let parsed = if html {
                parse_attrs_html(content, name_len)
            } else {
                parse_attrs_strict(content, name_len)
            };
            let pairs = parsed.0;
            proof {
                assert(pairs_view(pairs@) == a.0);
            }
            let ok = emit_attrs(dec, &pairs, 0, pos, toks);
            if !ok {
                marks.pop();
                proof {
                    assert(marks@ =~= m0);
                    assert(toks_view(toks@) =~= toks_view(t1) + at.0);
                    assert(toks_view(toks@) =~= toks_view(t0) + out.tokens);
                    assert(marks_view(marks@) =~= marks_view(m0) + out.markers);
                }
                return (true, false);
            }
            match parsed.1 {
                Some(m) => {
                    let ghost t2 = toks@;
                    toks.push(error_record(pos, m.as_str()));
                    marks.pop();
                    proof {
                        assert(marks@ =~= m0);
                        assert(a.1 == Some(m@));
                        assert(toks_view(t2) =~= toks_view(t1) + at.0);
                        assert(toks_view(toks@) =~= toks_view(t2).push(err_tok(pos as nat, m@)));
                        assert(toks_view(toks@) =~= toks_view(t0) + out.tokens);
                        assert(marks_view(marks@) =~= marks_view(m0) + out.markers);
                    }
                    (true, false)
                },
                None => {
                    marks.pop();
                    proof {
                        assert(marks@ =~= m0);
                        assert(marks_view(marks@) =~= marks_view(m0) + out.markers);
                    }
                    match close_name {
                        Some(cn) => {
                            let ghost t2 = toks@;
                            toks.push(
                                TokenRecord { kind: Token::TagClose, value: cn, detail: None },
                            );
                            proof {
                                assert(toks_view(t2) =~= toks_view(t1) + at.0);
                                assert(toks_view(toks@) =~= toks_view(t2).push(
                                    crate::model::tok(
                                        Token::TagClose,
                                        vstd::utf8::decode_utf8(name_spec),
                                    ),
                                ));
                                assert(toks_view(toks@) =~= toks_view(t0) + out.tokens);
                            }
                        },
                        None => {
                            proof {
                                assert(toks_view(toks@) =~= toks_view(t1) + at.0);
                                assert(toks_view(toks@) =~= toks_view(t0) + out.tokens);
                            }
                        },
                    }
                    let pres = find_preserve(&pairs);
                    (false, pres)
                },
            }
        },
    }
}

/// Apply one decoded event to the tokenizer state: append its tokens and
/// markers, update depth and preservation scope, and report whether
/// tokenization halts.
fn apply_event(
    dec: &Decoder,
    ev: RawEvent,
    pos: usize,
    html: bool,
    depth: &mut i64,
    preserve: &mut i64,
    toks: &mut Vec<TokenRecord>,
    marks: &mut Vec<StateRecord>,
) -> (halt: bool)
    requires
        ev@ matches EvModel::Start(c, n) ==> n <= c.len(),
        ev@ matches EvModel::Empty(c, n) ==> n <= c.len(),
    ensures
        ({
            let out = ev_step(
                TkState { depth: *old(depth) as int, preserve: *old(preserve) as int },
                ev@,
                pos as nat,
                html,
            );
            &&& toks_view(final(toks)@) == toks_view(old(toks)@) + out.tokens
            &&& marks_view(final(marks)@) == marks_view(old(marks)@) + out.markers
            &&& halt == out.halt
            &&& out.next == (TkState {
                depth: *final(depth) as int,
                preserve: *final(preserve) as int,
            })
        }),
{
    let ghost st0 = TkState { depth: *depth as int, preserve: *preserve as int };
    let ghost out = ev_step(st0, ev@, pos as nat, html);
    let ghost t0 = toks@;
    let ghost m0 = marks@;
    match ev {
        RawEvent::Eof => {
            proof {
                assert(toks_view(toks@) =~= toks_view(t0) + out.tokens);
                assert(marks_view(marks@) =~= marks_view(m0) + out.markers);
            }
            true
        },
        RawEvent::Fail(msg) => {
            toks.push(error_record(pos, msg.as_str()));
            proof {
                assert(toks_view(toks@) =~= toks_view(t0) + out.tokens);
                assert(marks_view(marks@) =~= marks_view(m0) + out.markers);
            }
            true
        },
        RawEvent::Decl(b) => {
            let halt = push_plain(dec, Token::XMLDeclaration, &b, pos, toks);
            proof {
                assert(marks_view(marks@) =~= marks_view(m0) + out.markers);
            }
            halt
        },
        RawEvent::Doctype(b) => {
            let halt = push_plain(dec, Token::XMLDoctype, &b, pos, toks);
            proof {
                assert(marks_view(marks@) =~= marks_view(m0) + out.markers);
            }
            halt
        },
        RawEvent::Instruction(b) => {
            let halt = push_plain(dec, Token::XMLInstruction, &b, pos, toks);
            proof {
                assert(marks_view(marks@) =~= marks_view(m0) + out.markers);
            }
            halt
        },
        RawEvent::CData(b) => {
            let halt = push_plain(dec, Token::CData, &b, pos, toks);
            proof {
                assert(marks_view(marks@) =~= marks_view(m0) + out.markers);
            }
            halt
        },
        RawEvent::Comment(b) => {
            let halt = push_plain(dec, Token::Comment, &b, pos, toks);
            proof {
                assert(marks_view(marks@) =~= marks_view(m0) + out.markers);
            }
            halt
        },
        RawEvent::Text(b) => {
            let halt = push_text(dec, &b, pos, *depth, *preserve, toks);
            proof {
                assert(marks_view(marks@) =~= marks_view(m0) + out.markers);
            }
            halt
        },
        RawEvent::End(b) => {
            match decode_bytes(dec, &b) {
                None => {
                    toks.push(error_record(pos, "invalid UTF-8"));
                    proof {
                        assert(toks_view(toks@) =~= toks_view(t0) + out.tokens);
                        assert(marks_view(marks@) =~= marks_view(m0) + out.markers);
                    }
                    true
                },
                Some(s) => {
                    toks.push(TokenRecord { kind: Token::TagClose, value: s, detail: None });
                    *depth = if *depth > i64::MIN {
                        *depth - 1
                    } else {
                        *depth
                    };
                    if *depth == *preserve {
                        *preserve = 0;
                    }
                    proof {
                        assert(toks_view(toks@) =~= toks_view(t0) + out.tokens);
                        assert(marks_view(marks@) =~= marks_view(m0) + out.markers);
                    }
                    false
                },
            }
        },
        RawEvent::Start(c, nl) => {
            let r = push_tag(dec, &c, nl, pos, html, false, toks, marks);
            if r.0 {
                true
            } else {
                *depth = if *depth < i64::MAX {
                    *depth + 1
                } else {
                    *depth
                };
                if r.1 {
                    *preserve = *depth;
                }
                false
            }
        },
        RawEvent::Empty(c, nl) => {
            let r = push_tag(dec, &c, nl, pos, html, true, toks, marks);
            r.0
        },
    }
}

/// On a halting event, the accumulated output is the whole run's output.
proof fn finish_halt(
    bs: Seq<u8>,
    strict: bool,
    html: bool,
    n: nat,
    toks: Seq<TokenRecord>,
    marks: Seq<StateRecord>,
)
    requires
        halts_at(bs, strict, html, n),
        forall|i: nat| i < n ==> !halts_at(bs, strict, html, i),
        toks_view(toks) == run_tokens(bs, strict, html, n) + step_at(bs, strict, html, n).tokens,
        marks_view(marks) == run_markers(bs, strict, html, n) + step_at(
            bs,
            strict,
            html,
            n,
        ).markers,
    ensures
        complete_run(bs, strict, html, n),
        toks_view(toks) == run_tokens(bs, strict, html, n + 1),
        marks_view(marks) == run_markers(bs, strict, html, n + 1),
{
    assert(run_tokens(bs, strict, html, n + 1) == run_tokens(bs, strict, html, n) + step_at(
        bs,
        strict,
        html,
        n,
    ).tokens);
    assert(run_markers(bs, strict, html, n + 1) == run_markers(bs, strict, html, n) + step_at(
        bs,
        strict,
        html,
        n,
    ).markers);
}

/// Tokenize a byte buffer. The result is exactly the tokens and markers of
/// the buffer's event stream up to and including its first halting event, so
/// it is a function of the bytes and the mode alone. Permissive (HTML-like)
/// handling is chosen only by `Some(true)`; the default is strict.
pub fn tokenize_bytes(data: Vec<u8>, html_flag: Option<bool>) -> (r: (
    Vec<TokenRecord>,
    Vec<StateRecord>,
))
    ensures
        tokenize_post(data@, html_flag, toks_view(r.0@), marks_view(r.1@)),
        r.1@.len() == 0,
{
    let html = match html_flag {
        Some(b) => b,
        None => false,
    };
    let strict = !html;
    proof {
        assert(html == html_mode(html_flag));
    }
    let ghost bs = data@;
    let mut d = decoder_new(data, strict);
    let mut toks: Vec<TokenRecord> = Vec::new();
    let mut marks: Vec<StateRecord> = Vec::new();
    let mut depth: i64 = 0;
    let mut preserve: i64 = 0;
    proof {
        assert(toks_view(toks@) =~= run_tokens(bs, strict, html, 0));
        assert(marks_view(marks@) =~= run_markers(bs, strict, html, 0));
    }
    #[verifier::loop_isolation(false)]
    loop
        invariant
            decoder_bytes(d) == bs,
            decoder_strict(d) == strict,
            run_state(bs, strict, html, decoder_idx(d)) == (TkState {
                depth: depth as int,
                preserve: preserve as int,
            }),
            toks_view(toks@) == run_tokens(bs, strict, html, decoder_idx(d)),
            marks_view(marks@) == run_markers(bs, strict, html, decoder_idx(d)),
            forall|i: nat| i < decoder_idx(d) ==> !halts_at(bs, strict, html, i),
        decreases fuel_left(bs, strict, decoder_idx(d)),
    {
        let ghost n = decoder_idx(d);
        let ghost st0 = TkState { depth: depth as int, preserve: preserve as int };
        let ev = read_event(&mut d);
        let ghost evm = ev@;
        let pos = position(&d);
        proof {
            assert(step_at(bs, strict, html, n) == ev_step(st0, evm, pos as nat, html));
        }
        let halt = apply_event(&d, ev, pos, html, &mut depth, &mut preserve, &mut toks, &mut marks);
        if halt {
            proof {
                finish_halt(bs, strict, html, n, toks@, marks@);
                assert(complete_run(bs, !html_mode(html_flag), html_mode(html_flag), n));
                assert(toks_view(toks@) == run_tokens(
                    bs,
                    !html_mode(html_flag),
                    html_mode(html_flag),
                    n + 1,
                ));
                assert(marks_view(marks@) == run_markers(
                    bs,
                    !html_mode(html_flag),
                    html_mode(html_flag),
                    n + 1,
                ));
                assert(crate::model::complete_output(
                    bs,
                    html_flag,
                    n,
                    toks_view(toks@),
                    marks_view(marks@),
                ));
                assert(tokenize_post(bs, html_flag, toks_view(toks@), marks_view(marks@)));
                crate::laws::lemma_markers_empty(bs, strict, html, n + 1);
                assert(marks@.len() == marks_view(marks@).len());
            }
            return (toks, marks);
        }
        proof {
            assert(run_state(bs, strict, html, n + 1) == step_at(bs, strict, html, n).next);
            assert(run_tokens(bs, strict, html, n + 1) == run_tokens(bs, strict, html, n)
                + step_at(bs, strict, html, n).tokens);
            assert(run_markers(bs, strict, html, n + 1) == run_markers(bs, strict, html, n)
                + step_at(bs, strict, html, n).markers);
            assert(!(evm is Eof) && !(evm is Fail));
            assert(fuel_left(bs, strict, n + 1) < fuel_left(bs, strict, n));
        }
    }
}

/// Tokenize a byte source: drain it (tolerating partial reads), then tokenize
/// the gathered bytes. On success the output is exactly the tokens and
/// markers of the source's byte stream; when the source itself fails, the
/// output is a single `Error` token wrapping the failure. A source that
/// cannot fail — such as [`crate::BufferSource`] or
/// [`crate::ThrottledSource`] — always gets the full output, so over such
/// sources the result is a function of the delivered bytes and the mode
/// alone, however the reads were chunked.
pub fn tokenize<S: ByteReader>(source: &mut S, html_flag: Option<bool>) -> (r: (
    Vec<TokenRecord>,
    Vec<StateRecord>,
))
    ensures
        tokenize_post(old(source).remaining(), html_flag, toks_view(r.0@), marks_view(r.1@))
            || crate::model::read_failed_post(toks_view(r.0@), marks_view(r.1@)),
        old(source).infallible() ==> tokenize_post(
            old(source).remaining(),
            html_flag,
            toks_view(r.0@),
            marks_view(r.1@),
        ),
        r.1@.len() == 0,
{
    match read_all(source) {
        Ok(data) => tokenize_bytes(data, html_flag),
        Err(f) => read_failure_tokens(f.message.as_str()),
    }
}

/// The output produced when the byte source fails before any decoding: a
/// single `Error` token wrapping exactly the failure's message, and no
/// markers.
pub fn read_failure_tokens(message: &str) -> (r: (Vec<TokenRecord>, Vec<StateRecord>))
    ensures
        crate::model::read_failed_post(toks_view(r.0@), marks_view(r.1@)),
        toks_view(r.0@) == seq![err_tok(0, crate::text::read_fail_reason(message@))],
        marks_view(r.1@) == Seq::<crate::model::StateModel>::empty(),
        r.1@.len() == 0,
{
    let mut reason = String::new();
    push_str(&mut reason, "read failure: ");
    push_str(&mut reason, message);
    let ghost msg = message@;
    let mut toks: Vec<TokenRecord> = Vec::new();
    let rec = error_record(0, reason.as_str());
    proof {
        assert(reason@ =~= crate::text::read_fail_reason(msg));
    }
    toks.push(rec);
    let marks: Vec<StateRecord> = Vec::new();
    proof {
        assert(toks_view(toks@) =~= seq![err_tok(0, crate::text::read_fail_reason(msg))]);
        assert(marks_view(marks@) =~= Seq::<crate::model::StateModel>::empty());
    }
    (toks, marks)
}

} // verus!
