//! Laws of the tokenizer, proved from the model in [`crate::model`]:
//! determinism of the output in the source bytes, the prefix (progress)
//! property of partial results, tag-open/tag-close balance for well-formed
//! runs, attribute order preservation, and the whitespace policy.

use vstd::prelude::*;
use vstd::utf8::decode_utf8;
use vstd::utf8::valid_utf8;

use crate::decoder::event_at;
use crate::decoder::position_after;
use crate::model::attr_tok;
use crate::model::attr_tokens_from;
use crate::model::complete_output;
use crate::model::complete_run;
use crate::model::err_tok;
use crate::model::halts_at;
use crate::model::run_state;
use crate::model::run_tokens;
use crate::model::step_at;
use crate::model::text_out;
use crate::model::tok;
use crate::model::tokenize_post;
use crate::model::EvModel;
use crate::model::StateModel;
use crate::model::TokenModel;
use crate::text::ws_only_bytes;
use crate::Token;

verus! {

/// Tokenizing is deterministic in the source bytes and the markup mode: any
/// two outputs that tokenizing the same bytes under the same flag can produce
/// are equal. In particular, two independent calls over one buffer yield
/// identical token sequences, and a source that delivers the same bytes in
/// partial reads yields the same tokens as an in-memory buffer.
pub proof fn lemma_tokenize_deterministic(
    bytes: Seq<u8>,
    flag: Option<bool>,
    toks1: Seq<TokenModel>,
    marks1: Seq<StateModel>,
    toks2: Seq<TokenModel>,
    marks2: Seq<StateModel>,
)
    requires
        tokenize_post(bytes, flag, toks1, marks1),
        tokenize_post(bytes, flag, toks2, marks2),
    ensures
        toks1 == toks2,
        marks1 == marks2,
{
    let html = crate::model::html_mode(flag);
    let strict = !html;
    let n1 = choose|n: nat| complete_output(bytes, flag, n, toks1, marks1);
    let n2 = choose|n: nat| complete_output(bytes, flag, n, toks2, marks2);
    assert(complete_run(bytes, strict, html, n1));
    assert(complete_run(bytes, strict, html, n2));
    if n1 < n2 {
        assert(!halts_at(bytes, strict, html, n1));
        assert(false);
    }
    if n2 < n1 {
        assert(!halts_at(bytes, strict, html, n2));
        assert(false);
    }
}

/// Tokens are only ever appended: the output of a shorter run is a prefix of
/// the output of any longer run over the same stream. Together with
/// [`lemma_error_token_is_last`] this is the progress property: everything
/// emitted before a failure is valid, and the error token is the last.
pub proof fn lemma_run_tokens_prefix(bytes: Seq<u8>, strict: bool, html: bool, m: nat, n: nat)
    requires
        m <= n,
    ensures
        run_tokens(bytes, strict, html, m).is_prefix_of(run_tokens(bytes, strict, html, n)),
    decreases n,
{
    if m < n {
        lemma_run_tokens_prefix(bytes, strict, html, m, (n - 1) as nat);
        let a = run_tokens(bytes, strict, html, m);
        let b = run_tokens(bytes, strict, html, (n - 1) as nat);
        let c = step_at(bytes, strict, html, (n - 1) as nat).tokens;
        assert(run_tokens(bytes, strict, html, n) == b + c);
        assert(a =~= (b + c).subrange(0, a.len() as int));
    } else {
        assert(run_tokens(bytes, strict, html, m) =~= run_tokens(bytes, strict, html, n).subrange(
            0,
            run_tokens(bytes, strict, html, m).len() as int,
        ));
    }
}

/// A run that halts on a decoder failure emits exactly the tokens of the
/// clean prefix before it, followed by one error token carrying the failure's
/// position and description — the error token is always last.
pub proof fn lemma_error_token_is_last(
    bytes: Seq<u8>,
    strict: bool,
    html: bool,
    n: nat,
    msg: Seq<char>,
)
    requires
        event_at(bytes, strict, n) == EvModel::Fail(msg),
    ensures
        run_tokens(bytes, strict, html, n + 1) == run_tokens(bytes, strict, html, n).push(
            err_tok(position_after(bytes, strict, n + 1), msg),
        ),
{
    assert(run_tokens(bytes, strict, html, n + 1) == run_tokens(bytes, strict, html, n) + step_at(
        bytes,
        strict,
        html,
        n,
    ).tokens);
    assert(run_tokens(bytes, strict, html, n) + step_at(bytes, strict, html, n).tokens
        =~= run_tokens(bytes, strict, html, n).push(
        err_tok(position_after(bytes, strict, n + 1), msg),
    ));
}

/// How many tokens of a kind a token list holds.
pub open spec fn count_kind(toks: Seq<TokenModel>, k: Token) -> int
    decreases toks.len(),
{
    if toks.len() == 0 {
        0
    } else {
        count_kind(toks.drop_last(), k) + if toks.last().kind == k {
            1int
        } else {
            0int
        }
    }
}

/// How many of the first `n` events are start tags.
pub open spec fn count_starts(bytes: Seq<u8>, strict: bool, n: nat) -> int
    decreases n,
{
    if n == 0 {
        0
    } else {
        count_starts(bytes, strict, (n - 1) as nat) + if event_at(
            bytes,
            strict,
            (n - 1) as nat,
        ) is Start {
            1int
        } else {
            0int
        }
    }
}

/// How many of the first `n` events are end tags.
pub open spec fn count_ends(bytes: Seq<u8>, strict: bool, n: nat) -> int
    decreases n,
{
    if n == 0 {
        0
    } else {
        count_ends(bytes, strict, (n - 1) as nat) + if event_at(
            bytes,
            strict,
            (n - 1) as nat,
        ) is End {
            1int
        } else {
            0int
        }
    }
}

/// How many of the first `n` events are self-closing tags.
pub open spec fn count_empties(bytes: Seq<u8>, strict: bool, n: nat) -> int
    decreases n,
{
    if n == 0 {
        0
    } else {
        count_empties(bytes, strict, (n - 1) as nat) + if event_at(
            bytes,
            strict,
            (n - 1) as nat,
        ) is Empty {
            1int
        } else {
            0int
        }
    }
}

/// A single token counts one for its own kind and zero for any other.
proof fn lemma_count_single(t: TokenModel, k: Token)
    ensures
        count_kind(seq![t], k) == if t.kind == k {
            1int
        } else {
            0int
        },
{
    assert(seq![t].drop_last() =~= Seq::<TokenModel>::empty());
    assert(count_kind(Seq::<TokenModel>::empty(), k) == 0);
    assert(seq![t].last() == t);
}

/// Counting a kind distributes over concatenation.
proof fn lemma_count_concat(a: Seq<TokenModel>, b: Seq<TokenModel>, k: Token)
    ensures
        count_kind(a + b, k) == count_kind(a, k) + count_kind(b, k),
    decreases b.len(),
{
    if b.len() == 0 {
        assert(a + b =~= a);
    } else {
        lemma_count_concat(a, b.drop_last(), k);
        assert((a + b).drop_last() =~= a + b.drop_last());
        assert((a + b).last() == b.last());
    }
}

/// A list whose tokens all have another kind counts zero for `k`.
proof fn lemma_count_zero(toks: Seq<TokenModel>, k: Token)
    requires
        forall|i: int| 0 <= i < toks.len() ==> #[trigger] toks[i].kind != k,
    ensures
        count_kind(toks, k) == 0,
    decreases toks.len(),
{
    if toks.len() > 0 {
        lemma_count_zero(toks.drop_last(), k);
    }
}

/// Attribute tokens that all decoded are `TagAttribute` tokens throughout.
proof fn lemma_attr_tokens_kinds(pairs: Seq<(Seq<u8>, Seq<u8>)>, pos: nat, j: int)
    requires
        attr_tokens_from(pairs, pos, j).1,
    ensures
        forall|i: int|
            0 <= i < attr_tokens_from(pairs, pos, j).0.len() ==> #[trigger] attr_tokens_from(
                pairs,
                pos,
                j,
            ).0[i].kind == Token::TagAttribute,
    decreases pairs.len() - j,
{
    if 0 <= j < pairs.len() {
        lemma_attr_tokens_kinds(pairs, pos, j + 1);
        assert(valid_utf8(pairs[j].0) && valid_utf8(pairs[j].1));
        let hd = attr_tok(decode_utf8(pairs[j].0), decode_utf8(pairs[j].1));
        let rest = attr_tokens_from(pairs, pos, j + 1);
        assert(attr_tokens_from(pairs, pos, j).0 =~= seq![hd] + rest.0);
        assert forall|i: int|
            0 <= i < attr_tokens_from(pairs, pos, j).0.len() implies #[trigger] attr_tokens_from(
            pairs,
            pos,
            j,
        ).0[i].kind == Token::TagAttribute by {
            if i == 0 {
                assert((seq![hd] + rest.0)[0] == hd);
            } else {
                assert((seq![hd] + rest.0)[i] == rest.0[i - 1]);
            }
        }
    }
}

/// In an attribute list that decoded completely, the tokens stand in source
/// order: one per pair, the `i`-th token carrying the `i`-th pair's decoded
/// key and value.
pub proof fn lemma_attr_tokens_order(pairs: Seq<(Seq<u8>, Seq<u8>)>, pos: nat, j: int)
    requires
        0 <= j <= pairs.len(),
        attr_tokens_from(pairs, pos, j).1,
    ensures
        attr_tokens_from(pairs, pos, j).0.len() == pairs.len() - j,
        forall|k: int|
            0 <= k < pairs.len() - j ==> #[trigger] attr_tokens_from(pairs, pos, j).0[k]
                == attr_tok(decode_utf8(pairs[j + k].0), decode_utf8(pairs[j + k].1)),
    decreases pairs.len() - j,
{
    if j < pairs.len() {
        lemma_attr_tokens_order(pairs, pos, j + 1);
        assert(valid_utf8(pairs[j].0) && valid_utf8(pairs[j].1));
        let hd = attr_tok(decode_utf8(pairs[j].0), decode_utf8(pairs[j].1));
        let rest = attr_tokens_from(pairs, pos, j + 1);
        assert(attr_tokens_from(pairs, pos, j).0 =~= seq![hd] + rest.0);
        assert forall|k: int|
            0 <= k < pairs.len() - j implies #[trigger] attr_tokens_from(pairs, pos, j).0[k]
            == attr_tok(decode_utf8(pairs[j + k].0), decode_utf8(pairs[j + k].1)) by {
            if k == 0 {
                assert((seq![hd] + rest.0)[0] == hd);
            } else {
                assert((seq![hd] + rest.0)[k] == rest.0[k - 1]);
                assert(rest.0[k - 1] == attr_tok(
                    decode_utf8(pairs[j + 1 + (k - 1)].0),
                    decode_utf8(pairs[j + 1 + (k - 1)].1),
                ));
                assert(j + 1 + (k - 1) == j + k);
            }
        }
    }
}

/// Attribute order preservation: in the emission of a start or empty tag
/// whose attributes all parsed and decoded, the token at index `1 + i` —
/// right after the `TagOpen` token at index 0 — is the `TagAttribute` token
/// of the `i`-th enumerated pair, in source order, never reordered.
pub proof fn lemma_attribute_order(
    content: Seq<u8>,
    name_len: nat,
    pos: nat,
    html: bool,
    is_empty: bool,
    i: int,
)
    requires
        valid_utf8(content.subrange(0, name_len as int)),
        ({
            let a = if html {
                crate::decoder::attrs_html(content, name_len)
            } else {
                crate::decoder::attrs_strict(content, name_len)
            };
            &&& attr_tokens_from(a.0, pos, 0).1
            &&& a.1 is None
            &&& 0 <= i < a.0.len()
        }),
    ensures
        ({
            let a = if html {
                crate::decoder::attrs_html(content, name_len)
            } else {
                crate::decoder::attrs_strict(content, name_len)
            };
            let out = crate::model::tag_out(content, name_len, pos, html, is_empty);
            &&& out.tokens[0] == tok(
                Token::TagOpen,
                decode_utf8(content.subrange(0, name_len as int)),
            )
            &&& out.tokens[1 + i] == attr_tok(decode_utf8(a.0[i].0), decode_utf8(a.0[i].1))
        }),
{
    let a = if html {
        crate::decoder::attrs_html(content, name_len)
    } else {
        crate::decoder::attrs_strict(content, name_len)
    };
    lemma_attr_tokens_order(a.0, pos, 0);
    let name = content.subrange(0, name_len as int);
    let open = tok(Token::TagOpen, decode_utf8(name));
    let at = crate::model::attr_tokens(a.0, pos);
    let out = crate::model::tag_out(content, name_len, pos, html, is_empty);
    assert(at.1);
    assert(!out.halt);
    assert(at.0[i] == attr_tok(decode_utf8(a.0[0 + i].0), decode_utf8(a.0[0 + i].1)));
    assert(0 + i == i);
    if is_empty {
        let close = tok(Token::TagClose, decode_utf8(name));
        assert(out.tokens =~= seq![open] + at.0 + seq![close]);
        assert(out.tokens[0] == open);
        assert(out.tokens[1 + i] == at.0[i]);
    } else {
        assert(out.tokens =~= seq![open] + at.0);
        assert(out.tokens[0] == open);
        assert(out.tokens[1 + i] == at.0[i]);
    }
}

/// Token counts of a clean run: every start or empty tag contributes exactly
/// one `TagOpen`, every end or empty tag exactly one `TagClose`.
pub proof fn lemma_token_counts(bytes: Seq<u8>, strict: bool, html: bool, n: nat)
    requires
        forall|i: nat| i < n ==> !halts_at(bytes, strict, html, i),
    ensures
        count_kind(run_tokens(bytes, strict, html, n), Token::TagOpen) == count_starts(
            bytes,
            strict,
            n,
        ) + count_empties(bytes, strict, n),
        count_kind(run_tokens(bytes, strict, html, n), Token::TagClose) == count_ends(
            bytes,
            strict,
            n,
        ) + count_empties(bytes, strict, n),
    decreases n,
{
    if n > 0 {
        let m = (n - 1) as nat;
        lemma_token_counts(bytes, strict, html, m);
        let ev = event_at(bytes, strict, m);
        let out = step_at(bytes, strict, html, m);
        let pos = position_after(bytes, strict, m + 1);
        assert(!halts_at(bytes, strict, html, m));
        lemma_count_concat(run_tokens(bytes, strict, html, m), out.tokens, Token::TagOpen);
        lemma_count_concat(run_tokens(bytes, strict, html, m), out.tokens, Token::TagClose);
        match ev {
            EvModel::Start(c, nl) => {
                assert(!crate::model::tag_out(c, nl, pos, html, false).halt);
                lemma_tag_counts(c, nl, pos, html, false);
                assert(out.tokens == crate::model::tag_out(c, nl, pos, html, false).tokens);
            },
            EvModel::Empty(c, nl) => {
                assert(!crate::model::tag_out(c, nl, pos, html, true).halt);
                lemma_tag_counts(c, nl, pos, html, true);
                assert(out.tokens == crate::model::tag_out(c, nl, pos, html, true).tokens);
            },
            EvModel::End(nm) => {
                assert(valid_utf8(nm));
                assert(out.tokens =~= seq![tok(Token::TagClose, decode_utf8(nm))]);
                lemma_count_single(tok(Token::TagClose, decode_utf8(nm)), Token::TagOpen);
                lemma_count_single(tok(Token::TagClose, decode_utf8(nm)), Token::TagClose);
            },
            EvModel::Text(b) => {
                lemma_count_zero(out.tokens, Token::TagOpen);
                lemma_count_zero(out.tokens, Token::TagClose);
            },
            _ => {
                lemma_count_zero(out.tokens, Token::TagOpen);
                lemma_count_zero(out.tokens, Token::TagClose);
            },
        }
    }
}

/// A non-halting tag emission holds exactly one `TagOpen` and, for an empty
/// tag, exactly one `TagClose`.
proof fn lemma_tag_counts(content: Seq<u8>, name_len: nat, pos: nat, html: bool, is_empty: bool)
    requires
        !crate::model::tag_out(content, name_len, pos, html, is_empty).halt,
    ensures
        count_kind(
            crate::model::tag_out(content, name_len, pos, html, is_empty).tokens,
            Token::TagOpen,
        ) == 1,
        count_kind(
            crate::model::tag_out(content, name_len, pos, html, is_empty).tokens,
            Token::TagClose,
        ) == if is_empty {
            1int
        } else {
            0int
        },
{
    let out = crate::model::tag_out(content, name_len, pos, html, is_empty);
    let a = if html {
        crate::decoder::attrs_html(content, name_len)
    } else {
        crate::decoder::attrs_strict(content, name_len)
    };
    let name = content.subrange(0, name_len as int);
    let open = tok(Token::TagOpen, decode_utf8(name));
    let at = crate::model::attr_tokens(a.0, pos);
    lemma_attr_tokens_kinds(a.0, pos, 0);
    lemma_count_zero(at.0, Token::TagOpen);
    lemma_count_zero(at.0, Token::TagClose);
    lemma_count_concat(seq![open], at.0, Token::TagOpen);
    lemma_count_concat(seq![open], at.0, Token::TagClose);
    lemma_count_single(open, Token::TagOpen);
    lemma_count_single(open, Token::TagClose);
    if is_empty {
        let close = tok(Token::TagClose, decode_utf8(name));
        lemma_count_concat(seq![open] + at.0, seq![close], Token::TagOpen);
        lemma_count_concat(seq![open] + at.0, seq![close], Token::TagClose);
        lemma_count_single(close, Token::TagOpen);
        lemma_count_single(close, Token::TagClose);
        assert(out.tokens == seq![open] + at.0 + seq![close]);
    } else {
        assert(out.tokens == seq![open] + at.0);
    }
}

/// Depth of a clean run whose end tags never outnumber its start tags: the
/// difference of start and end events, never saturating.
pub proof fn lemma_depth_is_balance(bytes: Seq<u8>, strict: bool, html: bool, n: nat)
    requires
        n < i64::MAX,
        forall|i: nat| i < n ==> !halts_at(bytes, strict, html, i),
        forall|m: nat|
            m <= n ==> count_ends(bytes, strict, m) <= count_starts(bytes, strict, m),
    ensures
        run_state(bytes, strict, html, n).depth == count_starts(bytes, strict, n) - count_ends(
            bytes,
            strict,
            n,
        ),
    decreases n,
{
    if n > 0 {
        let m = (n - 1) as nat;
        assert(forall|k: nat| k <= m ==> count_ends(bytes, strict, k) <= count_starts(bytes, strict, k));
        lemma_depth_is_balance(bytes, strict, html, m);
        lemma_count_starts_bound(bytes, strict, m);
        let st = run_state(bytes, strict, html, m);
        let ev = event_at(bytes, strict, m);
        assert(!halts_at(bytes, strict, html, m));
        match ev {
            EvModel::Start(c, nl) => {
                assert(st.depth < i64::MAX);
            },
            EvModel::End(nm) => {
                assert(count_ends(bytes, strict, n) <= count_starts(bytes, strict, n));
                assert(st.depth >= 1);
            },
            _ => {},
        }
    }
}

/// At most one start event per event read.
proof fn lemma_count_starts_bound(bytes: Seq<u8>, strict: bool, n: nat)
    ensures
        count_starts(bytes, strict, n) <= n,
        count_ends(bytes, strict, n) >= 0,
    decreases n,
{
    if n > 0 {
        lemma_count_starts_bound(bytes, strict, (n - 1) as nat);
    }
}

/// Balance for well-formed documents: in a run that processes every event
/// cleanly and halts at end-of-stream, with as many end tags as start tags
/// and never more ends than starts in any prefix, the output holds exactly as
/// many `TagOpen` as `TagClose` tokens, and the nesting depth is back at 0
/// after the final close.
pub proof fn lemma_balanced_document(bytes: Seq<u8>, strict: bool, html: bool, n: nat)
    requires
        n < i64::MAX,
        complete_run(bytes, strict, html, n),
        event_at(bytes, strict, n) is Eof,
        count_starts(bytes, strict, n) == count_ends(bytes, strict, n),
        forall|m: nat|
            m <= n ==> count_ends(bytes, strict, m) <= count_starts(bytes, strict, m),
    ensures
        count_kind(run_tokens(bytes, strict, html, n + 1), Token::TagOpen) == count_kind(
            run_tokens(bytes, strict, html, n + 1),
            Token::TagClose,
        ),
        run_state(bytes, strict, html, n).depth == 0,
        forall|i: int|
            0 <= i <= run_tokens(bytes, strict, html, n + 1).len() ==> #[trigger] open_close_sum(
                run_tokens(bytes, strict, html, n + 1).take(i),
            ) >= 0,
        open_close_sum(run_tokens(bytes, strict, html, n + 1)) == 0,
{
    lemma_token_counts(bytes, strict, html, n);
    lemma_depth_is_balance(bytes, strict, html, n);
    lemma_running_balance(bytes, strict, html, n);
    assert(run_tokens(bytes, strict, html, n + 1) == run_tokens(bytes, strict, html, n) + step_at(
        bytes,
        strict,
        html,
        n,
    ).tokens);
    assert(run_tokens(bytes, strict, html, n + 1) =~= run_tokens(bytes, strict, html, n));
}

/// The state-marker output of every run is empty: the attribute-parsing
/// marker pushed for a tag is popped again before the tag's emission ends,
/// also when tokenization halts inside it, so no event leaves a marker
/// behind.
pub proof fn lemma_markers_empty(bytes: Seq<u8>, strict: bool, html: bool, n: nat)
    ensures
        crate::model::run_markers(bytes, strict, html, n) == Seq::<StateModel>::empty(),
    decreases n,
{
    if n > 0 {
        let m = (n - 1) as nat;
        lemma_markers_empty(bytes, strict, html, m);
        let out = step_at(bytes, strict, html, m);
        assert(out.markers =~= Seq::<StateModel>::empty());
        assert(crate::model::run_markers(bytes, strict, html, n) =~= Seq::<StateModel>::empty());
    } else {
        assert(crate::model::run_markers(bytes, strict, html, 0) =~= Seq::<StateModel>::empty());
    }
}

/// The running open/close balance of a token list: +1 per `TagOpen`, -1 per
/// `TagClose`.
pub open spec fn open_close_sum(toks: Seq<TokenModel>) -> int {
    count_kind(toks, Token::TagOpen) - count_kind(toks, Token::TagClose)
}

/// Any prefix of a list of tokens that are neither `TagOpen` nor `TagClose`
/// has running balance zero.
proof fn lemma_zero_sum_prefixes(toks: Seq<TokenModel>)
    requires
        forall|i: int|
            0 <= i < toks.len() ==> #[trigger] toks[i].kind != Token::TagOpen && toks[i].kind
                != Token::TagClose,
    ensures
        forall|j: int| 0 <= j <= toks.len() ==> #[trigger] open_close_sum(toks.take(j)) == 0,
{
    assert forall|j: int| 0 <= j <= toks.len() implies #[trigger] open_close_sum(toks.take(j))
        == 0 by {
        assert(forall|i: int| 0 <= i < toks.take(j).len() ==> #[trigger] toks.take(j)[i].kind
            != Token::TagOpen);
        assert(forall|i: int| 0 <= i < toks.take(j).len() ==> #[trigger] toks.take(j)[i].kind
            != Token::TagClose);
        lemma_count_zero(toks.take(j), Token::TagOpen);
        lemma_count_zero(toks.take(j), Token::TagClose);
    }
}

/// Every prefix of a non-halting tag emission has running balance 0 or 1.
proof fn lemma_tag_prefix_sums(content: Seq<u8>, name_len: nat, pos: nat, html: bool, is_empty: bool)
    requires
        !crate::model::tag_out(content, name_len, pos, html, is_empty).halt,
    ensures
        forall|j: int|
            0 <= j <= crate::model::tag_out(content, name_len, pos, html, is_empty).tokens.len()
                ==> 0 <= #[trigger] open_close_sum(
                crate::model::tag_out(content, name_len, pos, html, is_empty).tokens.take(j),
            ) <= 1,
{
    let out = crate::model::tag_out(content, name_len, pos, html, is_empty);
    let a = if html {
        crate::decoder::attrs_html(content, name_len)
    } else {
        crate::decoder::attrs_strict(content, name_len)
    };
    let name = content.subrange(0, name_len as int);
    let open = tok(Token::TagOpen, decode_utf8(name));
    let at = crate::model::attr_tokens(a.0, pos);
    lemma_attr_tokens_kinds(a.0, pos, 0);
    lemma_zero_sum_prefixes(at.0);
    lemma_count_single(open, Token::TagOpen);
    lemma_count_single(open, Token::TagClose);
    if is_empty {
        let close = tok(Token::TagClose, decode_utf8(name));
        lemma_count_single(close, Token::TagOpen);
        lemma_count_single(close, Token::TagClose);
        assert(out.tokens =~= seq![open] + at.0 + seq![close]);
        assert forall|j: int| 0 <= j <= out.tokens.len() implies 0 <= #[trigger] open_close_sum(
            out.tokens.take(j),
        ) <= 1 by {
            if j == 0 {
                assert(out.tokens.take(0) =~= Seq::<TokenModel>::empty());
            } else if j <= 1 + at.0.len() {
                assert(out.tokens.take(j) =~= seq![open] + at.0.take(j - 1));
                lemma_count_concat(seq![open], at.0.take(j - 1), Token::TagOpen);
                lemma_count_concat(seq![open], at.0.take(j - 1), Token::TagClose);
                assert(open_close_sum(at.0.take(j - 1)) == 0);
                assert(count_kind(at.0.take(j - 1), Token::TagOpen) >= 0) by {
                    lemma_count_zero(at.0.take(j - 1), Token::TagOpen);
                }
                assert(count_kind(at.0.take(j - 1), Token::TagClose) == 0) by {
                    lemma_count_zero(at.0.take(j - 1), Token::TagClose);
                }
            } else {
                assert(out.tokens.take(j) =~= seq![open] + at.0 + seq![close]);
                lemma_count_concat(seq![open] + at.0, seq![close], Token::TagOpen);
                lemma_count_concat(seq![open] + at.0, seq![close], Token::TagClose);
                lemma_count_concat(seq![open], at.0, Token::TagOpen);
                lemma_count_concat(seq![open], at.0, Token::TagClose);
                lemma_count_zero(at.0, Token::TagOpen);
                lemma_count_zero(at.0, Token::TagClose);
            }
        }
    } else {
        assert(out.tokens =~= seq![open] + at.0);
        assert forall|j: int| 0 <= j <= out.tokens.len() implies 0 <= #[trigger] open_close_sum(
            out.tokens.take(j),
        ) <= 1 by {
            if j == 0 {
                assert(out.tokens.take(0) =~= Seq::<TokenModel>::empty());
            } else {
                assert(out.tokens.take(j) =~= seq![open] + at.0.take(j - 1));
                lemma_count_concat(seq![open], at.0.take(j - 1), Token::TagOpen);
                lemma_count_concat(seq![open], at.0.take(j - 1), Token::TagClose);
                assert(open_close_sum(at.0.take(j - 1)) == 0);
                lemma_count_zero(at.0.take(j - 1), Token::TagOpen);
                lemma_count_zero(at.0.take(j - 1), Token::TagClose);
            }
        }
    }
}

/// Nesting never goes negative in the token stream itself: scanning the
/// output of a clean run whose end-tag events never outnumber its start-tag
/// events left to right, counting +1 per `TagOpen` and -1 per `TagClose`, the
/// running sum stays at or above zero, and after all `n` events it equals the
/// balance of start and end events.
#[verifier::rlimit(80)]
pub proof fn lemma_running_balance(bytes: Seq<u8>, strict: bool, html: bool, n: nat)
    requires
        n < i64::MAX,
        forall|i: nat| i < n ==> !halts_at(bytes, strict, html, i),
        forall|m: nat|
            m <= n ==> count_ends(bytes, strict, m) <= count_starts(bytes, strict, m),
    ensures
        forall|i: int|
            0 <= i <= run_tokens(bytes, strict, html, n).len() ==> #[trigger] open_close_sum(
                run_tokens(bytes, strict, html, n).take(i),
            ) >= 0,
        open_close_sum(run_tokens(bytes, strict, html, n)) == count_starts(bytes, strict, n)
            - count_ends(bytes, strict, n),
    decreases n,
{
    lemma_token_counts(bytes, strict, html, n);
    if n > 0 {
        let m = (n - 1) as nat;
        assert(forall|k: nat|
            k <= m ==> count_ends(bytes, strict, k) <= count_starts(bytes, strict, k));
        lemma_running_balance(bytes, strict, html, m);
        let a = run_tokens(bytes, strict, html, m);
        let b = step_at(bytes, strict, html, m).tokens;
        let whole = run_tokens(bytes, strict, html, n);
        assert(whole == a + b);
        let ev = event_at(bytes, strict, m);
        let pos = position_after(bytes, strict, m + 1);
        assert(!halts_at(bytes, strict, html, m));
        let sum_a = count_starts(bytes, strict, m) - count_ends(bytes, strict, m);
        assert(open_close_sum(a) == sum_a);
        assert(sum_a >= 0);
        assert forall|i: int|
            0 <= i <= whole.len() implies #[trigger] open_close_sum(whole.take(i)) >= 0 by {
            if i <= a.len() {
                assert(whole.take(i) =~= a.take(i));
                assert(open_close_sum(a.take(i)) >= 0);
            } else {
                let j = i - a.len();
                assert(whole.take(i) =~= a + b.take(j));
                lemma_count_concat(a, b.take(j), Token::TagOpen);
                lemma_count_concat(a, b.take(j), Token::TagClose);
                match ev {
                    EvModel::Start(c, nl) => {
                        lemma_tag_prefix_sums(c, nl, pos, html, false);
                        assert(open_close_sum(b.take(j)) >= 0);
                    },
                    EvModel::Empty(c, nl) => {
                        lemma_tag_prefix_sums(c, nl, pos, html, true);
                        assert(open_close_sum(b.take(j)) >= 0);
                    },
                    EvModel::End(nm) => {
                        assert(valid_utf8(nm));
                        assert(b =~= seq![tok(Token::TagClose, decode_utf8(nm))]);
                        assert(b.take(j) =~= b);
                        lemma_count_single(tok(Token::TagClose, decode_utf8(nm)), Token::TagOpen);
                        lemma_count_single(tok(Token::TagClose, decode_utf8(nm)), Token::TagClose);
                        assert(open_close_sum(b.take(j)) == -1);
                        assert(count_ends(bytes, strict, n) <= count_starts(bytes, strict, n));
                        assert(sum_a >= 1);
                    },
                    _ => {
                        assert(forall|k: int|
                            0 <= k < b.len() ==> #[trigger] b[k].kind != Token::TagOpen && b[k].kind
                                != Token::TagClose);
                        lemma_zero_sum_prefixes(b);
                        assert(open_close_sum(b.take(j)) == 0);
                    },
                }
            }
        }
    } else {
        assert forall|i: int|
            0 <= i <= run_tokens(bytes, strict, html, n).len() implies #[trigger] open_close_sum(
                run_tokens(bytes, strict, html, n).take(i),
            ) >= 0 by {
            assert(run_tokens(bytes, strict, html, n).take(i) =~= Seq::<TokenModel>::empty());
        }
    }
}

/// Whitespace policy, collapsing side: outside any preservation scope
/// (`depth > preserve`) a whitespace-only text run inside the document emits
/// no token at all.
pub proof fn lemma_whitespace_discarded(depth: int, preserve: int, b: Seq<u8>, pos: nat)
    requires
        depth > preserve,
        ws_only_bytes(b),
    ensures
        text_out(depth, preserve, b, pos).0 =~= Seq::<TokenModel>::empty(),
        !text_out(depth, preserve, b, pos).1,
{
    if depth != 0 && !valid_utf8(b) {
        lemma_ws_bytes_valid_utf8(b);
    }
}

/// Whitespace policy, preserving side: at a depth inside the preservation
/// scope (`0 < depth <= preserve`) every text run is kept, whitespace-only or
/// not, as one `Text` token with its decoded characters.
pub proof fn lemma_whitespace_preserved(depth: int, preserve: int, b: Seq<u8>, pos: nat)
    requires
        0 < depth <= preserve,
        valid_utf8(b),
    ensures
        text_out(depth, preserve, b, pos).0 == seq![tok(Token::Text, decode_utf8(b))],
        !text_out(depth, preserve, b, pos).1,
{
}

/// XML whitespace bytes are ASCII, so a whitespace-only byte run is valid
/// UTF-8.
proof fn lemma_ws_bytes_valid_utf8(b: Seq<u8>)
    requires
        ws_only_bytes(b),
    ensures
        valid_utf8(b),
    decreases b.len(),
{
    if b.len() != 0 {
        assert(crate::text::ws_byte(b[0]));
        assert(vstd::utf8::valid_first_scalar(b));
        assert(vstd::utf8::length_of_first_scalar(b) == 1);
        assert(vstd::utf8::pop_first_scalar(b) =~= b.subrange(1, b.len() as int));
        assert(ws_only_bytes(b.subrange(1, b.len() as int)));
        lemma_ws_bytes_valid_utf8(b.subrange(1, b.len() as int));
    }
}

} // verus!

