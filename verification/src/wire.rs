//! The wire grammar of the chat protocol, stated mathematically.
//!
//! An envelope travels as one object with a `messageType` field holding one of
//! the three recognized kind names, an optional `dataArray` field holding a
//! list of strings or `null`, and an optional `data` field holding a string or
//! `null`, in that order, with no surrounding whitespace. String contents
//! escape the quote and backslash characters with a backslash. The nested
//! chat-message payload is an object with a `from` field and a `message`
//! field, both strings, in that order.
//!
//! [`spec_encode_envelope`] and [`spec_decode_envelope`] (and their
//! chat-message counterparts) define the format; the executable codec in
//! [`crate::codec`] is proved against them, and [`lemma_envelope_round_trip`]
//! proves that decoding inverts encoding on every envelope value.

use vstd::prelude::*;

use crate::types::{ChatMessageV, EnvelopeV, MsgTypes};

verus! {

// ---------------------------------------------------------------------------
// Encoding
// ---------------------------------------------------------------------------

/// String content with `"` and `\` escaped by a leading backslash.
pub open spec fn escape_content(c: Seq<char>) -> Seq<char>
    decreases c.len(),
{
    if c.len() == 0 {
        Seq::empty()
    } else if c[0] == '"' || c[0] == '\\' {
        seq!['\\', c[0]] + escape_content(c.drop_first())
    } else {
        seq![c[0]] + escape_content(c.drop_first())
    }
}

/// A string value on the wire: escaped content between quotes.
pub open spec fn quoted(c: Seq<char>) -> Seq<char> {
    seq!['"'] + escape_content(c) + seq!['"']
}

/// The wire name of each envelope kind.
pub open spec fn kind_name(k: MsgTypes) -> Seq<char> {
    match k {
        MsgTypes::Users => seq!['u', 's', 'e', 'r', 's'],
        MsgTypes::Register => seq!['r', 'e', 'g', 'i', 's', 't', 'e', 'r'],
        MsgTypes::Message => seq!['m', 'e', 's', 's', 'a', 'g', 'e'],
    }
}

/// The kind a wire name denotes, if any.
pub open spec fn kind_of_name(c: Seq<char>) -> Option<MsgTypes> {
    if c == kind_name(MsgTypes::Users) {
        Option::Some(MsgTypes::Users)
    } else if c == kind_name(MsgTypes::Register) {
        Option::Some(MsgTypes::Register)
    } else if c == kind_name(MsgTypes::Message) {
        Option::Some(MsgTypes::Message)
    } else {
        Option::None
    }
}

/// The opening brace and the `messageType` key, up to the kind's own quote.
pub open spec fn lit_head() -> Seq<char> {
    seq!['{', '"', 'm', 'e', 's', 's', 'a', 'g', 'e', 'T', 'y', 'p', 'e', '"', ':']
}

/// The `dataArray` key, with its leading comma.
pub open spec fn lit_list_key() -> Seq<char> {
    seq![',', '"', 'd', 'a', 't', 'a', 'A', 'r', 'r', 'a', 'y', '"', ':']
}

/// The `data` key, with its leading comma.
pub open spec fn lit_single_key() -> Seq<char> {
    seq![',', '"', 'd', 'a', 't', 'a', '"', ':']
}

/// The `null` keyword.
pub open spec fn lit_null() -> Seq<char> {
    seq!['n', 'u', 'l', 'l']
}

/// The `from` key of a chat message, with the opening brace.
pub open spec fn lit_from_key() -> Seq<char> {
    seq!['{', '"', 'f', 'r', 'o', 'm', '"', ':']
}

/// The `message` key of a chat message, with its leading comma.
pub open spec fn lit_message_key() -> Seq<char> {
    seq![',', '"', 'm', 'e', 's', 's', 'a', 'g', 'e', '"', ':']
}

/// The items of a string list from position `k` on, quoted and joined by
/// commas.
pub open spec fn encode_items_from(items: Seq<Seq<char>>, k: int) -> Seq<char>
    decreases items.len() - k,
{
    if k < 0 || k >= items.len() {
        Seq::empty()
    } else if k == items.len() - 1 {
        quoted(items[k])
    } else {
        quoted(items[k]) + seq![','] + encode_items_from(items, k + 1)
    }
}

/// An optional string list on the wire: `null` or a bracketed list.
pub open spec fn encode_list_value(o: Option<Seq<Seq<char>>>) -> Seq<char> {
    match o {
        Option::None => lit_null(),
        Option::Some(items) => seq!['['] + encode_items_from(items, 0) + seq![']'],
    }
}

/// An optional string on the wire: `null` or a quoted string.
pub open spec fn encode_single_value(o: Option<Seq<char>>) -> Seq<char> {
    match o {
        Option::None => lit_null(),
        Option::Some(c) => quoted(c),
    }
}

/// The full wire text of an envelope. Both payload fields are always written,
/// absent ones as `null`.
pub open spec fn spec_encode_envelope(e: EnvelopeV) -> Seq<char> {
    lit_head() + quoted(kind_name(e.kind)) + lit_list_key() + encode_list_value(e.payload_list)
        + lit_single_key() + encode_single_value(e.payload_single) + seq!['}']
}

/// The full wire text of a nested chat message.
pub open spec fn spec_encode_chat(m: ChatMessageV) -> Seq<char> {
    lit_from_key() + quoted(m.from) + lit_message_key() + quoted(m.body) + seq!['}']
}

// ---------------------------------------------------------------------------
// Parsing
// ---------------------------------------------------------------------------

/// Consume the fixed word `lit` at position `i`, yielding the position after
/// it.
pub open spec fn expect(s: Seq<char>, i: int, lit: Seq<char>) -> Option<int> {
    if 0 <= i && i + lit.len() <= s.len() && s.subrange(i, i + lit.len() as int) == lit {
        Option::Some(i + lit.len() as int)
    } else {
        Option::None
    }
}

/// Consume string content from position `i` (just after the opening quote) up
/// to and including the closing quote, undoing escapes; yields the content and
/// the position after the closing quote.
pub open spec fn parse_string_body(s: Seq<char>, i: int) -> Option<(Seq<char>, int)>
    decreases s.len() - i,
{
    if i < 0 || i >= s.len() {
        Option::None
    } else if s[i] == '"' {
        Option::Some((Seq::empty(), i + 1))
    } else if s[i] == '\\' {
        if i + 1 < s.len() && (s[i + 1] == '"' || s[i + 1] == '\\') {
            match parse_string_body(s, i + 2) {
                Option::Some((c, j)) => Option::Some((seq![s[i + 1]] + c, j)),
                Option::None => Option::None,
            }
        } else {
            Option::None
        }
    } else {
        match parse_string_body(s, i + 1) {
            Option::Some((c, j)) => Option::Some((seq![s[i]] + c, j)),
            Option::None => Option::None,
        }
    }
}

/// A successful string parse moves strictly forward and stays in bounds.
pub proof fn lemma_parse_string_body_range(s: Seq<char>, i: int)
    requires
        parse_string_body(s, i) is Some,
    ensures
        i < parse_string_body(s, i)->Some_0.1 <= s.len(),
    decreases s.len() - i,
{
    if s[i] == '"' {
    } else if s[i] == '\\' {
        lemma_parse_string_body_range(s, i + 2);
    } else {
        lemma_parse_string_body_range(s, i + 1);
    }
}

/// Consume one or more quoted strings separated by commas, up to and including
/// the closing bracket.
pub open spec fn parse_items(s: Seq<char>, i: int) -> Option<(Seq<Seq<char>>, int)>
    decreases s.len() - i,
    via parse_items_decreases
{
    if i < 0 || i >= s.len() || s[i] != '"' {
        Option::None
    } else {
        match parse_string_body(s, i + 1) {
            Option::None => Option::None,
            Option::Some((item, j)) => {
                if j < s.len() && s[j] == ',' {
                    match parse_items(s, j + 1) {
                        Option::Some((rest, k)) => Option::Some((seq![item] + rest, k)),
                        Option::None => Option::None,
                    }
                } else if j < s.len() && s[j] == ']' {
                    Option::Some((seq![item], j + 1))
                } else {
                    Option::None
                }
            },
        }
    }
}

#[via_fn]
proof fn parse_items_decreases(s: Seq<char>, i: int) {
    if !(i < 0 || i >= s.len() || s[i] != '"') {
        if parse_string_body(s, i + 1) is Some {
            lemma_parse_string_body_range(s, i + 1);
        }
    }
}

/// Consume an optional string list: `null`, `[]`, or a bracketed item list.
pub open spec fn parse_list_value(s: Seq<char>, i: int) -> Option<(Option<Seq<Seq<char>>>, int)> {
    match expect(s, i, lit_null()) {
        Option::Some(j) => Option::Some((Option::None, j)),
        Option::None => {
            if 0 <= i && i < s.len() && s[i] == '[' {
                if i + 1 < s.len() && s[i + 1] == ']' {
                    Option::Some((Option::Some(Seq::empty()), i + 2))
                } else {
                    match parse_items(s, i + 1) {
                        Option::Some((items, j)) => Option::Some((Option::Some(items), j)),
                        Option::None => Option::None,
                    }
                }
            } else {
                Option::None
            }
        },
    }
}

/// Consume an optional string: `null` or a quoted string.
pub open spec fn parse_single_value(s: Seq<char>, i: int) -> Option<(Option<Seq<char>>, int)> {
    match expect(s, i, lit_null()) {
        Option::Some(j) => Option::Some((Option::None, j)),
        Option::None => {
            if 0 <= i && i < s.len() && s[i] == '"' {
                match parse_string_body(s, i + 1) {
                    Option::Some((c, j)) => Option::Some((Option::Some(c), j)),
                    Option::None => Option::None,
                }
            } else {
                Option::None
            }
        },
    }
}

/// Consume the `dataArray` field if its key is present; an absent field reads
/// as an absent payload.
pub open spec fn parse_list_field(s: Seq<char>, i: int) -> Option<(Option<Seq<Seq<char>>>, int)> {
    match expect(s, i, lit_list_key()) {
        Option::Some(j) => parse_list_value(s, j),
        Option::None => Option::Some((Option::None, i)),
    }
}

/// Consume the `data` field if its key is present; an absent field reads as an
/// absent payload.
pub open spec fn parse_single_field(s: Seq<char>, i: int) -> Option<(Option<Seq<char>>, int)> {
    match expect(s, i, lit_single_key()) {
        Option::Some(j) => parse_single_value(s, j),
        Option::None => Option::Some((Option::None, i)),
    }
}

/// The envelope a complete frame text denotes, if it is well-formed and its
/// kind is recognized.
pub open spec fn spec_decode_envelope(s: Seq<char>) -> Option<EnvelopeV> {
    match expect(s, 0, lit_head()) {
        Option::None => Option::None,
        Option::Some(i0) => {
            if i0 < s.len() && s[i0] == '"' {
                match parse_string_body(s, i0 + 1) {
                    Option::None => Option::None,
                    Option::Some((kc, i1)) => {
                        match kind_of_name(kc) {
                            Option::None => Option::None,
                            Option::Some(k) => {
                                match parse_list_field(s, i1) {
                                    Option::None => Option::None,
                                    Option::Some((pl, i2)) => {
                                        match parse_single_field(s, i2) {
                                            Option::None => Option::None,
                                            Option::Some((ps, i3)) => {
                                                if i3 < s.len() && s[i3] == '}' && i3 + 1
                                                    == s.len() {
                                                    Option::Some(
                                                        EnvelopeV {
                                                            kind: k,
                                                            payload_list: pl,
                                                            payload_single: ps,
                                                        },
                                                    )
                                                } else {
                                                    Option::None
                                                }
                                            },
                                        }
                                    },
                                }
                            },
                        }
                    },
                }
            } else {
                Option::None
            }
        },
    }
}

// ---------------------------------------------------------------------------
// Round trip: decoding inverts encoding
// ---------------------------------------------------------------------------

/// The word `w` stands letter for letter at position `i` of `s`.
pub open spec fn occurs_at(s: Seq<char>, i: int, w: Seq<char>) -> bool {
    &&& 0 <= i
    &&& i + w.len() <= s.len()
    &&& forall|k: int| 0 <= k < w.len() ==> s[i + k] == w[k]
}

/// A word assembled from two halves occurs where its halves occur in turn.
pub proof fn lemma_occurs_split(s: Seq<char>, i: int, a: Seq<char>, b: Seq<char>)
    requires
        occurs_at(s, i, a + b),
    ensures
        occurs_at(s, i, a),
        occurs_at(s, i + a.len(), b),
{
    assert forall|k: int| 0 <= k < a.len() implies s[i + k] == a[k] by {
        assert(s[i + k] == (a + b)[k]);
    }
    assert forall|k: int| 0 <= k < b.len() implies s[i + a.len() + k] == b[k] by {
        assert(s[i + (a.len() + k)] == (a + b)[a.len() + k]);
    }
}

/// A word that stands at `i` is consumed by `expect` there.
pub proof fn lemma_expect_occurs(s: Seq<char>, i: int, w: Seq<char>)
    requires
        occurs_at(s, i, w),
    ensures
        expect(s, i, w) == Option::Some(i + w.len() as int),
{
    assert(s.subrange(i, i + w.len() as int) =~= w);
}

/// `expect` refuses a word whose first letter does not stand at `i`.
pub proof fn lemma_expect_mismatch(s: Seq<char>, i: int, w: Seq<char>)
    requires
        0 <= i < s.len(),
        w.len() > 0,
        s[i] != w[0],
    ensures
        expect(s, i, w) is None,
{
    if i + w.len() <= s.len() {
        assert(s.subrange(i, i + w.len() as int)[0] == s[i]);
    }
}

/// Escaped content standing at `i`, followed by a closing quote, parses back
/// to the original content.
pub proof fn lemma_parse_escaped(s: Seq<char>, i: int, c: Seq<char>)
    requires
        occurs_at(s, i, escape_content(c)),
        i + escape_content(c).len() < s.len(),
        s[i + escape_content(c).len()] == '"',
    ensures
        parse_string_body(s, i) == Option::Some((c, i + escape_content(c).len() + 1)),
    decreases c.len(),
{
    let e = escape_content(c);
    if c.len() == 0 {
        assert(s[i] == '"');
        assert(c =~= Seq::<char>::empty());
    } else {
        let c0 = c[0];
        let cr = c.drop_first();
        let er = escape_content(cr);
        assert(c =~= seq![c0] + cr);
        if c0 == '"' || c0 == '\\' {
            assert(e =~= seq!['\\', c0] + er);
            assert(s[i] == e[0]);
            assert(s[i] == '\\');
            assert(s[i + 1] == e[1]);
            assert(s[i + 1] == c0);
            assert(occurs_at(s, i + 2, er)) by {
                assert forall|k: int| 0 <= k < er.len() implies s[i + 2 + k] == er[k] by {
                    assert(e[2 + k] == er[k]);
                    assert(s[i + (2 + k)] == e[2 + k]);
                }
            }
            assert(s[i + 2 + er.len()] == '"');
            lemma_parse_escaped(s, i + 2, cr);
            assert(seq![s[i + 1]] + cr =~= c);
        } else {
            assert(e =~= seq![c0] + er);
            assert(s[i] == e[0]);
            assert(s[i] == c0);
            assert(occurs_at(s, i + 1, er)) by {
                assert forall|k: int| 0 <= k < er.len() implies s[i + 1 + k] == er[k] by {
                    assert(e[1 + k] == er[k]);
                    assert(s[i + (1 + k)] == e[1 + k]);
                }
            }
            assert(s[i + 1 + er.len()] == '"');
            lemma_parse_escaped(s, i + 1, cr);
            assert(seq![s[i]] + cr =~= c);
        }
    }
}

/// A quoted string standing at `i` parses back to its content, starting just
/// after its opening quote.
pub proof fn lemma_parse_quoted(s: Seq<char>, i: int, c: Seq<char>)
    requires
        occurs_at(s, i, quoted(c)),
    ensures
        parse_string_body(s, i + 1) == Option::Some((c, i + quoted(c).len())),
{
    let e = escape_content(c);
    let q = quoted(c);
    assert(q[0] == '"');
    assert(q[1 + e.len() as int] == '"');
    assert(occurs_at(s, i + 1, e)) by {
        assert forall|k: int| 0 <= k < e.len() implies s[i + 1 + k] == e[k] by {
            assert(q[1 + k] == e[k]);
            assert(s[i + (1 + k)] == q[1 + k]);
        }
    }
    assert(s[i + 1 + e.len()] == '"');
    lemma_parse_escaped(s, i + 1, c);
}

/// A comma-joined item list standing at `i`, followed by a closing bracket,
/// parses back to the items from position `k` on.
pub proof fn lemma_parse_items(s: Seq<char>, i: int, items: Seq<Seq<char>>, k: int)
    requires
        0 <= k < items.len(),
        occurs_at(s, i, encode_items_from(items, k) + seq![']']),
    ensures
        parse_items(s, i) == Option::Some(
            (items.skip(k), i + encode_items_from(items, k).len() + 1),
        ),
    decreases items.len() - k,
{
    let w = encode_items_from(items, k) + seq![']'];
    let q = quoted(items[k]);
    assert(occurs_at(s, i, q)) by {
        assert forall|m: int| 0 <= m < q.len() implies s[i + m] == q[m] by {
            assert(w[m] == q[m]);
        }
    }
    assert(s[i] == q[0]);
    assert(s[i] == '"');
    lemma_parse_quoted(s, i, items[k]);
    let j = i + q.len();
    if k == items.len() - 1 {
        assert(w[q.len() as int] == ']');
        assert(s[j] == ']');
        assert(items.skip(k) =~= seq![items[k]]);
    } else {
        let rest = encode_items_from(items, k + 1);
        assert(encode_items_from(items, k) =~= q + seq![','] + rest);
        assert(w[q.len() as int] == ',');
        assert(s[j] == ',');
        assert(occurs_at(s, j + 1, rest + seq![']'])) by {
            assert forall|m: int| 0 <= m < rest.len() + 1 implies s[j + 1 + m] == (rest
                + seq![']'])[m] by {
                assert(w[q.len() + 1 + m] == (rest + seq![']'])[m]);
                assert(s[i + (q.len() + 1 + m)] == w[q.len() + 1 + m]);
            }
        }
        lemma_parse_items(s, j + 1, items, k + 1);
        assert(items.skip(k) =~= seq![items[k]] + items.skip(k + 1));
    }
}

/// An optional string list standing at `i` parses back to itself.
pub proof fn lemma_parse_list_value(s: Seq<char>, i: int, o: Option<Seq<Seq<char>>>)
    requires
        occurs_at(s, i, encode_list_value(o)),
        i + encode_list_value(o).len() < s.len(),
    ensures
        parse_list_value(s, i) == Option::Some((o, i + encode_list_value(o).len())),
{
    match o {
        Option::None => {
            lemma_expect_occurs(s, i, lit_null());
        },
        Option::Some(items) => {
            let w = encode_list_value(o);
            assert(s[i] == w[0]);
            assert(s[i] == '[');
            lemma_expect_mismatch(s, i, lit_null());
            if items.len() == 0 {
                assert(w =~= seq!['[', ']']);
                assert(s[i + 1] == ']');
                assert(items =~= Seq::<Seq<char>>::empty());
            } else {
                let body = encode_items_from(items, 0);
                assert(w =~= seq!['['] + (body + seq![']']));
                assert(s[i + 1] == w[1]);
                assert(w[1] == quoted(items[0])[0]) by {
                    assert(encode_items_from(items, 0)[0] == quoted(items[0])[0]);
                }
                assert(s[i + 1] == '"');
                assert(occurs_at(s, i + 1, body + seq![']'])) by {
                    assert forall|m: int| 0 <= m < body.len() + 1 implies s[i + 1 + m] == (body
                        + seq![']'])[m] by {
                        assert(w[1 + m] == (body + seq![']'])[m]);
                        assert(s[i + (1 + m)] == w[1 + m]);
                    }
                }
                lemma_parse_items(s, i + 1, items, 0);
                assert(items.skip(0) =~= items);
            }
        },
    }
}

/// An optional string standing at `i` parses back to itself.
pub proof fn lemma_parse_single_value(s: Seq<char>, i: int, o: Option<Seq<char>>)
    requires
        occurs_at(s, i, encode_single_value(o)),
        i + encode_single_value(o).len() < s.len(),
    ensures
        parse_single_value(s, i) == Option::Some((o, i + encode_single_value(o).len())),
{
    match o {
        Option::None => {
            lemma_expect_occurs(s, i, lit_null());
        },
        Option::Some(c) => {
            let w = encode_single_value(o);
            assert(s[i] == w[0]);
            assert(s[i] == '"');
            lemma_expect_mismatch(s, i, lit_null());
            lemma_parse_quoted(s, i, c);
        },
    }
}

/// Round trip for envelopes: decoding the encoding of any envelope value
/// yields that value back.
#[verifier::rlimit(80)]
pub proof fn lemma_envelope_round_trip(e: EnvelopeV)
    ensures
        spec_decode_envelope(spec_encode_envelope(e)) == Option::Some(e),
{
    let s = spec_encode_envelope(e);
    let p1 = lit_head();
    let p2 = quoted(kind_name(e.kind));
    let p3 = lit_list_key();
    let p4 = encode_list_value(e.payload_list);
    let p5 = lit_single_key();
    let p6 = encode_single_value(e.payload_single);
    let p7 = seq!['}'];

    // Peel the assembled text into its seven pieces, right to left.
    assert(occurs_at(s, 0, s));
    lemma_occurs_split(s, 0, p1 + p2 + p3 + p4 + p5 + p6, p7);
    lemma_occurs_split(s, 0, p1 + p2 + p3 + p4 + p5, p6);
    lemma_occurs_split(s, 0, p1 + p2 + p3 + p4, p5);
    lemma_occurs_split(s, 0, p1 + p2 + p3, p4);
    lemma_occurs_split(s, 0, p1 + p2, p3);
    lemma_occurs_split(s, 0, p1, p2);

    // The head literal.
    lemma_expect_occurs(s, 0, p1);
    let i0 = p1.len() as int;

    // The quoted kind name.
    assert(s[i0 + 0] == p2[0]);
    assert(s[i0] == '"');
    lemma_parse_quoted(s, i0, kind_name(e.kind));
    let i1 = i0 + p2.len();
    assert(kind_of_name(kind_name(e.kind)) == Option::Some(e.kind));

    // The dataArray field.
    lemma_expect_occurs(s, i1, p3);
    let iv = i1 + p3.len();
    lemma_parse_list_value(s, iv, e.payload_list);
    let i2 = iv + p4.len();

    // The data field.
    lemma_expect_occurs(s, i2, p5);
    let iw = i2 + p5.len();
    lemma_parse_single_value(s, iw, e.payload_single);
    let i3 = iw + p6.len();

    // The closing brace ends the text.
    assert(s[i3 + 0] == p7[0]);
    assert(s[i3] == '}');
    assert(i3 + 1 == s.len());
    assert(spec_decode_envelope(s) == Option::Some(
        EnvelopeV { kind: e.kind, payload_list: e.payload_list, payload_single: e.payload_single },
    ));
    assert(EnvelopeV {
        kind: e.kind,
        payload_list: e.payload_list,
        payload_single: e.payload_single,
    } =~= e);
}

/// Round trip for nested chat messages: decoding the encoding of any chat
/// message yields that message back.
pub proof fn lemma_chat_round_trip(m: ChatMessageV)
    ensures
        spec_decode_chat(spec_encode_chat(m)) == Option::Some(m),
{
    let s = spec_encode_chat(m);
    let p1 = lit_from_key();
    let p2 = quoted(m.from);
    let p3 = lit_message_key();
    let p4 = quoted(m.body);
    let p5 = seq!['}'];

    // Peel the assembled text into its five pieces, right to left.
    assert(occurs_at(s, 0, s));
    lemma_occurs_split(s, 0, p1 + p2 + p3 + p4, p5);
    lemma_occurs_split(s, 0, p1 + p2 + p3, p4);
    lemma_occurs_split(s, 0, p1 + p2, p3);
    lemma_occurs_split(s, 0, p1, p2);

    lemma_expect_occurs(s, 0, p1);
    let i0 = p1.len() as int;

    assert(s[i0 + 0] == p2[0]);
    assert(s[i0] == '"');
    lemma_parse_quoted(s, i0, m.from);
    let i1 = i0 + p2.len();

    lemma_expect_occurs(s, i1, p3);
    let i2 = i1 + p3.len();

    assert(s[i2 + 0] == p4[0]);
    assert(s[i2] == '"');
    lemma_parse_quoted(s, i2, m.body);
    let i3 = i2 + p4.len();

    assert(s[i3 + 0] == p5[0]);
    assert(s[i3] == '}');
    assert(i3 + 1 == s.len());
    assert(ChatMessageV { from: m.from, body: m.body } =~= m);
}

/// The chat message a complete nested payload text denotes, if it is
/// well-formed.
pub open spec fn spec_decode_chat(s: Seq<char>) -> Option<ChatMessageV> {
    match expect(s, 0, lit_from_key()) {
        Option::None => Option::None,
        Option::Some(i0) => {
            if i0 < s.len() && s[i0] == '"' {
                match parse_string_body(s, i0 + 1) {
                    Option::None => Option::None,
                    Option::Some((from, i1)) => {
                        match expect(s, i1, lit_message_key()) {
                            Option::None => Option::None,
                            Option::Some(i2) => {
                                if i2 < s.len() && s[i2] == '"' {
                                    match parse_string_body(s, i2 + 1) {
                                        Option::None => Option::None,
                                        Option::Some((body, i3)) => {
                                            if i3 < s.len() && s[i3] == '}' && i3 + 1 == s.len() {
                                                Option::Some(ChatMessageV { from: from, body: body })
                                            } else {
                                                Option::None
                                            }
                                        },
                                    }
                                } else {
                                    Option::None
                                }
                            },
                        }
                    },
                }
            } else {
                Option::None
            }
        },
    }
}

} // verus!
