//! The executable envelope codec, proved against the wire grammar of
//! [`crate::wire`].
//!
//! [`encode`] produces exactly [`crate::wire::spec_encode_envelope`] of its
//! argument; [`decode`] succeeds exactly on the texts that
//! [`crate::wire::spec_decode_envelope`] accepts and returns the envelope that
//! the grammar assigns to the text. The nested chat-message payload has its
//! own pair, [`encode_chat`] and [`decode_chat`].

use vstd::prelude::*;

use crate::types::{ChatMessage, DecodingError, Envelope, MsgTypes, NestedDecodingError};
use crate::wire::{
    escape_content, expect, kind_name, kind_of_name, lit_from_key, lit_head, lit_list_key,
    lit_message_key, lit_null, lit_single_key, parse_items, parse_list_field, parse_single_field,
    parse_string_body, quoted, spec_decode_chat, spec_decode_envelope, spec_encode_chat,
    spec_encode_envelope,
};

verus! {

/// The list payload a decoded option of strings stands for.
pub open spec fn opt_list_view(o: Option<Vec<String>>) -> Option<Seq<Seq<char>>> {
    match o {
        Option::Some(l) => Option::Some(l.deep_view()),
        Option::None => Option::None,
    }
}

/// The single payload a decoded option of a string stands for.
pub open spec fn opt_string_view(o: Option<String>) -> Option<Seq<char>> {
    match o {
        Option::Some(s) => Option::Some(s@),
        Option::None => Option::None,
    }
}

/// The characters of a string slice, in order.
fn str_chars(s: &str) -> (v: Vec<char>)
    ensures
        v@ == s@,
{
    let n = s.unicode_len();
    let mut v: Vec<char> = Vec::new();
    proof {
        assert(v@ =~= s@.take(0));
    }
    let mut i: usize = 0;
    while i < n
        invariant
            n == s@.len(),
            i <= n,
            v@ == s@.take(i as int),
        decreases n - i,
    {
        let c = s.get_char(i);
        v.push(c);
        proof {
            assert(s@.take(i as int).push(s@[i as int]) =~= s@.take(i as int + 1));
        }
        i += 1;
    }
    proof {
        assert(s@.take(n as int) =~= s@);
    }
    v
}

/// Relies on `String: FromIterator<char>` (`Iterator::collect`): collecting
/// characters yields the string of exactly those characters, in order.
#[verifier::external_body]
fn chars_to_string(v: &Vec<char>) -> (r: String)
    ensures
        r@ == v@,
{
    v.iter().collect()
}

/// Append the characters of `s` to `out`.
fn push_str_chars(out: &mut Vec<char>, s: &str)
    ensures
        final(out)@ == old(out)@ + s@,
{
    let n = s.unicode_len();
    proof {
        assert(out@ =~= old(out)@ + s@.take(0));
    }
    let mut i: usize = 0;
    while i < n
        invariant
            n == s@.len(),
            i <= n,
            out@ == old(out)@ + s@.take(i as int),
        decreases n - i,
    {
        let c = s.get_char(i);
        out.push(c);
        proof {
            assert(s@.take(i as int).push(s@[i as int]) =~= s@.take(i as int + 1));
            assert(out@ =~= old(out)@ + s@.take(i as int + 1));
        }
        i += 1;
    }
    proof {
        assert(s@.take(n as int) =~= s@);
    }
}

/// Append the wire form of the string `s` to `out`: quotes around content with
/// `"` and `\` escaped.
fn push_quoted(out: &mut Vec<char>, s: &str)
    ensures
        final(out)@ == old(out)@ + quoted(s@),
{
    out.push('"');
    let ghost base = out@;
    proof {
        assert(base =~= old(out)@ + seq!['"']);
        assert(s@.skip(0) =~= s@);
    }
    let n = s.unicode_len();
    let mut i: usize = 0;
    while i < n
        invariant
            n == s@.len(),
            i <= n,
            out@ + escape_content(s@.skip(i as int)) == base + escape_content(s@),
        decreases n - i,
    {
        let c = s.get_char(i);
        let ghost pre = out@;
        let ghost tail = s@.skip(i as int);
        proof {
            assert(tail[0] == s@[i as int]);
            assert(tail.drop_first() =~= s@.skip(i as int + 1));
        }
        if c == '"' || c == '\\' {
            out.push('\\');
            out.push(c);
            proof {
                assert(escape_content(tail) == seq!['\\', c] + escape_content(tail.drop_first()));
                assert(out@ =~= pre + seq!['\\', c]);
                assert(out@ + escape_content(s@.skip(i as int + 1)) =~= pre + escape_content(tail));
            }
        } else {
            out.push(c);
            proof {
                assert(escape_content(tail) == seq![c] + escape_content(tail.drop_first()));
                assert(out@ =~= pre + seq![c]);
                assert(out@ + escape_content(s@.skip(i as int + 1)) =~= pre + escape_content(tail));
            }
        }
        i += 1;
    }
    proof {
        assert(s@.skip(n as int) =~= Seq::<char>::empty());
        assert(escape_content(Seq::<char>::empty()) =~= Seq::<char>::empty());
        assert(out@ =~= base + escape_content(s@));
    }
    out.push('"');
    proof {
        assert(out@ =~= old(out)@ + quoted(s@));
    }
}

/// Whether a string equals a literal, character for character.
fn str_eq_lit(a: &String, b: &str) -> (r: bool)
    ensures
        r == (a@ == b@),
{
    let n = a.as_str().unicode_len();
    let m = b.unicode_len();
    if n != m {
        return false;
    }
    let mut k: usize = 0;
    while k < n
        invariant
            n == a@.len(),
            n == b@.len(),
            k <= n,
            forall|t: int| 0 <= t < k ==> a@[t] == b@[t],
        decreases n - k,
    {
        if a.as_str().get_char(k) != b.get_char(k) {
            return false;
        }
        k += 1;
    }
    proof {
        assert(a@ =~= b@);
    }
    true
}

/// Consume the fixed word `lit` at position `i` of `v`, as [`expect`] does.
fn expect_lit(v: &Vec<char>, i: usize, lit: &str) -> (r: Option<usize>)
    ensures
        match r {
            Option::Some(j) => expect(v@, i as int, lit@) == Option::Some(j as int) && i <= j
                <= v.len(),
            Option::None => expect(v@, i as int, lit@) is None,
        },
{
    let n = lit.unicode_len();
    if i > v.len() || v.len() - i < n {
        return Option::None;
    }
    let mut k: usize = 0;
    while k < n
        invariant
            n == lit@.len(),
            i + n <= v.len(),
            k <= n,
            forall|t: int| 0 <= t < k ==> v@[i + t] == lit@[t],
        decreases n - k,
    {
        if v[i + k] != lit.get_char(k) {
            proof {
                assert(v@.subrange(i as int, i as int + n as int)[k as int] == v@[i + k]);
            }
            return Option::None;
        }
        k += 1;
    }
    proof {
        assert(v@.subrange(i as int, i as int + n as int) =~= lit@);
    }
    Option::Some(i + n)
}

/// Consume string content from `start` (just after an opening quote) as
/// [`parse_string_body`] does, yielding the content and the position after the
/// closing quote.
fn parse_string_at(v: &Vec<char>, start: usize) -> (r: Option<(String, usize)>)
    requires
        start <= v.len(),
    ensures
        match r {
            Option::Some(p) => parse_string_body(v@, start as int) == Option::Some(
                (p.0@, p.1 as int),
            ) && start < p.1 <= v.len(),
            Option::None => parse_string_body(v@, start as int) is None,
        },
{
    let ghost s = v@;
    let mut i: usize = start;
    let mut acc: Vec<char> = Vec::new();
    proof {
        if parse_string_body(s, start as int) is Some {
            let p = parse_string_body(s, start as int)->Some_0;
            assert(acc@ + p.0 =~= p.0);
        }
    }
    loop
        invariant
            s == v@,
            start <= i <= v.len(),
            (match parse_string_body(s, i as int) {
                Option::Some(p) => parse_string_body(s, start as int) == Option::Some(
                    (acc@ + p.0, p.1),
                ),
                Option::None => parse_string_body(s, start as int) is None,
            }),
        decreases v.len() - i,
    {
        if i >= v.len() {
            return Option::None;
        }
        let c = v[i];
        if c == '"' {
            proof {
                assert(acc@ + Seq::<char>::empty() =~= acc@);
            }
            let content = chars_to_string(&acc);
            return Option::Some((content, i + 1));
        } else if c == '\\' {
            if i + 1 < v.len() {
                let e = v[i + 1];
                if e == '"' || e == '\\' {
                    let ghost acc_old = acc@;
                    acc.push(e);
                    proof {
                        if parse_string_body(s, i as int + 2) is Some {
                            let p = parse_string_body(s, i as int + 2)->Some_0;
                            assert(parse_string_body(s, i as int) == Option::Some(
                                (seq![e] + p.0, p.1),
                            ));
                            assert(acc_old + (seq![e] + p.0) =~= acc@ + p.0);
                        }
                    }
                    i = i + 2;
                } else {
                    return Option::None;
                }
            } else {
                return Option::None;
            }
        } else {
            let ghost acc_old = acc@;
            acc.push(c);
            proof {
                if parse_string_body(s, i as int + 1) is Some {
                    let p = parse_string_body(s, i as int + 1)->Some_0;
                    assert(parse_string_body(s, i as int) == Option::Some((seq![c] + p.0, p.1)));
                    assert(acc_old + (seq![c] + p.0) =~= acc@ + p.0);
                }
            }
            i = i + 1;
        }
    }
}

/// Consume a comma-separated item list at `start` as [`parse_items`] does.
fn parse_items_at(v: &Vec<char>, start: usize) -> (r: Option<(Vec<String>, usize)>)
    requires
        start <= v.len(),
    ensures
        match r {
            Option::Some(p) => parse_items(v@, start as int) == Option::Some(
                (p.0.deep_view(), p.1 as int),
            ) && p.1 <= v.len(),
            Option::None => parse_items(v@, start as int) is None,
        },
{
    let ghost s = v@;
    let mut i: usize = start;
    let mut items: Vec<String> = Vec::new();
    proof {
        assert(items.deep_view() =~= Seq::<Seq<char>>::empty());
        if parse_items(s, start as int) is Some {
            let p = parse_items(s, start as int)->Some_0;
            assert(items.deep_view() + p.0 =~= p.0);
        }
    }
    loop
        invariant
            s == v@,
            start <= i <= v.len(),
            (match parse_items(s, i as int) {
                Option::Some(p) => parse_items(s, start as int) == Option::Some(
                    (items.deep_view() + p.0, p.1),
                ),
                Option::None => parse_items(s, start as int) is None,
            }),
        decreases v.len() - i,
    {
        if i >= v.len() {
            return Option::None;
        }
        if v[i] != '"' {
            return Option::None;
        }
        match parse_string_at(v, i + 1) {
            Option::None => {
                return Option::None;
            },
            Option::Some(p) => {
                let item = p.0;
                let j = p.1;
                let ghost items_old = items.deep_view();
                let ghost item_v = item@;
                if j < v.len() && v[j] == ',' {
                    items.push(item);
                    proof {
                        assert(items.deep_view() =~= items_old.push(item_v));
                        if parse_items(s, j as int + 1) is Some {
                            let q = parse_items(s, j as int + 1)->Some_0;
                            assert(parse_items(s, i as int) == Option::Some(
                                (seq![item_v] + q.0, q.1),
                            ));
                            assert(items_old + (seq![item_v] + q.0) =~= items.deep_view() + q.0);
                        }
                    }
                    i = j + 1;
                } else if j < v.len() && v[j] == ']' {
                    items.push(item);
                    proof {
                        assert(items.deep_view() =~= items_old.push(item_v));
                        assert(parse_items(s, i as int) == Option::Some(
                            (seq![item_v], j as int + 1),
                        ));
                        assert(items_old + seq![item_v] =~= items.deep_view());
                    }
                    return Option::Some((items, j + 1));
                } else {
                    return Option::None;
                }
            },
        }
    }
}

/// Consume the `dataArray` field, if present, as [`parse_list_field`] does.
fn parse_list_field_at(v: &Vec<char>, i: usize) -> (r: Option<(Option<Vec<String>>, usize)>)
    requires
        i <= v.len(),
    ensures
        match r {
            Option::Some(p) => parse_list_field(v@, i as int) == Option::Some(
                (opt_list_view(p.0), p.1 as int),
            ) && p.1 <= v.len(),
            Option::None => parse_list_field(v@, i as int) is None,
        },
{
    proof {
        reveal_strlit(",\"dataArray\":");
        assert((",\"dataArray\":")@ =~= lit_list_key());
        reveal_strlit("null");
        assert(("null")@ =~= lit_null());
    }
    match expect_lit(v, i, ",\"dataArray\":") {
        Option::None => Option::Some((Option::None, i)),
        Option::Some(j) => {
            match expect_lit(v, j, "null") {
                Option::Some(j2) => Option::Some((Option::None, j2)),
                Option::None => {
                    if j < v.len() && v[j] == '[' {
                        if j + 1 < v.len() && v[j + 1] == ']' {
                            let empty: Vec<String> = Vec::new();
                            proof {
                                assert(empty.deep_view() =~= Seq::<Seq<char>>::empty());
                            }
                            Option::Some((Option::Some(empty), j + 2))
                        } else {
                            match parse_items_at(v, j + 1) {
                                Option::Some(p) => Option::Some((Option::Some(p.0), p.1)),
                                Option::None => Option::None,
                            }
                        }
                    } else {
                        Option::None
                    }
                },
            }
        },
    }
}

/// Consume the `data` field, if present, as [`parse_single_field`] does.
fn parse_single_field_at(v: &Vec<char>, i: usize) -> (r: Option<(Option<String>, usize)>)
    requires
        i <= v.len(),
    ensures
        match r {
            Option::Some(p) => parse_single_field(v@, i as int) == Option::Some(
                (opt_string_view(p.0), p.1 as int),
            ) && p.1 <= v.len(),
            Option::None => parse_single_field(v@, i as int) is None,
        },
{
    proof {
        reveal_strlit(",\"data\":");
        assert((",\"data\":")@ =~= lit_single_key());
        reveal_strlit("null");
        assert(("null")@ =~= lit_null());
    }
    match expect_lit(v, i, ",\"data\":") {
        Option::None => Option::Some((Option::None, i)),
        Option::Some(j) => {
            match expect_lit(v, j, "null") {
                Option::Some(j2) => Option::Some((Option::None, j2)),
                Option::None => {
                    if j < v.len() && v[j] == '"' {
                        match parse_string_at(v, j + 1) {
                            Option::Some(p) => Option::Some((Option::Some(p.0), p.1)),
                            Option::None => Option::None,
                        }
                    } else {
                        Option::None
                    }
                },
            }
        },
    }
}

/// Encode an envelope into its wire text. Every envelope value is
/// representable, so encoding never fails.
pub fn encode(e: &Envelope) -> (r: String)
    ensures
        r@ == spec_encode_envelope(e@),
{
    let mut out: Vec<char> = Vec::new();
    push_str_chars(&mut out, "{\"messageType\":");
    proof {
        reveal_strlit("{\"messageType\":");
        assert(("{\"messageType\":")@ =~= lit_head());
    }
    match e.kind {
        MsgTypes::Users => {
            push_quoted(&mut out, "users");
            proof {
                reveal_strlit("users");
                assert(("users")@ =~= kind_name(MsgTypes::Users));
            }
        },
        MsgTypes::Register => {
            push_quoted(&mut out, "register");
            proof {
                reveal_strlit("register");
                assert(("register")@ =~= kind_name(MsgTypes::Register));
            }
        },
        MsgTypes::Message => {
            push_quoted(&mut out, "message");
            proof {
                reveal_strlit("message");
                assert(("message")@ =~= kind_name(MsgTypes::Message));
            }
        },
    }
    push_str_chars(&mut out, ",\"dataArray\":");
    proof {
        reveal_strlit(",\"dataArray\":");
        assert((",\"dataArray\":")@ =~= lit_list_key());
    }
    match &e.payload_list {
        Option::None => {
            push_str_chars(&mut out, "null");
            proof {
                reveal_strlit("null");
                assert(("null")@ =~= lit_null());
            }
        },
        Option::Some(items) => {
            out.push('[');
            let ghost base = out@;
            let ghost iv = items.deep_view();
            let n = items.len();
            let mut idx: usize = 0;
            proof {
                assert(iv.len() == n);
            }
            while idx < n
                invariant
                    iv == items.deep_view(),
                    n == items.len(),
                    n == iv.len(),
                    idx <= n,
                    out@ + crate::wire::encode_items_from(iv, idx as int) == base
                        + crate::wire::encode_items_from(iv, 0),
                decreases n - idx,
            {
                let ghost pre = out@;
                proof {
                    assert(iv[idx as int] == items@[idx as int]@);
                }
                push_quoted(&mut out, items[idx].as_str());
                if idx + 1 < n {
                    out.push(',');
                    proof {
                        assert(out@ =~= pre + (quoted(iv[idx as int]) + seq![',']));
                        assert(out@ + crate::wire::encode_items_from(iv, idx as int + 1) =~= pre
                            + crate::wire::encode_items_from(iv, idx as int));
                    }
                } else {
                    proof {
                        assert(out@ =~= pre + quoted(iv[idx as int]));
                        assert(crate::wire::encode_items_from(iv, idx as int + 1)
                            =~= Seq::<char>::empty());
                        assert(out@ + crate::wire::encode_items_from(iv, idx as int + 1) =~= pre
                            + crate::wire::encode_items_from(iv, idx as int));
                    }
                }
                idx += 1;
            }
            proof {
                assert(crate::wire::encode_items_from(iv, n as int) =~= Seq::<char>::empty());
                assert(out@ =~= out@ + crate::wire::encode_items_from(iv, n as int));
            }
            out.push(']');
            proof {
                assert(out@ =~= (base + crate::wire::encode_items_from(iv, 0)) + seq![']']);
            }
        },
    }
    push_str_chars(&mut out, ",\"data\":");
    proof {
        reveal_strlit(",\"data\":");
        assert((",\"data\":")@ =~= lit_single_key());
    }
    match &e.payload_single {
        Option::None => {
            push_str_chars(&mut out, "null");
            proof {
                reveal_strlit("null");
                assert(("null")@ =~= lit_null());
            }
        },
        Option::Some(s) => {
            push_quoted(&mut out, s.as_str());
        },
    }
    out.push('}');
    let r = chars_to_string(&out);
    proof {
        assert(r@ =~= spec_encode_envelope(e@));
    }
    r
}

/// Encode a chat message into the nested wire text carried by a
/// `Message`-kind envelope.
pub fn encode_chat(m: &ChatMessage) -> (r: String)
    ensures
        r@ == spec_encode_chat(m@),
{
    let mut out: Vec<char> = Vec::new();
    push_str_chars(&mut out, "{\"from\":");
    proof {
        reveal_strlit("{\"from\":");
        assert(("{\"from\":")@ =~= lit_from_key());
    }
    push_quoted(&mut out, m.from.as_str());
    push_str_chars(&mut out, ",\"message\":");
    proof {
        reveal_strlit(",\"message\":");
        assert((",\"message\":")@ =~= lit_message_key());
    }
    push_quoted(&mut out, m.body.as_str());
    out.push('}');
    let r = chars_to_string(&out);
    proof {
        assert(r@ =~= spec_encode_chat(m@));
    }
    r
}

/// Decode a frame text into an envelope. Succeeds exactly when the text is a
/// well-formed frame whose kind is one of the three recognized names.
pub fn decode(text: &str) -> (r: Result<Envelope, DecodingError>)
    ensures
        match r {
            Result::Ok(e) => spec_decode_envelope(text@) == Option::Some(e@),
            Result::Err(_) => spec_decode_envelope(text@) is None,
        },
{
    let v = str_chars(text);
    proof {
        reveal_strlit("{\"messageType\":");
        assert(("{\"messageType\":")@ =~= lit_head());
    }
    let i0 = match expect_lit(&v, 0, "{\"messageType\":") {
        Option::Some(j) => j,
        Option::None => {
            return Result::Err(DecodingError);
        },
    };
    if i0 >= v.len() {
        return Result::Err(DecodingError);
    }
    if v[i0] != '"' {
        return Result::Err(DecodingError);
    }
    let (kstr, i1) = match parse_string_at(&v, i0 + 1) {
        Option::Some(p) => p,
        Option::None => {
            return Result::Err(DecodingError);
        },
    };
    proof {
        reveal_strlit("users");
        assert(("users")@ =~= kind_name(MsgTypes::Users));
        reveal_strlit("register");
        assert(("register")@ =~= kind_name(MsgTypes::Register));
        reveal_strlit("message");
        assert(("message")@ =~= kind_name(MsgTypes::Message));
    }
    let kind = if str_eq_lit(&kstr, "users") {
        MsgTypes::Users
    } else if str_eq_lit(&kstr, "register") {
        MsgTypes::Register
    } else if str_eq_lit(&kstr, "message") {
        MsgTypes::Message
    } else {
        proof {
            assert(kind_of_name(kstr@) is None);
        }
        return Result::Err(DecodingError);
    };
    proof {
        assert(kind_of_name(kstr@) == Option::Some(kind));
    }
    let (plist, i2) = match parse_list_field_at(&v, i1) {
        Option::Some(p) => p,
        Option::None => {
            return Result::Err(DecodingError);
        },
    };
    let (psingle, i3) = match parse_single_field_at(&v, i2) {
        Option::Some(p) => p,
        Option::None => {
            return Result::Err(DecodingError);
        },
    };
    if i3 < v.len() && v[i3] == '}' && i3 + 1 == v.len() {
        let env = Envelope { kind, payload_list: plist, payload_single: psingle };
        Result::Ok(env)
    } else {
        Result::Err(DecodingError)
    }
}

/// Decode the nested chat-message payload of a `Message`-kind envelope.
pub fn decode_chat(text: &str) -> (r: Result<ChatMessage, NestedDecodingError>)
    ensures
        match r {
            Result::Ok(m) => spec_decode_chat(text@) == Option::Some(m@),
            Result::Err(_) => spec_decode_chat(text@) is None,
        },
{
    let v = str_chars(text);
    proof {
        reveal_strlit("{\"from\":");
        assert(("{\"from\":")@ =~= lit_from_key());
    }
    let i0 = match expect_lit(&v, 0, "{\"from\":") {
        Option::Some(j) => j,
        Option::None => {
            return Result::Err(NestedDecodingError);
        },
    };
    if i0 >= v.len() {
        return Result::Err(NestedDecodingError);
    }
    if v[i0] != '"' {
        return Result::Err(NestedDecodingError);
    }
    let (from, i1) = match parse_string_at(&v, i0 + 1) {
        Option::Some(p) => p,
        Option::None => {
            return Result::Err(NestedDecodingError);
        },
    };
    proof {
        reveal_strlit(",\"message\":");
        assert((",\"message\":")@ =~= lit_message_key());
    }
    let i2 = match expect_lit(&v, i1, ",\"message\":") {
        Option::Some(j) => j,
        Option::None => {
            return Result::Err(NestedDecodingError);
        },
    };
    if i2 >= v.len() {
        return Result::Err(NestedDecodingError);
    }
    if v[i2] != '"' {
        return Result::Err(NestedDecodingError);
    }
    let (body, i3) = match parse_string_at(&v, i2 + 1) {
        Option::Some(p) => p,
        Option::None => {
            return Result::Err(NestedDecodingError);
        },
    };
    if i3 < v.len() && v[i3] == '}' && i3 + 1 == v.len() {
        Result::Ok(ChatMessage { from, body })
    } else {
        Result::Err(NestedDecodingError)
    }
}

} // verus!
