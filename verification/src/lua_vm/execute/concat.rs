use vstd::prelude::*;
use vstd::utf8::valid_utf8;

use crate::lua_value::lua_value::{
    dec_text, LuaValue, LUA_TSTRING, LUA_VBINARY, LUA_VNUMFLT, LUA_VNUMINT, LUA_VUSERDATA,
};

verus! {

/// `itoa::Buffer::format` on an `i64`: the decimal text of the integer.
#[verifier::external_body]
fn format_i64(i: i64) -> (r: Vec<u8>)
    ensures
        r@ == dec_text(i as int),
{
    let mut buf = itoa::Buffer::new();
    buf.format(i).as_bytes().to_vec()
}

/// The value is a string (of the string type, but not binary data).
pub open spec fn is_text(v: LuaValue) -> bool {
    v.tag() % 16 == LUA_TSTRING && v.tag() != LUA_VBINARY
}

/// The bytes a value contributes to a concatenation, and whether it was already a string or
/// binary (as opposed to a converted number or userdata); `None` for values that cannot be
/// concatenated. `text` is what the value's object supplies: the bytes of a string or
/// binary, the formatted text of a float, or what a full userdata's `lua_tostring` gives.
pub open spec fn concat_piece(v: LuaValue, text: Option<Seq<u8>>) -> Option<(Seq<u8>, bool)> {
    if is_text(v) || v.tag() == LUA_VBINARY {
        Some((text->0, true))
    } else if v.tag() == LUA_VNUMINT {
        Some((dec_text(v.payload() as i64 as int), false))
    } else if v.tag() == LUA_VNUMFLT {
        Some((text->0, false))
    } else if v.tag() == LUA_VUSERDATA {
        match text {
            Some(t) => Some((t, false)),
            None => None,
        }
    } else {
        None
    }
}

/// A value has a piece for a concatenation exactly when it is a string, a binary, a number,
/// or a full userdata that supplies a text; a string's, binary's or userdata's piece is the
/// text supplied, an integer's its decimal digits, and only strings and binaries count as
/// already being text.
pub proof fn lemma_concat_piece_accepts_convertible(v: LuaValue, text: Option<Seq<u8>>)
    requires
        text_supplied(v, text),
    ensures
        concat_piece(v, text) is Some <==> (is_text(v) || v.tag() == LUA_VBINARY || v.tag()
            == LUA_VNUMINT || v.tag() == LUA_VNUMFLT || (v.tag() == LUA_VUSERDATA && text is Some)),
        (is_text(v) || v.tag() == LUA_VBINARY || v.tag() == LUA_VUSERDATA || v.tag() == LUA_VNUMFLT)
            && text is Some ==> (concat_piece(v, text)->0).0 == text->0,
        v.tag() == LUA_VNUMINT ==> (concat_piece(v, text)->0).0 == dec_text(v.payload() as i64 as int),
        concat_piece(v, text) is Some ==> ((concat_piece(v, text)->0).1 <==> (is_text(v) || v.tag()
            == LUA_VBINARY)),
{
}

/// Strings, binaries and numbers always supply their text.
pub open spec fn text_supplied(v: LuaValue, text: Option<Seq<u8>>) -> bool {
    (is_text(v) || v.tag() == LUA_VBINARY || v.tag() == LUA_VNUMFLT) ==> text is Some
}

/// The view of an optional byte slice.
pub open spec fn opt_bytes(text: Option<&[u8]>) -> Option<Seq<u8>> {
    match text {
        Some(t) => Some(t@),
        None => None,
    }
}

/// The value can be converted to text for a concatenation: strings, binaries, numbers, and
/// full userdata that supply a `lua_tostring` text (`has_tostring`).
pub fn is_concat_convertible(value: &LuaValue, has_tostring: bool) -> (r: bool)
    ensures
        r == (is_text(*value) || value.tag() == LUA_VBINARY || value.tag() == LUA_VNUMINT
            || value.tag() == LUA_VNUMFLT || (value.tag() == LUA_VUSERDATA && has_tostring)),
{
    if (value.is_string() && !value.is_binary()) || value.is_binary() || value.is_integer()
        || value.is_float() {
        return true;
    }
    value.ttisfulluserdata() && has_tostring
}

/// Append the text of a value to `buf`: `Some(true)` if it was already a string or binary,
/// `Some(false)` for a converted number or userdata, `None` (and `buf` unchanged) for values
/// that cannot be concatenated. Integers are written in decimal.
pub fn value_to_bytes_write(value: &LuaValue, text: Option<&[u8]>, buf: &mut Vec<u8>) -> (r: Option<bool>)
    requires
        text_supplied(*value, opt_bytes(text)),
    ensures
        r == (match concat_piece(*value, opt_bytes(text)) {
            Some(p) => Some(p.1),
            None => None,
        }),
        match concat_piece(*value, opt_bytes(text)) {
            Some(p) => final(buf)@ == old(buf)@ + p.0,
            None => final(buf)@ == old(buf)@,
        },
{
    let tt = value.tt();
    if (value.is_string() && tt != LUA_VBINARY) || tt == LUA_VBINARY {
        let t = text.unwrap();
        append_bytes(buf, t);
        return Some(true);
    }
    if tt == LUA_VNUMINT {
        let digits = format_i64(value.ivalue());
        append_bytes(buf, digits.as_slice());
        return Some(false);
    }
    if tt == LUA_VNUMFLT {
        let t = text.unwrap();
        append_bytes(buf, t);
        return Some(false);
    }
    if tt == LUA_VUSERDATA {
        match text {
            Some(t) => {
                append_bytes(buf, t);
                return Some(false);
            },
            None => {
                return None;
            },
        }
    }
    None
}

/// Append `bytes` to `buf`.
fn append_bytes(buf: &mut Vec<u8>, bytes: &[u8])
    ensures
        final(buf)@ == old(buf)@ + bytes@,
{
    let mut i: usize = 0;
    while i < bytes.len()
        invariant
            i <= bytes@.len(),
            buf@ == old(buf)@ + bytes@.subrange(0, i as int),
        decreases bytes@.len() - i,
    {
        buf.push(bytes[i]);
        i = i + 1;
        assert(buf@ =~= old(buf)@ + bytes@.subrange(0, i as int));
    }
    assert(bytes@.subrange(0, bytes@.len() as int) =~= bytes@);
}

/// The concatenation of the pieces of the first `n` values, if all of them can be converted.
pub open spec fn concat_prefix(values: Seq<LuaValue>, texts: Seq<Option<Seq<u8>>>, n: nat) -> Option<Seq<u8>>
    decreases n,
{
    if n == 0 {
        Some(Seq::empty())
    } else {
        match (concat_prefix(values, texts, (n - 1) as nat), concat_piece(values[n - 1], texts[n - 1])) {
            (Some(acc), Some(p)) => Some(acc + p.0),
            _ => None,
        }
    }
}

/// The views of optional byte vectors.
pub open spec fn texts_view(texts: Seq<Option<Vec<u8>>>) -> Seq<Option<Seq<u8>>> {
    texts.map_values(|t: Option<Vec<u8>>| match t {
        Some(v) => Some(v@),
        None => None,
    })
}

/// Concatenate the texts of `values` in order (the general path of the concatenation
/// instruction, without metamethods). `texts[k]` is what the object of `values[k]` supplies.
/// The result is the bytes, or the position of the first value that cannot be concatenated.
pub fn concat_values(values: &[LuaValue], texts: &[Option<Vec<u8>>]) -> (r: Result<Vec<u8>, usize>)
    requires
        values@.len() == texts@.len(),
        forall|k: int| 0 <= k < values@.len() ==> text_supplied(values@[k], texts_view(texts@)[k]),
    ensures
        match r {
            Ok(bytes) => concat_prefix(values@, texts_view(texts@), values@.len()) == Some(bytes@),
            Err(k) => k < values@.len() && concat_prefix(values@, texts_view(texts@), k as nat) is Some
                && concat_piece(values@[k as int], texts_view(texts@)[k as int]) is None,
        },
{
    let mut buf: Vec<u8> = Vec::new();
    let mut i: usize = 0;
    while i < values.len()
        invariant
            values@.len() == texts@.len(),
            i <= values@.len(),
            forall|k: int| 0 <= k < values@.len() ==> text_supplied(values@[k], texts_view(texts@)[k]),
            concat_prefix(values@, texts_view(texts@), i as nat) == Some(buf@),
        decreases values@.len() - i,
    {
        let text: Option<&[u8]> = match &texts[i] {
            Some(v) => Some(v.as_slice()),
            None => None,
        };
        assert(opt_bytes(text) == texts_view(texts@)[i as int]);
        let r = value_to_bytes_write(&values[i], text, &mut buf);
        if r.is_none() {
            return Err(i);
        }
        i = i + 1;
    }
    Ok(buf)
}

/// `core::str::from_utf8` succeeds: the bytes are valid UTF-8.
#[verifier::external_body]
fn is_utf8(bytes: &[u8]) -> (r: bool)
    ensures
        r == valid_utf8(bytes@),
{
    core::str::from_utf8(bytes).is_ok()
}

/// What a concatenation produces.
#[derive(PartialEq, Eq, Debug)]
pub enum ConcatValue {
    /// The single operand, already a string or binary, is the result itself.
    Keep,
    /// A string with these bytes.
    Text(Vec<u8>),
    /// A binary value with these bytes (binary operands whose bytes are not valid UTF-8).
    Binary(Vec<u8>),
}

/// Some operand is a binary value.
pub open spec fn has_binary(values: Seq<LuaValue>) -> bool {
    exists|k: int| 0 <= k < values.len() && #[trigger] values[k].tag() == LUA_VBINARY
}

/// Concatenate `values` (the concatenation instruction without metamethods): a single string
/// or binary operand is the result itself; otherwise the texts are joined, and the result is
/// a binary value when some operand is binary and the bytes are not valid UTF-8, a string
/// otherwise. `Err(k)` names the first operand that cannot be concatenated.
pub fn concat_outcome(values: &[LuaValue], texts: &[Option<Vec<u8>>]) -> (r: Result<ConcatValue, usize>)
    requires
        values@.len() == texts@.len(),
        forall|k: int| 0 <= k < values@.len() ==> text_supplied(values@[k], texts_view(texts@)[k]),
    ensures
        values@.len() == 1 && (is_text(values@[0]) || values@[0].tag() == LUA_VBINARY) ==> r
            == Ok::<ConcatValue, usize>(ConcatValue::Keep),
        !(values@.len() == 1 && (is_text(values@[0]) || values@[0].tag() == LUA_VBINARY)) ==> match r {
            Ok(ConcatValue::Keep) => false,
            Ok(ConcatValue::Text(bytes)) => concat_prefix(values@, texts_view(texts@), values@.len())
                == Some(bytes@) && !(has_binary(values@) && !valid_utf8(bytes@)),
            Ok(ConcatValue::Binary(bytes)) => concat_prefix(values@, texts_view(texts@), values@.len())
                == Some(bytes@) && has_binary(values@) && !valid_utf8(bytes@),
            Err(k) => k < values@.len() && concat_prefix(values@, texts_view(texts@), k as nat) is Some
                && concat_piece(values@[k as int], texts_view(texts@)[k as int]) is None,
        },
{
    if values.len() == 1 {
        let v = &values[0];
        if v.is_string() {
            return Ok(ConcatValue::Keep);
        }
    }
    let bytes = match concat_values(values, texts) {
        Ok(b) => b,
        Err(k) => {
            return Err(k);
        },
    };
    let mut binary = false;
    let mut i: usize = 0;
    while i < values.len()
        invariant
            i <= values@.len(),
            binary <==> exists|k: int| 0 <= k < i && #[trigger] values@[k].tag() == LUA_VBINARY,
        decreases values@.len() - i,
    {
        if values[i].is_binary() {
            binary = true;
        }
        i = i + 1;
    }
    if binary && !is_utf8(bytes.as_slice()) {
        Ok(ConcatValue::Binary(bytes))
    } else {
        Ok(ConcatValue::Text(bytes))
    }
}

/// One step of the concatenation instruction's slow path over the `total` values still to
/// join, from the right end.
#[derive(Clone, Copy, PartialEq, Eq, Structural, Debug)]
pub enum ConcatStep {
    /// One value is left: it is the result.
    Done,
    /// Join the last `count` values (all convertible) into one.
    Coalesce(usize),
    /// Call the `__concat` metamethod on the last two values; its result replaces them.
    CallMm,
    /// Raise a concatenation error naming the last value.
    ErrorLast,
    /// Raise a concatenation error naming the value before the last.
    ErrorPrev,
}

/// The number of convertible values at the end of the first `total` entries of `conv`.
pub open spec fn convertible_run(conv: Seq<bool>, total: int) -> int
    decreases total,
{
    if total <= 0 || !conv[total - 1] {
        0
    } else {
        1 + convertible_run(conv, total - 1)
    }
}

/// Decide the next step of joining the first `total` of the values, where `conv[k]` tells
/// whether value `k` can be converted to text. `has_mm` tells whether the last two values
/// have a `__concat` metamethod and `prev_is_text_or_number` whether the value before the
/// last is a string or a number (then the error names the last value).
pub fn concat_step(conv: &[bool], total: usize, has_mm: bool, prev_is_text_or_number: bool) -> (r: ConcatStep)
    requires
        total <= conv@.len(),
    ensures
        total <= 1 ==> r == ConcatStep::Done,
        total > 1 && conv@[total - 1] && conv@[total - 2] ==> r == ConcatStep::Coalesce(
            convertible_run(conv@, total as int) as usize,
        ) && 2 <= convertible_run(conv@, total as int) <= total,
        total > 1 && !(conv@[total - 1] && conv@[total - 2]) ==> r == (if has_mm {
            ConcatStep::CallMm
        } else if prev_is_text_or_number {
            ConcatStep::ErrorLast
        } else {
            ConcatStep::ErrorPrev
        }),
{
    if total <= 1 {
        return ConcatStep::Done;
    }
    if conv[total - 1] && conv[total - 2] {
        let mut count: usize = 2;
        proof {
            assert(convertible_run(conv@, total - 1) == 1 + convertible_run(conv@, total - 2));
            assert(convertible_run(conv@, total as int) == 2 + convertible_run(conv@, total - 2));
        }
        while count < total && conv[total - 1 - count]
            invariant
                2 <= count <= total,
                total <= conv@.len(),
                convertible_run(conv@, total as int) == count + convertible_run(conv@, total - count),
            decreases total - count,
        {
            assert(convertible_run(conv@, total - count) == 1 + convertible_run(conv@, total - count - 1));
            count = count + 1;
        }
        proof {
            lemma_run_bound(conv@, total - count);
            if count < total {
                assert(convertible_run(conv@, total - count) == 0);
            }
        }
        return ConcatStep::Coalesce(count);
    }
    if has_mm {
        ConcatStep::CallMm
    } else if prev_is_text_or_number {
        ConcatStep::ErrorLast
    } else {
        ConcatStep::ErrorPrev
    }
}

/// A run of convertible values is never longer than the values it is counted in.
proof fn lemma_run_bound(conv: Seq<bool>, total: int)
    ensures
        0 <= convertible_run(conv, total) <= if total < 0 { 0 } else { total },
    decreases total,
{
    if total > 0 {
        lemma_run_bound(conv, total - 1);
    }
}

} // verus!
