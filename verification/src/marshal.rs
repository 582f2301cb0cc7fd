//! The marshalling protocol of the plugin boundary.
//!
//! A value crossing into or out of a plugin travels as JSON text inside a
//! null-terminated buffer, modelled here as a `Vec<char>` whose last
//! character is `'\0'`. Encoding strips any embedded null characters from
//! the text before appending the terminator (the protocol favours a
//! never-failing encode over full fidelity); decoding reads the characters
//! up to the first terminator. For text free of null characters the two
//! operations are exact inverses, which is proved below.

use vstd::prelude::*;
use vstd::pervasive::unreached;
use vstd::string::StrSliceExecFns;

verus! {

/// A null-terminated wire buffer: at least the terminator, which is the
/// last character, and no null character before it.
pub open spec fn wire_wf(w: Seq<char>) -> bool {
    &&& w.len() >= 1
    &&& w.last() == '\0'
    &&& has_no_null(w.take(w.len() - 1))
}

/// No null character anywhere in the text.
pub open spec fn has_no_null(s: Seq<char>) -> bool {
    forall|i: int| 0 <= i < s.len() ==> s[i] != '\0'
}

/// The text with every null character removed.
pub open spec fn strip_nulls(s: Seq<char>) -> Seq<char>
    decreases s.len(),
{
    if s.len() == 0 {
        Seq::empty()
    } else {
        let rest = strip_nulls(s.drop_last());
        if s.last() == '\0' {
            rest
        } else {
            rest.push(s.last())
        }
    }
}

/// The prefix of the text up to (excluding) its first null character, or
/// the whole text if it has none.
pub open spec fn take_until_null(s: Seq<char>) -> Seq<char>
    decreases s.len(),
{
    if s.len() == 0 {
        Seq::empty()
    } else if s.first() == '\0' {
        Seq::empty()
    } else {
        seq![s.first()] + take_until_null(s.drop_first())
    }
}

/// Stripping removes every null and nothing else, so the result is null-free.
pub proof fn lemma_strip_nulls_no_null(s: Seq<char>)
    ensures
        has_no_null(strip_nulls(s)),
    decreases s.len(),
{
    if s.len() > 0 {
        lemma_strip_nulls_no_null(s.drop_last());
    }
}

/// On text already free of nulls, stripping changes nothing.
pub proof fn lemma_strip_nulls_id(s: Seq<char>)
    requires
        has_no_null(s),
    ensures
        strip_nulls(s) == s,
    decreases s.len(),
{
    if s.len() > 0 {
        lemma_strip_nulls_id(s.drop_last());
        assert(strip_nulls(s.drop_last()).push(s.last()) =~= s);
    }
}

/// If the first `i` characters are null-free and position `i` is a null
/// (or the end), then reading up to the first null yields exactly them.
proof fn lemma_take_until_null_prefix(s: Seq<char>, i: int)
    requires
        0 <= i <= s.len(),
        has_no_null(s.take(i)),
        i == s.len() || s[i] == '\0',
    ensures
        take_until_null(s) == s.take(i),
    decreases i,
{
    if i == 0 {
        assert(take_until_null(s) =~= s.take(0));
    } else {
        assert(s.take(i)[0] == s[0]);
        assert(s.drop_first().take(i - 1) =~= s.take(i).drop_first());
        assert forall|j: int| 0 <= j < i - 1 implies #[trigger] s.drop_first().take(i - 1)[j] != '\0' by {
            assert(s.take(i)[j + 1] != '\0');
        }
        lemma_take_until_null_prefix(s.drop_first(), i - 1);
        assert(seq![s.first()] + s.take(i).drop_first() =~= s.take(i));
    }
}

/// Decoding a wire buffer built from any text returns the stripped text.
pub proof fn lemma_wire_decode_encode(t: Seq<char>)
    ensures
        take_until_null(strip_nulls(t).push('\0')) == strip_nulls(t),
{
    let s = strip_nulls(t);
    lemma_strip_nulls_no_null(t);
    assert(s.push('\0').take(s.len() as int) =~= s);
    lemma_take_until_null_prefix(s.push('\0'), s.len() as int);
}

/// Round trip of the wire layer: encoding text free of embedded nulls and
/// decoding the buffer yields the text unchanged.
pub proof fn lemma_wire_round_trip(t: Seq<char>)
    requires
        has_no_null(t),
    ensures
        take_until_null(strip_nulls(t).push('\0')) == t,
{
    lemma_wire_decode_encode(t);
    lemma_strip_nulls_id(t);
}

/// Encode text as a wire buffer: strip embedded null characters, then
/// append the terminator.
pub fn str_to_c_str(s: &str) -> (r: Vec<char>)
    ensures
        r@ == strip_nulls(s@).push('\0'),
        wire_wf(r@),
{
    let n = s.unicode_len();
    let mut out: Vec<char> = Vec::new();
    for i in 0..n
        invariant
            n == s@.len(),
            out@ == strip_nulls(s@.take(i as int)),
    {
        let c = s.get_char(i);
        proof {
            assert(s@.take(i + 1).drop_last() =~= s@.take(i as int));
            assert(s@.take(i + 1).last() == s@[i as int]);
        }
        if c != '\0' {
            out.push(c);
        }
    }
    proof {
        assert(s@.take(n as int) =~= s@);
        lemma_strip_nulls_no_null(s@);
        assert(strip_nulls(s@).push('\0').take(strip_nulls(s@).len() as int) =~= strip_nulls(s@));
    }
    out.push('\0');
    out
}

/// Decode a wire buffer: the text up to the first terminator, or all of it
/// if no terminator is present.
pub fn c_str_to_str(w: &Vec<char>) -> (r: String)
    ensures
        r@ == take_until_null(w@),
{
    let mut out: Vec<char> = Vec::new();
    let mut i: usize = 0;
    while i < w.len() && w[i] != '\0'
        invariant
            0 <= i <= w@.len(),
            has_no_null(w@.take(i as int)),
            out@ == w@.take(i as int),
        decreases w@.len() - i,
    {
        out.push(w[i]);
        i = i + 1;
        proof {
            assert(w@.take(i as int) =~= w@.take(i - 1).push(w@[i - 1]));
        }
    }
    proof {
        lemma_take_until_null_prefix(w@, i as int);
    }
    chars_to_string(&out)
}

/// Relies on std's `FromIterator` for `String`: collecting characters
/// builds the string of exactly those characters in order.
#[verifier::external_body]
fn chars_to_string(v: &Vec<char>) -> (r: String)
    ensures
        r@ == v@,
{
    v.iter().collect()
}

/// Encode a JSON value as a wire buffer: exactly the value's JSON text
/// with embedded nulls stripped, then the terminator. Serializing a
/// value never fails, so every call yields a well-formed buffer.
pub fn json_to_c_str(v: &serde_json::Value) -> (r: Vec<char>)
    ensures
        r@ == strip_nulls(crate::jsonio::json_text_of(*v)).push('\0'),
        wire_wf(r@),
{
    match crate::jsonio::value_to_text(v) {
        Ok(t) => str_to_c_str(t.as_str()),
        Err(_) => unreached(),
    }
}

/// Decode a wire buffer into a JSON value: read the text up to the
/// terminator and parse it. The call returns `Ok` exactly when that text
/// parses as JSON; a failure surfaces as the parse error's message.
pub fn c_str_to_json(w: &Vec<char>) -> (r: Result<serde_json::Value, String>)
    ensures
        r is Ok <==> crate::jsonio::parse_ok(take_until_null(w@)),
{
    let s = c_str_to_str(w);
    crate::jsonio::text_to_value(s.as_str())
}

} // verus!
