//! Errors in the style of DOMException: a name such as `EncodingError`
//! followed by a message, and the reading of such a message back.

use vstd::prelude::*;
use vstd::string::*;

verus! {

/// DOMException names used by the codecs.
#[derive(Debug, Clone, Copy, PartialEq, Eq, Structural)]
pub enum DOMExceptionName {
    /// Encoding or decoding operation failed.
    EncodingError,
    /// Unsupported codec or configuration.
    NotSupportedError,
    /// Wrong state (e.g. operating on a closed object).
    InvalidStateError,
    /// Invalid data format.
    DataError,
    /// Operation was aborted.
    AbortError,
    /// Generic type error.
    TypeError,
    /// Constraint not satisfied.
    ConstraintError,
}

/// The characters of each name.
pub open spec fn name_chars(name: DOMExceptionName) -> Seq<char> {
    match name {
        DOMExceptionName::EncodingError => seq![
            'E', 'n', 'c', 'o', 'd', 'i', 'n', 'g', 'E', 'r', 'r', 'o', 'r'],
        DOMExceptionName::NotSupportedError => seq![
            'N', 'o', 't', 'S', 'u', 'p', 'p', 'o', 'r', 't', 'e', 'd', 'E', 'r', 'r', 'o', 'r'],
        DOMExceptionName::InvalidStateError => seq![
            'I', 'n', 'v', 'a', 'l', 'i', 'd', 'S', 't', 'a', 't', 'e', 'E', 'r', 'r', 'o', 'r'],
        DOMExceptionName::DataError => seq!['D', 'a', 't', 'a', 'E', 'r', 'r', 'o', 'r'],
        DOMExceptionName::AbortError => seq!['A', 'b', 'o', 'r', 't', 'E', 'r', 'r', 'o', 'r'],
        DOMExceptionName::TypeError => seq!['T', 'y', 'p', 'e', 'E', 'r', 'r', 'o', 'r'],
        DOMExceptionName::ConstraintError => seq![
            'C', 'o', 'n', 's', 't', 'r', 'a', 'i', 'n', 't', 'E', 'r', 'r', 'o', 'r'],
    }
}

impl DOMExceptionName {
    /// The name as text.
    pub fn as_str(&self) -> (s: &'static str)
        ensures
            s@ == name_chars(*self),
    {
        match self {
            DOMExceptionName::EncodingError => {
                proof {
                    reveal_strlit("EncodingError");
                }
                "EncodingError"
            },
            DOMExceptionName::NotSupportedError => {
                proof {
                    reveal_strlit("NotSupportedError");
                }
                "NotSupportedError"
            },
            DOMExceptionName::InvalidStateError => {
                proof {
                    reveal_strlit("InvalidStateError");
                }
                "InvalidStateError"
            },
            DOMExceptionName::DataError => {
                proof {
                    reveal_strlit("DataError");
                }
                "DataError"
            },
            DOMExceptionName::AbortError => {
                proof {
                    reveal_strlit("AbortError");
                }
                "AbortError"
            },
            DOMExceptionName::TypeError => {
                proof {
                    reveal_strlit("TypeError");
                }
                "TypeError"
            },
            DOMExceptionName::ConstraintError => {
                proof {
                    reveal_strlit("ConstraintError");
                }
                "ConstraintError"
            },
        }
    }
}

/// The kind of failure an error reports to the JavaScript side.
#[derive(Debug, Clone, Copy, PartialEq, Eq, Structural)]
pub enum ErrorStatus {
    /// A generic failure.
    GenericFailure,
    /// An invalid argument (surfaces as a TypeError).
    InvalidArg,
}

/// An error: its status and its message.
#[derive(Debug)]
pub struct CodecError {
    pub status: ErrorStatus,
    pub reason: String,
}

/// The message of a DOMException-style error: the name, ": ", the message.
pub open spec fn dom_message(name: DOMExceptionName, message: Seq<char>) -> Seq<char> {
    name_chars(name) + seq![':', ' '] + message
}

/// A generic failure whose message reads `"{name}: {message}"`.
pub fn dom_exception(name: DOMExceptionName, message: &str) -> (e: CodecError)
    ensures
        e.status == ErrorStatus::GenericFailure,
        e.reason@ == dom_message(name, message@),
{
    let mut reason = String::from_str(name.as_str());
    proof {
        reveal_strlit(": ");
    }
    reason.append(": ");
    reason.append(message);
    assert(reason@ =~= dom_message(name, message@));
    CodecError { status: ErrorStatus::GenericFailure, reason }
}

/// NotSupportedError: an unsupported codec, configuration or feature.
pub fn not_supported_error(message: &str) -> (e: CodecError)
    ensures
        e.status == ErrorStatus::GenericFailure,
        e.reason@ == dom_message(DOMExceptionName::NotSupportedError, message@),
{
    dom_exception(DOMExceptionName::NotSupportedError, message)
}

/// InvalidStateError: a closed object or a call in the wrong state.
pub fn invalid_state_error(message: &str) -> (e: CodecError)
    ensures
        e.status == ErrorStatus::GenericFailure,
        e.reason@ == dom_message(DOMExceptionName::InvalidStateError, message@),
{
    dom_exception(DOMExceptionName::InvalidStateError, message)
}

/// EncodingError: an encoding or decoding failure.
pub fn encoding_error(message: &str) -> (e: CodecError)
    ensures
        e.status == ErrorStatus::GenericFailure,
        e.reason@ == dom_message(DOMExceptionName::EncodingError, message@),
{
    dom_exception(DOMExceptionName::EncodingError, message)
}

/// DataError: malformed input data.
pub fn data_error(message: &str) -> (e: CodecError)
    ensures
        e.status == ErrorStatus::GenericFailure,
        e.reason@ == dom_message(DOMExceptionName::DataError, message@),
{
    dom_exception(DOMExceptionName::DataError, message)
}

/// AbortError: an aborted operation.
pub fn abort_error(message: &str) -> (e: CodecError)
    ensures
        e.status == ErrorStatus::GenericFailure,
        e.reason@ == dom_message(DOMExceptionName::AbortError, message@),
{
    dom_exception(DOMExceptionName::AbortError, message)
}

/// TypeError in the DOMException style.
pub fn type_error(message: &str) -> (e: CodecError)
    ensures
        e.status == ErrorStatus::GenericFailure,
        e.reason@ == dom_message(DOMExceptionName::TypeError, message@),
{
    dom_exception(DOMExceptionName::TypeError, message)
}

/// ConstraintError: an unsatisfied constraint such as a buffer size.
pub fn constraint_error(message: &str) -> (e: CodecError)
    ensures
        e.status == ErrorStatus::GenericFailure,
        e.reason@ == dom_message(DOMExceptionName::ConstraintError, message@),
{
    dom_exception(DOMExceptionName::ConstraintError, message)
}

/// An invalid-argument error carrying the message as is; it surfaces as a
/// native TypeError.
pub fn js_type_error(message: &str) -> (e: CodecError)
    ensures
        e.status == ErrorStatus::InvalidArg,
        e.reason@ == message@,
{
    CodecError { status: ErrorStatus::InvalidArg, reason: String::from_str(message) }
}

/// An invalid-argument error for configuration validation.
pub fn config_type_error(message: &str) -> (e: CodecError)
    ensures
        e.status == ErrorStatus::InvalidArg,
        e.reason@ == message@,
{
    CodecError { status: ErrorStatus::InvalidArg, reason: String::from_str(message) }
}

// ----------------------------------------------------------------------------
// Reading a DOMException-style message back
// ----------------------------------------------------------------------------

/// Unicode White_Space characters, which `str::trim` removes.
pub open spec fn is_whitespace(c: char) -> bool {
    let v = c as u32;
    (9 <= v && v <= 13) || v == 32 || v == 0x85 || v == 0xA0 || v == 0x1680 || (0x2000 <= v && v
        <= 0x200A) || v == 0x2028 || v == 0x2029 || v == 0x202F || v == 0x205F || v == 0x3000
}

fn char_is_whitespace(c: char) -> (r: bool)
    ensures
        r == is_whitespace(c),
{
    let v = c as u32;
    (9 <= v && v <= 13) || v == 32 || v == 0x85 || v == 0xA0 || v == 0x1680 || (0x2000 <= v && v
        <= 0x200A) || v == 0x2028 || v == 0x2029 || v == 0x202F || v == 0x205F || v == 0x3000
}

/// `s` with leading and trailing whitespace removed: the range from the first
/// to the last character that is not whitespace.
pub open spec fn trimmed(s: Seq<char>, from: int, to: int) -> bool {
    &&& 0 <= from <= to <= s.len()
    &&& forall|i: int| 0 <= i < from ==> is_whitespace(#[trigger] s[i])
    &&& forall|i: int| to <= i < s.len() ==> is_whitespace(#[trigger] s[i])
    &&& from < to ==> !is_whitespace(s[from]) && !is_whitespace(s[to - 1])
    &&& from == to ==> (from == 0 || to == s.len())
}

/// Whitespace-trimmed text of `s`, as `str::trim` gives it.
pub open spec fn trim(s: Seq<char>) -> Seq<char> {
    let (a, b) = choose|a: int, b: int| trimmed(s, a, b);
    s.subrange(a, b)
}

proof fn lemma_trimmed_unique(s: Seq<char>, a: int, b: int, c: int, d: int)
    requires
        trimmed(s, a, b),
        trimmed(s, c, d),
    ensures
        s.subrange(a, b) == s.subrange(c, d),
{
    if a < b && c < d {
        if a < c {
            assert(is_whitespace(s[a]));
        }
        if c < a {
            assert(is_whitespace(s[c]));
        }
        if b < d {
            assert(is_whitespace(s[d - 1]));
        }
        if d < b {
            assert(is_whitespace(s[b - 1]));
        }
    } else if a < b {
        // c == d: every character is whitespace
        if c == 0 {
            if d == 0 {
                assert(is_whitespace(s[a]));
            }
        }
        assert(is_whitespace(s[a]));
    } else if c < d {
        assert(is_whitespace(s[c]));
    } else {
        assert(s.subrange(a, b) =~= Seq::<char>::empty());
        assert(s.subrange(c, d) =~= Seq::<char>::empty());
    }
}

/// Remove leading and trailing whitespace.
pub fn trim_str(s: &str) -> (r: String)
    ensures
        r@ == trim(s@),
{
    let n = s.unicode_len();
    let mut a: usize = 0;
    while a < n && char_is_whitespace(s.get_char(a))
        invariant
            a <= n,
            n == s@.len(),
            forall|i: int| 0 <= i < a ==> is_whitespace(#[trigger] s@[i]),
        decreases n - a,
    {
        a = a + 1;
    }
    let mut b: usize = n;
    if a < n {
        while b > a && char_is_whitespace(s.get_char(b - 1))
            invariant
                a < n,
                a <= b <= n,
                n == s@.len(),
                !is_whitespace(s@[a as int]),
                forall|i: int| b <= i < n ==> is_whitespace(#[trigger] s@[i]),
            decreases b,
        {
            b = b - 1;
        }
    } else {
        b = a;
    }
    assert(trimmed(s@, a as int, b as int));
    let ghost pick = choose|x: int, y: int| trimmed(s@, x, y);
    proof {
        lemma_trimmed_unique(s@, a as int, b as int, pick.0, pick.1);
    }
    String::from_str(s.substring_char(a, b))
}

/// The names that a message can be read back as, in the order they are tried.
pub open spec fn readable_names() -> Seq<DOMExceptionName> {
    seq![
        DOMExceptionName::EncodingError,
        DOMExceptionName::InvalidStateError,
        DOMExceptionName::NotSupportedError,
        DOMExceptionName::DataError,
        DOMExceptionName::AbortError,
        DOMExceptionName::ConstraintError,
    ]
}

/// `reason` opens with the name followed directly by ':'.
pub open spec fn has_name_prefix(reason: Seq<char>, name: DOMExceptionName) -> bool {
    let p = name_chars(name).push(':');
    p.len() <= reason.len() && reason.subrange(0, p.len() as int) == p
}

/// The DOMException that a message denotes: the first readable name that,
/// followed by ':', opens the message, with the rest of the message trimmed.
pub open spec fn spec_read_dom_message(reason: Seq<char>) -> Option<(DOMExceptionName, Seq<char>)>
    decreases 0int,
{
    read_from(reason, 0)
}

pub open spec fn read_from(reason: Seq<char>, k: int) -> Option<(DOMExceptionName, Seq<char>)>
    decreases 6 - k,
{
    if k < 0 || k >= 6 {
        None
    } else if has_name_prefix(reason, readable_names()[k]) {
        let n = name_chars(readable_names()[k]).len() + 1;
        Some((readable_names()[k], trim(reason.subrange(n as int, reason.len() as int))))
    } else {
        read_from(reason, k + 1)
    }
}

/// Whether `s` opens with the characters of `p`.
fn str_starts_with(s: &str, p: &str) -> (r: bool)
    ensures
        r == (p@.len() <= s@.len() && s@.subrange(0, p@.len() as int) == p@),
{
    let n = s.unicode_len();
    let m = p.unicode_len();
    if m > n {
        return false;
    }
    let mut i: usize = 0;
    while i < m
        invariant
            i <= m,
            m <= n,
            n == s@.len(),
            m == p@.len(),
            forall|j: int| 0 <= j < i ==> s@[j] == p@[j],
        decreases m - i,
    {
        if s.get_char(i) != p.get_char(i) {
            return false;
        }
        i = i + 1;
    }
    assert(s@.subrange(0, m as int) =~= p@);
    true
}

fn name_at(k: usize) -> (r: DOMExceptionName)
    requires
        k < 6,
    ensures
        r == readable_names()[k as int],
{
    match k {
        0 => DOMExceptionName::EncodingError,
        1 => DOMExceptionName::InvalidStateError,
        2 => DOMExceptionName::NotSupportedError,
        3 => DOMExceptionName::DataError,
        4 => DOMExceptionName::AbortError,
        _ => DOMExceptionName::ConstraintError,
    }
}

/// Read a message such as `"EncodingError: Decode failed"` back into the
/// DOMException it denotes and the trimmed message after the colon. `None`
/// when the message does not open with one of the names.
pub fn read_dom_message(reason: &str) -> (r: Option<(DOMExceptionName, String)>)
    ensures
        r matches Some((name, msg)) ==> spec_read_dom_message(reason@) == Some((name, msg@)),
        r is None ==> spec_read_dom_message(reason@) is None,
{
    let mut k: usize = 0;
    while k < 6
        invariant
            k <= 6,
            spec_read_dom_message(reason@) == read_from(reason@, k as int),
        decreases 6 - k,
    {
        let name = name_at(k);
        let mut prefix = String::from_str(name.as_str());
        proof {
            reveal_strlit(":");
        }
        prefix.append(":");
        assert(prefix@ =~= name_chars(name).push(':'));
        if str_starts_with(reason, prefix.as_str()) {
            let n = reason.unicode_len();
            let m = prefix.as_str().unicode_len();
            let rest = reason.substring_char(m, n);
            let msg = trim_str(rest);
            return Some((name, msg));
        }
        k = k + 1;
    }
    None
}


/// Whitespace in front of a text does not change its trimmed form.
proof fn lemma_trim_leading_space(m: Seq<char>)
    ensures
        trim(seq![' '] + m) == trim(m),
{
    let s = seq![' '] + m;
    let (a, b) = choose|a: int, b: int| trimmed(m, a, b);
    assert(trimmed(m, a, b)) by {
        lemma_trimmed_exists(m);
    }
    let (c, d) = choose|c: int, d: int| trimmed(s, c, d);
    if a < b {
        assert(trimmed(s, a + 1, b + 1)) by {
            assert forall|i: int| 0 <= i < a + 1 implies is_whitespace(#[trigger] s[i]) by {
                if i > 0 {
                    assert(s[i] == m[i - 1]);
                }
            }
            assert forall|i: int| b + 1 <= i < s.len() implies is_whitespace(#[trigger] s[i]) by {
                assert(s[i] == m[i - 1]);
            }
        }
        lemma_trimmed_unique(s, a + 1, b + 1, c, d);
        assert(s.subrange(a + 1, b + 1) =~= m.subrange(a, b));
    } else {
        assert(trimmed(s, 0, 0)) by {
            assert forall|i: int| 0 <= i < s.len() implies is_whitespace(#[trigger] s[i]) by {
                if i > 0 {
                    assert(s[i] == m[i - 1]);
                    if a == 0 {
                        assert(is_whitespace(m[i - 1]));
                    } else {
                        assert(b == m.len());
                        assert(is_whitespace(m[i - 1]));
                    }
                }
            }
        }
        lemma_trimmed_unique(s, 0, 0, c, d);
        assert(s.subrange(0, 0) =~= m.subrange(a, b));
    }
}

/// Every text has a trimmed range.
proof fn lemma_trimmed_exists(m: Seq<char>)
    ensures
        exists|a: int, b: int| trimmed(m, a, b),
    decreases m.len(),
{
    if m.len() == 0 {
        assert(trimmed(m, 0, 0));
    } else if is_whitespace(m[0]) {
        let t = m.drop_first();
        lemma_trimmed_exists(t);
        let (a, b) = choose|a: int, b: int| trimmed(t, a, b);
        if a < b {
            assert(trimmed(m, a + 1, b + 1)) by {
                assert forall|i: int| 0 <= i < a + 1 implies is_whitespace(#[trigger] m[i]) by {
                    if i > 0 {
                        assert(m[i] == t[i - 1]);
                    }
                }
                assert forall|i: int| b + 1 <= i < m.len() implies is_whitespace(#[trigger] m[i]) by {
                    assert(m[i] == t[i - 1]);
                }
            }
        } else {
            assert(trimmed(m, 0, 0)) by {
                assert forall|i: int| 0 <= i < m.len() implies is_whitespace(#[trigger] m[i]) by {
                    if i > 0 {
                        assert(m[i] == t[i - 1]);
                        if a == 0 {
                            assert(is_whitespace(t[i - 1]));
                        } else {
                            assert(is_whitespace(t[i - 1]));
                        }
                    }
                }
            }
        }
    } else {
        assert(trimmed(m, 0, last_solid(m, m.len() as int))) by {
            lemma_last_solid(m, m.len() as int);
        }
    }
}

/// One past the last character before `to` that is not whitespace (0 if
/// there is none).
spec fn last_solid(m: Seq<char>, to: int) -> int
    decreases to,
{
    if to <= 0 {
        0
    } else if !is_whitespace(m[to - 1]) {
        to
    } else {
        last_solid(m, to - 1)
    }
}

proof fn lemma_last_solid(m: Seq<char>, to: int)
    requires
        0 <= to <= m.len(),
        forall|i: int| to <= i < m.len() ==> is_whitespace(#[trigger] m[i]),
        m.len() > 0,
        !is_whitespace(m[0]),
    ensures
        trimmed(m, 0, last_solid(m, to)),
    decreases to,
{
    if to > 0 && is_whitespace(m[to - 1]) {
        lemma_last_solid(m, to - 1);
    }
}

/// A DOMException-style message reads back as its name and its message,
/// trimmed, for every name that can be read back.
pub proof fn lemma_dom_message_round_trip(name: DOMExceptionName, message: Seq<char>)
    requires
        name != DOMExceptionName::TypeError,
    ensures
        spec_read_dom_message(dom_message(name, message)) == Some((name, trim(message))),
{
    let r = dom_message(name, message);
    let n = name_chars(name).len();
    assert(r.subrange(n as int + 1, r.len() as int) =~= seq![' '] + message);
    lemma_trim_leading_space(message);
    assert(r.subrange(0, n as int + 1) =~= name_chars(name).push(':'));
    let names = readable_names();
    assert forall|j: int| 0 <= j < 6 && names[j] != name implies !has_name_prefix(r, #[trigger] names[j]) by {
        let p = name_chars(names[j]).push(':');
        if p.len() <= r.len() && r.subrange(0, p.len() as int) == p {
            assert(r.subrange(0, p.len() as int)[0] == p[0]);
        }
    }
    assert(has_name_prefix(r, name));
    reveal_with_fuel(read_from, 7);
}

} // verus!
