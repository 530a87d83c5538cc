use rustc_serialize::json::Json;
use vstd::prelude::*;
use vstd::string::StringSliceAdditionalSpecFns;

verus! {

/// A JSON document as the library reads it. The parser keeps an object's
/// members in a map: they come out sorted by name, and of a repeated name only
/// the last value is kept. Fractional numbers are kept only as a marker.
#[derive(Debug, PartialEq, Eq)]
pub enum JsonValue {
    Null,
    Bool(bool),
    I64(i64),
    U64(u64),
    Real,
    Str(String),
    Array(Vec<JsonValue>),
    Object(Vec<(String, JsonValue)>),
}

/// One step of a path into a document: a member name or an array position.
#[derive(Debug, PartialEq, Eq)]
pub enum Step {
    Key(String),
    Index(usize),
}

#[verifier::external_type_specification]
#[verifier::external_body]
pub struct ExJson(Json);

/// The document that the JSON parser builds from a text, `None` where the text
/// is not JSON.
pub uninterp spec fn json_of(text: Seq<char>) -> Option<JsonValue>;

/// Relies on rustc_serialize::json::Json: one variant of its document becomes
/// the matching variant here, payloads moved (a fractional number becomes `Real`).
#[verifier::external_body]
fn from_json(j: Json) -> JsonValue {
    match j {
        Json::I64(n) => JsonValue::I64(n),
        Json::U64(n) => JsonValue::U64(n),
        Json::String(s) => JsonValue::Str(s),
        Json::Boolean(b) => JsonValue::Bool(b),
        Json::Array(a) => JsonValue::Array(a.into_iter().map(from_json).collect()),
        Json::Object(o) => JsonValue::Object(o.into_iter().map(|(k, v)| (k, from_json(v))).collect()),
        Json::Null => JsonValue::Null,
        _ => JsonValue::Real,
    }
}

/// The deepest nesting of arrays and objects that the parser takes: it and the
/// conversion above recurse once per level.
pub const MAX_NESTING: usize = 64;

/// The longest member name, in bytes as written, that the parser takes: it
/// keeps the names of all open objects in one buffer that 16-bit offsets
/// address, and `MAX_NESTING` names of this length still fit.
pub const MAX_NAME_BYTES: usize = 1023;

/// The most digits an exponent may have: the parser accumulates them in a
/// machine word without an overflow check.
pub const MAX_EXPONENT_DIGITS: usize = 19;

/// What a left-to-right scan of a text has seen so far.
#[derive(Clone, Copy, PartialEq, Eq, Structural)]
pub struct Scan {
    /// Brackets opened and not yet closed outside strings (held at one past
    /// the limit once it is passed).
    pub depth: usize,
    /// Inside a string.
    pub in_str: bool,
    /// Inside a string, right after an escaping backslash.
    pub escaped: bool,
    /// Bytes of the current string so far (held at one past the name limit).
    pub str_len: usize,
    /// A string longer than a member name may be has just closed, with only
    /// whitespace after it.
    pub long_closed: bool,
    /// A comma has been seen outside strings, with only whitespace after it.
    pub comma_open: bool,
    /// Right after an `e` or `E` outside strings, or in the sign or digits
    /// that follow it.
    pub in_exp: bool,
    /// Digits since that `e` or `E` (held at one past the limit).
    pub exp_digits: usize,
    /// Something the parser cannot take has been seen.
    pub bad: bool,
}

/// The bytes that the parser skips as whitespace.
pub open spec fn is_space(b: u8) -> bool {
    b == 32u8 || b == 10u8 || b == 9u8 || b == 13u8
}

/// The state before the first byte.
pub open spec fn scan_start() -> Scan {
    Scan {
        depth: 0,
        in_str: false,
        escaped: false,
        str_len: 0,
        long_closed: false,
        comma_open: false,
        in_exp: false,
        exp_digits: 0,
        bad: false,
    }
}

/// `n + 1`, held at `cap + 1`.
pub open spec fn bump(n: usize, cap: usize) -> usize {
    if n <= cap { (n + 1) as usize } else { n }
}

/// The state after one more byte. A text goes bad on a bracket that opens
/// past `MAX_NESTING`, on a `:` after a string longer than `MAX_NAME_BYTES`, on
/// a closing bracket right after a comma, and on an exponent digit past
/// `MAX_EXPONENT_DIGITS`; whitespace between does not matter.
pub open spec fn scan_step(s: Scan, b: u8) -> Scan {
    if s.in_str {
        if s.escaped {
            Scan { escaped: false, str_len: bump(s.str_len, MAX_NAME_BYTES), ..s }
        } else if b == 92u8 {
            Scan { escaped: true, str_len: bump(s.str_len, MAX_NAME_BYTES), ..s }
        } else if b == 34u8 {
            Scan { in_str: false, long_closed: s.str_len > MAX_NAME_BYTES, ..s }
        } else {
            Scan { str_len: bump(s.str_len, MAX_NAME_BYTES), ..s }
        }
    } else if is_space(b) {
        Scan { in_exp: false, exp_digits: 0, ..s }
    } else {
        let bad = s.bad || (b == 58u8 && s.long_closed) || ((b == 93u8 || b == 125u8)
            && s.comma_open);
        let t = Scan { long_closed: false, comma_open: false, bad, ..s };
        if b == 34u8 {
            Scan { in_str: true, escaped: false, str_len: 0, in_exp: false, exp_digits: 0, ..t }
        } else if b == 91u8 || b == 123u8 {
            Scan {
                depth: bump(s.depth, MAX_NESTING),
                bad: bad || s.depth >= MAX_NESTING,
                in_exp: false,
                exp_digits: 0,
                ..t
            }
        } else if b == 93u8 || b == 125u8 {
            Scan {
                depth: if s.depth > 0 { (s.depth - 1) as usize } else { 0 },
                in_exp: false,
                exp_digits: 0,
                ..t
            }
        } else if b == 44u8 {
            Scan { comma_open: true, in_exp: false, exp_digits: 0, ..t }
        } else if b == 101u8 || b == 69u8 {
            Scan { in_exp: true, exp_digits: 0, ..t }
        } else if (b == 43u8 || b == 45u8) && s.in_exp && s.exp_digits == 0 {
            t
        } else if 48u8 <= b <= 57u8 && s.in_exp {
            Scan {
                exp_digits: bump(s.exp_digits, MAX_EXPONENT_DIGITS),
                bad: bad || s.exp_digits >= MAX_EXPONENT_DIGITS,
                ..t
            }
        } else {
            Scan { in_exp: false, exp_digits: 0, ..t }
        }
    }
}

/// The scan of a whole byte sequence, byte by byte from the start.
pub open spec fn scan(bytes: Seq<u8>) -> Scan
    decreases bytes.len(),
{
    if bytes.len() == 0 {
        scan_start()
    } else {
        scan_step(scan(bytes.drop_last()), bytes.last())
    }
}

/// The texts that the parser handles without a panic or running out of stack:
/// nesting at most `MAX_NESTING` deep, member names of at most `MAX_NAME_BYTES`
/// bytes, no comma right before a closing bracket, and exponents of at most
/// `MAX_EXPONENT_DIGITS` digits. Brackets, commas and letters inside strings
/// do not count; a closing bracket with nothing open counts for nothing.
pub open spec fn within_parser_limits(bytes: Seq<u8>) -> bool {
    !scan(bytes).bad
}

impl Scan {
    /// The state after one more byte.
    pub fn advance(self, b: u8) -> (r: Scan)
        ensures
            r == scan_step(self, b),
    {
        let s = self;
        if s.in_str {
            let len = if s.str_len <= MAX_NAME_BYTES { s.str_len + 1 } else { s.str_len };
            if s.escaped {
                Scan { escaped: false, str_len: len, ..s }
            } else if b == 92u8 {
                Scan { escaped: true, str_len: len, ..s }
            } else if b == 34u8 {
                Scan { in_str: false, long_closed: s.str_len > MAX_NAME_BYTES, ..s }
            } else {
                Scan { str_len: len, ..s }
            }
        } else if b == 32u8 || b == 10u8 || b == 9u8 || b == 13u8 {
            Scan { in_exp: false, exp_digits: 0, ..s }
        } else {
            let bad = s.bad || (b == 58u8 && s.long_closed) || ((b == 93u8 || b == 125u8)
                && s.comma_open);
            let t = Scan { long_closed: false, comma_open: false, bad, ..s };
            if b == 34u8 {
                Scan { in_str: true, escaped: false, str_len: 0, in_exp: false, exp_digits: 0, ..t }
            } else if b == 91u8 || b == 123u8 {
                let depth = if s.depth <= MAX_NESTING { s.depth + 1 } else { s.depth };
                Scan {
                    depth,
                    bad: bad || s.depth >= MAX_NESTING,
                    in_exp: false,
                    exp_digits: 0,
                    ..t
                }
            } else if b == 93u8 || b == 125u8 {
                let depth = if s.depth > 0 { s.depth - 1 } else { 0 };
                Scan { depth, in_exp: false, exp_digits: 0, ..t }
            } else if b == 44u8 {
                Scan { comma_open: true, in_exp: false, exp_digits: 0, ..t }
            } else if b == 101u8 || b == 69u8 {
                Scan { in_exp: true, exp_digits: 0, ..t }
            } else if (b == 43u8 || b == 45u8) && s.in_exp && s.exp_digits == 0 {
                t
            } else if 48u8 <= b && b <= 57u8 && s.in_exp {
                let digits = if s.exp_digits <= MAX_EXPONENT_DIGITS {
                    s.exp_digits + 1
                } else {
                    s.exp_digits
                };
                Scan { exp_digits: digits, bad: bad || s.exp_digits >= MAX_EXPONENT_DIGITS, ..t }
            } else {
                Scan { in_exp: false, exp_digits: 0, ..t }
            }
        }
    }
}

/// Whether the parser can be handed `text`.
pub fn fits_parser(text: &str) -> (r: bool)
    ensures
        r == within_parser_limits(text.spec_bytes()),
{
    let bytes = text.as_bytes();
    let mut st = Scan {
        depth: 0,
        in_str: false,
        escaped: false,
        str_len: 0,
        long_closed: false,
        comma_open: false,
        in_exp: false,
        exp_digits: 0,
        bad: false,
    };
    let mut i: usize = 0;
    while i < bytes.len()
        invariant
            bytes@ == text.spec_bytes(),
            i <= bytes@.len(),
            scan(bytes@.take(i as int)) == st,
        decreases bytes@.len() - i,
    {
        assert(bytes@.take(i + 1).drop_last() =~= bytes@.take(i as int));
        assert(bytes@.take(i + 1).last() == bytes@[i as int]);
        st = st.advance(bytes[i]);
        i = i + 1;
    }
    assert(bytes@.take(i as int) =~= bytes@);
    !st.bad
}

/// Relies on rustc_serialize::json::Json::from_str: it builds the document from
/// the text alone, and fails on a text that is not JSON. Texts beyond
/// `within_parser_limits` can make it panic or exhaust the stack.
#[verifier::external_body]
pub fn parse_json(text: &str) -> (r: Option<JsonValue>)
    requires
        within_parser_limits(text.spec_bytes()),
    ensures
        r == json_of(text@),
{
    Json::from_str(text).ok().map(from_json)
}

/// The value of the first member named `key`, if any.
pub open spec fn member(fields: Seq<(String, JsonValue)>, key: Seq<char>) -> Option<JsonValue>
    decreases fields.len(),
{
    if fields.len() == 0 {
        None
    } else if fields[0].0@ == key {
        Some(fields[0].1)
    } else {
        member(fields.drop_first(), key)
    }
}

/// Where one step leads from `v`.
pub open spec fn step_spec(v: JsonValue, s: Step) -> Option<JsonValue> {
    match (v, s) {
        (JsonValue::Object(fields), Step::Key(k)) => member(fields@, k@),
        (JsonValue::Array(items), Step::Index(i)) => if i < items@.len() {
            Some(items@[i as int])
        } else {
            None
        },
        _ => None,
    }
}

/// Where a whole path leads from `v`: `None` as soon as a step finds nothing.
pub open spec fn follow(v: JsonValue, path: Seq<Step>) -> Option<JsonValue>
    decreases path.len(),
{
    if path.len() == 0 {
        Some(v)
    } else {
        match step_spec(v, path[0]) {
            Some(w) => follow(w, path.drop_first()),
            None => None,
        }
    }
}

/// The string held by `v`, if it is one.
pub open spec fn as_str_spec(v: JsonValue) -> Option<Seq<char>> {
    match v {
        JsonValue::Str(s) => Some(s@),
        _ => None,
    }
}

/// The unsigned integer held by `v`, if it is one.
pub open spec fn as_u64_spec(v: JsonValue) -> Option<u64> {
    match v {
        JsonValue::U64(n) => Some(n),
        _ => None,
    }
}

/// A borrowed lookup result `r` stands for the value `v`.
pub open spec fn found(r: Option<&JsonValue>, v: Option<JsonValue>) -> bool {
    match r {
        Some(x) => v == Some(*x),
        None => v is None,
    }
}

impl JsonValue {
    /// The value of the first member named `key`, where `self` is an object.
    pub fn find(&self, key: &String) -> (r: Option<&JsonValue>)
        ensures
            found(r, step_spec(*self, Step::Key(*key))),
    {
        match self {
            JsonValue::Object(fields) => {
                let mut i: usize = 0;
                assert(fields@.skip(0) =~= fields@);
                while i < fields.len()
                    invariant
                        i <= fields@.len(),
                        step_spec(*self, Step::Key(*key)) == member(fields@, key@),
                        member(fields@, key@) == member(fields@.skip(i as int), key@),
                    decreases fields@.len() - i,
                {
                    assert(fields@.skip(i as int).drop_first() =~= fields@.skip(i + 1));
                    assert(fields@.skip(i as int)[0] == fields@[i as int]);
                    if fields[i].0 == *key {
                        return Some(&fields[i].1);
                    }
                    i = i + 1;
                }
                None
            },
            _ => None,
        }
    }

    /// The element at `index`, where `self` is an array.
    pub fn at(&self, index: usize) -> (r: Option<&JsonValue>)
        ensures
            found(r, step_spec(*self, Step::Index(index))),
    {
        match self {
            JsonValue::Array(items) => if index < items.len() {
                Some(&items[index])
            } else {
                None
            },
            _ => None,
        }
    }

    /// Where one step leads from `self`.
    pub fn step(&self, s: &Step) -> (r: Option<&JsonValue>)
        ensures
            found(r, step_spec(*self, *s)),
    {
        match s {
            Step::Key(k) => self.find(k),
            Step::Index(i) => self.at(*i),
        }
    }

    /// Where a whole path leads from `self`.
    pub fn follow_path(&self, path: &Vec<Step>) -> (r: Option<&JsonValue>)
        ensures
            found(r, follow(*self, path@)),
    {
        let mut cur: &JsonValue = self;
        let mut i: usize = 0;
        assert(path@.skip(0) =~= path@);
        while i < path.len()
            invariant
                i <= path@.len(),
                follow(*self, path@) == follow(*cur, path@.skip(i as int)),
            decreases path@.len() - i,
        {
            assert(path@.skip(i as int).drop_first() =~= path@.skip(i + 1));
            assert(path@.skip(i as int)[0] == path@[i as int]);
            match cur.step(&path[i]) {
                Some(next) => {
                    cur = next;
                },
                None => {
                    return None;
                },
            }
            i = i + 1;
        }
        assert(path@.skip(i as int) =~= Seq::<Step>::empty());
        Some(cur)
    }

    /// The string that `self` holds, if it is one.
    pub fn as_string(&self) -> (r: Option<&String>)
        ensures
            match r {
                Some(s) => as_str_spec(*self) == Some(s@),
                None => as_str_spec(*self) is None,
            },
    {
        match self {
            JsonValue::Str(s) => Some(s),
            _ => None,
        }
    }

    /// The unsigned integer that `self` holds, if it is one.
    pub fn as_u64(&self) -> (r: Option<u64>)
        ensures
            r == as_u64_spec(*self),
    {
        match self {
            JsonValue::U64(n) => Some(*n),
            _ => None,
        }
    }
}

} // verus!
