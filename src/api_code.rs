//! Stable API codes derived from table and column names.

use vstd::prelude::*;
use vstd::string::{StrSliceExecFns, StringExecFns};

verus! {

/// Whether `c` has Unicode's White_Space property: tab through carriage
/// return, space, next line, no-break space, ogham space mark, en quad through
/// hair space, line and paragraph separators, narrow no-break space, medium
/// mathematical space and ideographic space.
pub open spec fn is_space(c: char) -> bool {
    let u = c as u32;
    ||| 0x9 <= u <= 0xD
    ||| u == 0x20
    ||| u == 0x85
    ||| u == 0xA0
    ||| u == 0x1680
    ||| 0x2000 <= u <= 0x200A
    ||| u == 0x2028
    ||| u == 0x2029
    ||| u == 0x202F
    ||| u == 0x205F
    ||| u == 0x3000
}

/// The upper-case form of `s` under Unicode's case mapping.
pub uninterp spec fn upper_of(s: Seq<char>) -> Seq<char>;

/// Whether `c` is a White_Space character.
fn char_is_space(c: char) -> (r: bool)
    ensures
        r == is_space(c),
{
    let u = c as u32;
    (0x9 <= u && u <= 0xD) || u == 0x20 || u == 0x85 || u == 0xA0 || u == 0x1680 || (0x2000 <= u
        && u <= 0x200A) || u == 0x2028 || u == 0x2029 || u == 0x202F || u == 0x205F || u == 0x3000
}

/// Relies on `String::push`: appends one character.
#[verifier::external_body]
fn push_char(s: &mut String, c: char)
    ensures
        final(s)@ == old(s)@.push(c),
{
    s.push(c)
}

/// Relies on `str::to_uppercase`: the result depends on the characters alone,
/// and an empty string stays empty.
#[verifier::external_body]
fn uppercase(s: &str) -> (r: String)
    ensures
        r@ == upper_of(s@),
        s@.len() == 0 ==> r@.len() == 0,
{
    s.to_uppercase()
}

/// `s` without its leading whitespace.
pub open spec fn trim_front(s: Seq<char>) -> Seq<char>
    decreases s.len(),
{
    if s.len() > 0 && is_space(s[0]) {
        trim_front(s.drop_first())
    } else {
        s
    }
}

/// `s` without its trailing whitespace.
pub open spec fn trim_back(s: Seq<char>) -> Seq<char>
    decreases s.len(),
{
    if s.len() > 0 && is_space(s.last()) {
        trim_back(s.drop_last())
    } else {
        s
    }
}

/// `s` without leading and trailing whitespace, each remaining whitespace
/// character replaced by `_`.
pub open spec fn normalized(s: Seq<char>) -> Seq<char> {
    trim_back(trim_front(s)).map_values(|c: char| if is_space(c) { '_' } else { c })
}

/// Kind of entity an API code names.
#[derive(Debug, Clone, Copy, PartialEq, Eq, Structural)]
pub enum ApiCodeType {
    Table,
    Column,
}

impl ApiCodeType {
    pub open spec fn prefix_spec(self) -> Seq<char> {
        match self {
            ApiCodeType::Table => "TBL_"@,
            ApiCodeType::Column => "COL_"@,
        }
    }

    pub fn prefix(&self) -> (r: &'static str)
        ensures
            r@ == self.prefix_spec(),
    {
        match self {
            ApiCodeType::Table => "TBL_",
            ApiCodeType::Column => "COL_",
        }
    }
}

/// Trims `input` and replaces each whitespace character inside it by `_`.
pub fn normalize_name(input: &str) -> (r: String)
    ensures
        r@ == normalized(input@),
{
    let n = input.unicode_len();
    let ghost s = input@;
    let mut a: usize = 0;
    assert(s.subrange(0, n as int) =~= s);
    while a < n && char_is_space(input.get_char(a))
        invariant
            a <= n,
            n == s.len(),
            s == input@,
            trim_front(s) == trim_front(s.subrange(a as int, n as int)),
        decreases n - a,
    {
        assert(s.subrange(a as int, n as int).drop_first() =~= s.subrange(a + 1, n as int));
        a += 1;
    }
    let ghost front = s.subrange(a as int, n as int);
    assert(trim_front(s) == front);
    let mut b: usize = n;
    assert(s.subrange(a as int, b as int) == front);
    while b > a && char_is_space(input.get_char(b - 1))
        invariant
            a <= b <= n,
            n == s.len(),
            s == input@,
            trim_back(front) == trim_back(s.subrange(a as int, b as int)),
        decreases b - a,
    {
        assert(s.subrange(a as int, b as int).drop_last() =~= s.subrange(a as int, b - 1));
        b -= 1;
    }
    let ghost body = s.subrange(a as int, b as int);
    assert(trim_back(front) == body);
    let mut r = String::new();
    let mut i: usize = a;
    while i < b
        invariant
            a <= i <= b <= n,
            n == s.len(),
            s == input@,
            body == s.subrange(a as int, b as int),
            r@ == body.subrange(0, i - a).map_values(|c: char| if is_space(c) { '_' } else { c }),
        decreases b - i,
    {
        let c = input.get_char(i);
        if char_is_space(c) {
            push_char(&mut r, '_');
        } else {
            push_char(&mut r, c);
        }
        assert(r@ =~= body.subrange(0, i + 1 - a).map_values(
            |c: char| if is_space(c) { '_' } else { c },
        ));
        i += 1;
    }
    assert(body.subrange(0, b - a) =~= body);
    r
}

/// The API code of a name: the kind's prefix, then the name trimmed, with
/// inner whitespace replaced by `_`, in upper case.
pub fn transform_to_api_code(input: &str, code_type: ApiCodeType) -> (r: String)
    ensures
        r@ == code_type.prefix_spec() + upper_of(normalized(input@)),
{
    let name = normalize_name(input);
    let upper = uppercase(name.as_str());
    let mut r = String::from_str(code_type.prefix());
    r.append(upper.as_str());
    r
}

} // verus!
