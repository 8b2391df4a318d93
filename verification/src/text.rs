//! How values read as text.
//!
//! Integers, strings and booleans read in their natural form. A table or a
//! function reads as a tag that names the object: no two objects that are
//! alive in one heap share a tag, and the tag of an object never changes.

use itertools::Itertools;
use vstd::prelude::*;
use vstd::string::StringExecFns;
use crate::value::{
    elements_view, FunctionRef, NativeFunction, Nillable, TableRef, Val, Value,
};

verus! {

/// The character of the decimal digit `d`.
pub open spec fn digit(d: int) -> char
    recommends
        0 <= d < 10,
{
    if d == 0 {
        '0'
    } else if d == 1 {
        '1'
    } else if d == 2 {
        '2'
    } else if d == 3 {
        '3'
    } else if d == 4 {
        '4'
    } else if d == 5 {
        '5'
    } else if d == 6 {
        '6'
    } else if d == 7 {
        '7'
    } else if d == 8 {
        '8'
    } else {
        '9'
    }
}

/// The decimal digits of `n`, without leading zeros.
pub open spec fn digits(n: nat) -> Seq<char>
    decreases n,
{
    if n < 10 {
        seq![digit(n as int)]
    } else {
        digits(n / 10).push(digit((n % 10) as int))
    }
}

/// The decimal form of `i`, with a minus sign where `i` is negative.
pub open spec fn decimal(i: int) -> Seq<char> {
    if i < 0 {
        seq!['-'] + digits((-i) as nat)
    } else {
        digits(i as nat)
    }
}

/// Every number has at least one digit, and a number from 10 up has at least
/// two.
proof fn lemma_digits_len(n: nat)
    ensures
        digits(n).len() >= 1,
        n >= 10 ==> digits(n).len() >= 2,
    decreases n,
{
    if n >= 10 {
        lemma_digits_len(n / 10);
    }
}

/// Different numbers have different digits.
pub proof fn lemma_digits_differ(a: nat, b: nat)
    requires
        digits(a) == digits(b),
    ensures
        a == b,
    decreases a,
{
    lemma_digits_len(a);
    lemma_digits_len(b);
    if a < 10 && b < 10 {
        assert(digits(a)[0] == digit(a as int));
        assert(digits(b)[0] == digit(b as int));
        lemma_digit_differ(a as int, b as int);
    } else if a >= 10 && b >= 10 {
        let front_a = digits(a / 10);
        let front_b = digits(b / 10);
        let last_a = digit((a % 10) as int);
        let last_b = digit((b % 10) as int);
        assert(digits(a) == front_a.push(last_a));
        assert(digits(b) == front_b.push(last_b));
        assert(front_a.push(last_a).drop_last() =~= front_a);
        assert(front_b.push(last_b).drop_last() =~= front_b);
        assert(front_a.push(last_a).last() == last_a);
        assert(front_b.push(last_b).last() == last_b);
        assert(front_a == front_b);
        assert(last_a == last_b);
        lemma_digits_differ(a / 10, b / 10);
        lemma_digit_differ((a % 10) as int, (b % 10) as int);
        assert(a == 10 * (a / 10) + a % 10);
        assert(b == 10 * (b / 10) + b % 10);
    }
}

/// Different digits have different characters.
proof fn lemma_digit_differ(a: int, b: int)
    requires
        0 <= a < 10,
        0 <= b < 10,
        digit(a) == digit(b),
    ensures
        a == b,
{
}

/// Two texts that begin alike and are equal end alike.
proof fn lemma_same_ending(prefix: Seq<char>, a: Seq<char>, b: Seq<char>)
    requires
        prefix + a == prefix + b,
    ensures
        a == b,
{
    assert((prefix + a).subrange(prefix.len() as int, (prefix + a).len() as int) =~= a);
    assert((prefix + b).subrange(prefix.len() as int, (prefix + b).len() as int) =~= b);
}

/// The tag of a table names the table: two tables that read alike are one
/// table.
pub proof fn lemma_table_tags_differ(a: TableRef, b: TableRef)
    requires
        display_text(Val::Table(a)) == display_text(Val::Table(b)),
    ensures
        a == b,
{
    lemma_same_ending("table: "@, digits(a.id as nat), digits(b.id as nat));
    lemma_digits_differ(a.id as nat, b.id as nat);
}

/// The tag of a closure names the closure: two closures that read alike are
/// one closure.
pub proof fn lemma_function_tags_differ(a: FunctionRef, b: FunctionRef)
    requires
        display_text(Val::Function(a)) == display_text(Val::Function(b)),
    ensures
        a == b,
{
    lemma_same_ending("function: "@, digits(a.id as nat), digits(b.id as nat));
    lemma_digits_differ(a.id as nat, b.id as nat);
}

/// The name by which a native function reads.
pub open spec fn native_text(function: NativeFunction) -> Seq<char> {
    match function {
        NativeFunction::Print => "builtin: print"@,
        NativeFunction::Type => "builtin: type"@,
        NativeFunction::SetMetatable => "builtin: setmetatable"@,
        NativeFunction::GetMetatable => "builtin: getmetatable"@,
        NativeFunction::Pcall => "builtin: pcall"@,
        NativeFunction::Error => "builtin: error"@,
        NativeFunction::Host(id) => "native: "@ + digits(id as nat),
    }
}

/// How a value reads: an integer in decimal, a string as it is, a boolean
/// as `true` or `false`, and a table, a function or a host value as its tag.
pub open spec fn display_text(value: Val) -> Seq<char> {
    match value {
        Val::Integer(i) => decimal(i as int),
        Val::String(s) => s,
        Val::Boolean(b) => if b {
            "true"@
        } else {
            "false"@
        },
        Val::Table(table) => "table: "@ + digits(table.id as nat),
        Val::Function(function) => "function: "@ + digits(function.id as nat),
        Val::NativeFunction(function) => "function: "@ + native_text(function),
        Val::UserData { type_tag, id, .. } => type_tag + ": "@ + digits(id as nat),
    }
}

/// How a value that may be nil reads: nil reads as `nil`.
pub open spec fn display_text_of(value: Option<Val>) -> Seq<char> {
    match value {
        Some(value) => display_text(value),
        None => "nil"@,
    }
}

/// The texts `parts` in a row, with `separator` between each two.
pub open spec fn join_text(parts: Seq<Seq<char>>, separator: Seq<char>) -> Seq<char>
    decreases parts.len(),
{
    if parts.len() == 0 {
        Seq::empty()
    } else if parts.len() == 1 {
        parts[0]
    } else {
        join_text(parts.drop_last(), separator) + separator + parts.last()
    }
}

/// What the strings of `parts` hold.
pub open spec fn texts(parts: Seq<String>) -> Seq<Seq<char>> {
    Seq::new(parts.len(), |i: int| parts[i]@)
}

/// `Itertools::join` on the strings of `parts`: the result starts with the
/// first string, and each later string follows a copy of `separator`. No
/// string gives the empty string. The crate writes each element with its
/// `Display` form, which for a string is the string itself.
#[verifier::external_body]
fn join(parts: &Vec<String>, separator: &str) -> (joined: String)
    ensures
        joined@ == join_text(texts(parts@), separator@),
{
    parts.iter().join(separator)
}

/// The one-character string of the decimal digit `d`.
fn digit_text(d: u64) -> (text: &'static str)
    requires
        d < 10,
    ensures
        text@ == seq![digit(d as int)],
{
    proof {
        reveal_strlit("0");
        reveal_strlit("1");
        reveal_strlit("2");
        reveal_strlit("3");
        reveal_strlit("4");
        reveal_strlit("5");
        reveal_strlit("6");
        reveal_strlit("7");
        reveal_strlit("8");
        reveal_strlit("9");
    }
    let text = if d == 0 {
        "0"
    } else if d == 1 {
        "1"
    } else if d == 2 {
        "2"
    } else if d == 3 {
        "3"
    } else if d == 4 {
        "4"
    } else if d == 5 {
        "5"
    } else if d == 6 {
        "6"
    } else if d == 7 {
        "7"
    } else if d == 8 {
        "8"
    } else {
        "9"
    };
    assert(text@ =~= seq![digit(d as int)]);
    text
}

/// Appends the decimal digits of `n` to `text`.
fn push_digits(text: &mut String, n: u64)
    ensures
        final(text)@ == old(text)@ + digits(n as nat),
    decreases n,
{
    if n >= 10 {
        push_digits(text, n / 10);
    }
    text.append(digit_text(n % 10));
    proof {
        if n >= 10 {
            assert(final(text)@ =~= old(text)@ + digits(n as nat));
        } else {
            assert(final(text)@ =~= old(text)@ + digits(n as nat));
        }
    }
}

/// The decimal form of `i`.
pub fn integer_text(i: i64) -> (text: String)
    ensures
        text@ == decimal(i as int),
{
    let mut text = String::new();
    if i < 0 {
        text.append("-");
        // `-i` does not fit for the least integer, `-(i + 1)` always does.
        let magnitude: u64 = (-(i + 1)) as u64 + 1;
        push_digits(&mut text, magnitude);
        proof {
            reveal_strlit("-");
            assert(text@ =~= decimal(i as int));
        }
    } else {
        push_digits(&mut text, i as u64);
        proof {
            assert(text@ =~= decimal(i as int));
        }
    }
    text
}

/// `prefix` followed by the decimal digits of `n`.
fn tagged(prefix: &str, n: u64) -> (text: String)
    ensures
        text@ == prefix@ + digits(n as nat),
{
    let mut text = String::new();
    text.append(prefix);
    push_digits(&mut text, n);
    proof {
        assert(text@ =~= prefix@ + digits(n as nat));
    }
    text
}

impl NativeFunction {
    /// The name by which the function reads.
    pub fn name(&self) -> (text: String)
        ensures
            text@ == native_text(*self),
    {
        match self {
            NativeFunction::Print => "builtin: print".to_owned(),
            NativeFunction::Type => "builtin: type".to_owned(),
            NativeFunction::SetMetatable => "builtin: setmetatable".to_owned(),
            NativeFunction::GetMetatable => "builtin: getmetatable".to_owned(),
            NativeFunction::Pcall => "builtin: pcall".to_owned(),
            NativeFunction::Error => "builtin: error".to_owned(),
            NativeFunction::Host(id) => tagged("native: ", *id),
        }
    }
}

impl Value {
    /// How the value reads: an integer in decimal, a string as it is, a
    /// boolean as `true` or `false`, a table or a function as its tag, and
    /// a host value as the name of its type and its number.
    pub fn to_string(&self) -> (text: String)
        ensures
            text@ == display_text(self@),
    {
        match self {
            Value::Integer(integer) => integer_text(*integer),
            Value::String(string) => string.clone(),
            Value::Boolean(boolean) => if *boolean {
                "true".to_owned()
            } else {
                "false".to_owned()
            },
            Value::Table(table) => tagged("table: ", table.id as u64),
            Value::Function(function) => tagged("function: ", function.id as u64),
            Value::NativeFunction(function) => {
                let mut text = "function: ".to_owned();
                let name = function.name();
                text.append(name.as_str());
                text
            },
            Value::UserData { data, .. } => {
                let mut text = data.type_tag.to_owned();
                text.append(": ");
                push_digits(&mut text, data.id);
                text
            },
        }
    }
}

impl Nillable {
    /// How the value reads; nil reads as `nil`.
    pub fn to_string(&self) -> (text: String)
        ensures
            text@ == display_text_of(self@),
    {
        match self {
            Nillable::NonNil(value) => value.to_string(),
            Nillable::Nil => "nil".to_owned(),
        }
    }
}

/// The texts of `values` in a row, with a tab between each two.
pub fn tabbed(values: &Vec<Nillable>) -> (line: String)
    ensures
        line@ == join_text(line_parts(elements_view(values@)), "\t"@),
{
    let mut parts: Vec<String> = Vec::new();
    let mut i: usize = 0;
    while i < values.len()
        invariant
            i <= values.len(),
            parts.len() == i,
            forall|j: int| 0 <= j < i ==> (#[trigger] parts[j])@ == display_text_of(values[j]@),
        decreases values.len() - i,
    {
        parts.push(values[i].to_string());
        i += 1;
    }
    proof {
        assert(texts(parts@) =~= line_parts(elements_view(values@)));
    }
    join(&parts, "\t")
}

/// How each of `values` reads.
pub open spec fn line_parts(values: Seq<Option<Val>>) -> Seq<Seq<char>> {
    Seq::new(values.len(), |i: int| display_text_of(values[i]))
}

} // verus!
