//! Reading connector options, and the names generated code uses.
use crate::ir::{options_view, ConnectorOption, DataType, OptionValue, SpecConnectorOption, SpecOptionValue};
use crate::sql::grammar::first_option;
use crate::text::{push_text, str_eq, str_chars, string_from_chars};
use vstd::prelude::*;

verus! {

/// The string value of the first option with key `key`: `None` when there
/// is no such option or its value is not a string.
pub open spec fn option_string(opts: Seq<SpecConnectorOption>, key: Seq<char>) -> Option<Seq<char>> {
    match first_option(opts, key) {
        Some(i) => match opts[i].value {
            SpecOptionValue::Str(s) => Some(s),
            _ => None,
        },
        None => None,
    }
}

/// Helper: Get option value from connector options
pub fn get_option_value(options: &[ConnectorOption], key: &str) -> (r: Option<String>)
    ensures
        match r {
            Some(s) => option_string(options_view(options@), key@) == Some(s@),
            None => option_string(options_view(options@), key@) is None,
        },
{
    let ghost ov = options_view(options@);
    proof {
        crate::ir::lemma_options_view_index(options@);
    }
    let mut i: usize = 0;
    while i < options.len()
        invariant
            i <= options.len(),
            ov == options_view(options@),
            ov.len() == options@.len(),
            forall|k: int| 0 <= k < options@.len() ==> #[trigger] ov[k] == options@[k]@,
            forall|j: int| 0 <= j < i ==> ov[j].key != key@,
        decreases options.len() - i,
    {
        let found = str_eq(options[i].key.as_str(), key);
        assert(ov[i as int] == options@[i as int]@);
        if found {
            assert(first_option(ov, key@) == Some(i as int)) by {
                let k = choose|k: int|
                    0 <= k < ov.len() && ov[k].key == key@ && forall|j: int|
                        0 <= j < k ==> ov[j].key != key@;
                assert(0 <= k < ov.len() && ov[k].key == key@ && forall|j: int|
                    0 <= j < k ==> ov[j].key != key@) by {
                    assert(ov[i as int].key == key@);
                }
                if k > i {
                    assert(ov[i as int].key != key@);
                }
            }
            return match &options[i].value {
                OptionValue::String(s) => Some(s.clone()),
                _ => None,
            };
        }
        i = i + 1;
    }
    assert(first_option(ov, key@) is None);
    None
}

/// What `char::to_uppercase` gives for a character: one or more characters.
pub uninterp spec fn upper_case(c: char) -> Seq<char>;

/// `char::to_uppercase`, collected: the upper-case mapping of `c`, which is
/// `c` itself when it has none. Which characters it is for a given `c` is
/// Unicode's table, which is not stated here.
#[verifier::external_body]
fn char_upper_case(c: char) -> (r: String)
    ensures
        r@ == upper_case(c),
{
    c.to_uppercase().collect()
}

/// The text that results from putting `upper` (the upper-case form of the
/// first character of `s`) in place of the first character of a non-empty
/// `s`.
pub fn capitalized_with(upper: &str, s: &str) -> (r: String)
    requires
        s@.len() > 0,
    ensures
        r@ == upper@ + s@.drop_first(),
{
    let v = str_chars(s);
    let mut r = String::new();
    push_text(&mut r, upper);
    let rest = string_from_chars(&v, 1, v.len());
    push_text(&mut r, rest.as_str());
    assert(r@ =~= upper@ + s@.drop_first());
    r
}

/// `s` with its first character in upper case.
pub open spec fn capitalized(s: Seq<char>) -> Seq<char> {
    if s.len() == 0 {
        Seq::empty()
    } else {
        upper_case(s[0]) + s.drop_first()
    }
}

/// Helper: Capitalize first letter
pub fn capitalize(s: &str) -> (r: String)
    ensures
        r@ == capitalized(s@),
{
    let v = str_chars(s);
    if v.len() == 0 {
        return String::new();
    }
    let upper = char_upper_case(v[0]);
    capitalized_with(upper.as_str(), s)
}

/// The Rust type a column of the given type is held in.
pub open spec fn rust_type_name(d: DataType) -> Seq<char> {
    match d {
        DataType::Integer => "i32"@,
        DataType::BigInt => "i64"@,
        DataType::Float => "f32"@,
        DataType::Double => "f64"@,
        DataType::String => "String"@,
        DataType::Boolean => "bool"@,
        DataType::Timestamp => "i64"@,
    }
}

/// Helper: the Rust type of a column type; a timestamp is Unix time.
pub fn rust_type(data_type: &DataType) -> (r: &'static str)
    ensures
        r@ == rust_type_name(*data_type),
{
    match data_type {
        DataType::Integer => "i32",
        DataType::BigInt => "i64",
        DataType::Float => "f32",
        DataType::Double => "f64",
        DataType::String => "String",
        DataType::Boolean => "bool",
        DataType::Timestamp => "i64",
    }
}

/// An option is read from the first option with its key: its string value,
/// or nothing when that value is not a string; later options with the same
/// key, and options with other keys, play no part. Without an option of
/// that key there is nothing.
pub proof fn lemma_option_string(opts: Seq<SpecConnectorOption>, key: Seq<char>)
    ensures
        forall|i: int|
            0 <= i < opts.len() && (#[trigger] opts[i]).key == key && (forall|j: int|
                0 <= j < i ==> opts[j].key != key) ==> option_string(opts, key) == match opts[i].value {
                SpecOptionValue::Str(v) => Some(v),
                _ => None,
            },
        (forall|i: int| 0 <= i < opts.len() ==> (#[trigger] opts[i]).key != key) ==> option_string(
            opts,
            key,
        ) is None,
{
    assert forall|i: int|
        0 <= i < opts.len() && (#[trigger] opts[i]).key == key && (forall|j: int|
            0 <= j < i ==> opts[j].key != key) implies option_string(opts, key) == match opts[i].value {
            SpecOptionValue::Str(v) => Some(v),
            _ => None,
        } by {
        let k = choose|k: int|
            0 <= k < opts.len() && opts[k].key == key && forall|j: int| 0 <= j < k ==> opts[j].key != key;
        assert(0 <= k < opts.len() && opts[k].key == key && forall|j: int| 0 <= j < k ==> opts[j].key != key);
        if k < i {
            assert(opts[k].key != key);
        } else if k > i {
            assert(opts[i].key != key);
        }
        assert(crate::sql::grammar::first_option(opts, key) == Some(i));
    }
}

/// The Rust types columns are held in: 32-bit integers `i32`, big integers
/// and timestamps (Unix time) `i64`, floats `f32`, doubles `f64`, strings
/// `String`, booleans `bool`.
pub proof fn lemma_rust_types()
    ensures
        rust_type_name(DataType::Integer) == "i32"@,
        rust_type_name(DataType::BigInt) == "i64"@,
        rust_type_name(DataType::Timestamp) == "i64"@,
        rust_type_name(DataType::Float) == "f32"@,
        rust_type_name(DataType::Double) == "f64"@,
        rust_type_name(DataType::String) == "String"@,
        rust_type_name(DataType::Boolean) == "bool"@,
{
}

/// Capitalizing changes only the first character: the rest of the text is
/// kept, and the empty text stays empty.
pub proof fn lemma_capitalized(s: Seq<char>)
    ensures
        s.len() == 0 ==> capitalized(s).len() == 0,
        s.len() > 0 ==> capitalized(s) == upper_case(s[0]) + s.subrange(1, s.len() as int),
{
    if s.len() > 0 {
        assert(s.drop_first() =~= s.subrange(1, s.len() as int));
    }
}

} // verus!
