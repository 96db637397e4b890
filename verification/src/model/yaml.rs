//! A YAML document as plain values, and reading model fields out of it.
use vstd::prelude::*;
use vstd::string::*;

verus! {

/// A YAML node. Scalars keep the text they were read as (numbers in their
/// canonical form); mappings keep their entries in document order.
#[derive(Debug, PartialEq)]
pub enum YamlValue {
    Null,
    Bool(bool),
    Number(String),
    String(String),
    Sequence(Vec<YamlValue>),
    Mapping(Vec<(YamlValue, YamlValue)>),
}

#[verifier::external_type_specification]
#[verifier::external_body]
pub struct ExSerdeYamlValue(serde_yaml::Value);

/// The YAML document that a text holds, or the parser's error message.
pub uninterp spec fn yaml_document(text: Seq<char>) -> Result<YamlValue, Seq<char>>;

/// Parses a YAML document with `serde_yaml` (no two entries of a mapping share
/// a key; a tagged node is read as the node it tags). The result is named by
/// [yaml_document].
#[verifier::external_body]
pub fn parse_yaml(text: &str) -> (r: Result<YamlValue, String>)
    ensures
        match r {
            Ok(v) => yaml_document(text@) == Ok::<YamlValue, Seq<char>>(v),
            Err(e) => yaml_document(text@) == Err::<YamlValue, Seq<char>>(e@),
        },
{
    match serde_yaml::from_str::<serde_yaml::Value>(text) {
        Ok(v) => Ok(from_serde(v)),
        Err(e) => Err(e.to_string()),
    }
}

/// Moves a `serde_yaml::Value` into a [YamlValue], node by node.
#[verifier::external_body]
fn from_serde(v: serde_yaml::Value) -> YamlValue {
    match v {
        serde_yaml::Value::Null => YamlValue::Null,
        serde_yaml::Value::Bool(b) => YamlValue::Bool(b),
        serde_yaml::Value::Number(n) => YamlValue::Number(n.to_string()),
        serde_yaml::Value::String(s) => YamlValue::String(s),
        serde_yaml::Value::Sequence(s) => YamlValue::Sequence(s.into_iter().map(from_serde).collect()),
        serde_yaml::Value::Mapping(m) => YamlValue::Mapping(
            m.into_iter().map(|(k, v)| (from_serde(k), from_serde(v))).collect(),
        ),
        serde_yaml::Value::Tagged(t) => from_serde(t.value),
    }
}

/// The value of the entry whose key is the string `key` (the first such).
pub open spec fn field(m: Seq<(YamlValue, YamlValue)>, key: Seq<char>) -> Option<YamlValue>
    decreases m.len(),
{
    if m.len() == 0 {
        None
    } else {
        match m[0].0 {
            YamlValue::String(k) => if k@ == key {
                Some(m[0].1)
            } else {
                field(m.drop_first(), key)
            },
            _ => field(m.drop_first(), key),
        }
    }
}

/// The text of a scalar node that can be read as a string.
pub open spec fn as_text(v: YamlValue) -> Option<Seq<char>> {
    match v {
        YamlValue::String(s) => Some(s@),
        YamlValue::Number(n) => Some(n@),
        YamlValue::Bool(b) => Some(if b { "true"@ } else { "false"@ }),
        _ => None,
    }
}

pub open spec fn msg_expected(what: Seq<char>, key: Seq<char>) -> Seq<char> {
    "invalid type for `"@ + key + "`, expected "@ + what
}

pub open spec fn msg_missing(key: Seq<char>) -> Seq<char> {
    "missing field `"@ + key + "`"@
}

/// The texts of a sequence of scalars.
pub open spec fn texts(s: Seq<YamlValue>) -> Option<Seq<Seq<char>>>
    decreases s.len(),
{
    if s.len() == 0 {
        Some(Seq::empty())
    } else {
        match (texts(s.drop_last()), as_text(s.last())) {
            (Some(a), Some(t)) => Some(a.push(t)),
            _ => None,
        }
    }
}

/// An optional string field: absent or null is `None`.
pub open spec fn opt_text(m: Seq<(YamlValue, YamlValue)>, key: Seq<char>) -> Result<
    Option<Seq<char>>,
    Seq<char>,
> {
    match field(m, key) {
        None => Ok(None),
        Some(YamlValue::Null) => Ok(None),
        Some(v) => match as_text(v) {
            Some(t) => Ok(Some(t)),
            None => Err(msg_expected("a string"@, key)),
        },
    }
}

/// A required string field.
pub open spec fn req_text(m: Seq<(YamlValue, YamlValue)>, key: Seq<char>) -> Result<
    Seq<char>,
    Seq<char>,
> {
    match field(m, key) {
        None => Err(msg_missing(key)),
        Some(v) => match as_text(v) {
            Some(t) => Ok(t),
            None => Err(msg_expected("a string"@, key)),
        },
    }
}

/// An optional list of strings: absent or null is `None`.
pub open spec fn opt_texts(m: Seq<(YamlValue, YamlValue)>, key: Seq<char>) -> Result<
    Option<Seq<Seq<char>>>,
    Seq<char>,
> {
    match field(m, key) {
        None => Ok(None),
        Some(YamlValue::Null) => Ok(None),
        Some(YamlValue::Sequence(s)) => match texts(s@) {
            Some(t) => Ok(Some(t)),
            None => Err(msg_expected("a list of strings"@, key)),
        },
        Some(_) => Err(msg_expected("a list of strings"@, key)),
    }
}

/// An optional boolean field: absent or null is `None`.
pub open spec fn opt_bool(m: Seq<(YamlValue, YamlValue)>, key: Seq<char>) -> Result<
    Option<bool>,
    Seq<char>,
> {
    match field(m, key) {
        None => Ok(None),
        Some(YamlValue::Null) => Ok(None),
        Some(YamlValue::Bool(b)) => Ok(Some(b)),
        Some(_) => Err(msg_expected("a boolean"@, key)),
    }
}

/// Finds the entry whose key is the string `key`.
pub fn get_field<'a>(m: &'a Vec<(YamlValue, YamlValue)>, key: &str) -> (r: Option<&'a YamlValue>)
    ensures
        match field(m@, key@) {
            Some(v) => r == Some(&v),
            None => r is None,
        },
{
    let mut i: usize = 0;
    let target = key.to_owned();
    assert(m@.skip(0) == m@);
    while i < m.len()
        invariant
            i <= m.len(),
            target@ == key@,
            field(m@, key@) == field(m@.skip(i as int), key@),
        decreases m.len() - i,
    {
        assert(m@.skip(i as int).drop_first() == m@.skip(i + 1));
        assert(m@.skip(i as int)[0] == m@[i as int]);
        match &m[i].0 {
            YamlValue::String(k) => {
                if *k == target {
                    return Some(&m[i].1);
                }
            },
            _ => {},
        }
        i = i + 1;
    }
    None
}

/// The text of a scalar node.
pub fn text_of(v: &YamlValue) -> (r: Option<String>)
    ensures
        match as_text(*v) {
            Some(t) => r matches Some(s) && s@ == t,
            None => r is None,
        },
{
    match v {
        YamlValue::String(s) => Some(s.clone()),
        YamlValue::Number(n) => Some(n.clone()),
        YamlValue::Bool(b) => Some(
            if *b {
                String::from_str("true")
            } else {
                String::from_str("false")
            },
        ),
        _ => None,
    }
}

fn expected(what: &str, key: &str) -> (r: String)
    ensures
        r@ == msg_expected(what@, key@),
{
    let mut e = String::from_str("invalid type for `");
    e.append(key);
    e.append("`, expected ");
    e.append(what);
    e
}

/// Reads an optional string field.
pub fn read_opt_text(m: &Vec<(YamlValue, YamlValue)>, key: &str) -> (r: Result<
    Option<String>,
    String,
>)
    ensures
        match (r, opt_text(m@, key@)) {
            (Ok(Some(s)), Ok(Some(t))) => s@ == t,
            (Ok(None), Ok(None)) => true,
            (Err(e), Err(f)) => e@ == f,
            _ => false,
        },
{
    match get_field(m, key) {
        None => Ok(None),
        Some(YamlValue::Null) => Ok(None),
        Some(v) => match text_of(v) {
            Some(t) => Ok(Some(t)),
            None => Err(expected("a string", key)),
        },
    }
}

/// Reads a required string field.
pub fn read_text(m: &Vec<(YamlValue, YamlValue)>, key: &str) -> (r: Result<String, String>)
    ensures
        match (r, req_text(m@, key@)) {
            (Ok(s), Ok(t)) => s@ == t,
            (Err(e), Err(f)) => e@ == f,
            _ => false,
        },
{
    match get_field(m, key) {
        None => {
            let mut e = String::from_str("missing field `");
            e.append(key);
            e.append("`");
            Err(e)
        },
        Some(v) => match text_of(v) {
            Some(t) => Ok(t),
            None => Err(expected("a string", key)),
        },
    }
}

/// Reads an optional list of strings.
pub fn read_opt_texts(m: &Vec<(YamlValue, YamlValue)>, key: &str) -> (r: Result<
    Option<Vec<String>>,
    String,
>)
    ensures
        match (r, opt_texts(m@, key@)) {
            (Ok(Some(s)), Ok(Some(t))) => s.deep_view() == t,
            (Ok(None), Ok(None)) => true,
            (Err(e), Err(f)) => e@ == f,
            _ => false,
        },
{
    match get_field(m, key) {
        None => Ok(None),
        Some(YamlValue::Null) => Ok(None),
        Some(YamlValue::Sequence(s)) => {
            let mut out: Vec<String> = Vec::new();
            let mut i: usize = 0;
            while i < s.len()
                invariant
                    i <= s.len(),
                    field(m@, key@) matches Some(YamlValue::Sequence(q)) && q@ == s@,
                    texts(s@.take(i as int)) == Some(out.deep_view()),
                decreases s.len() - i,
            {
                assert(s@.take(i + 1).drop_last() == s@.take(i as int));
                match text_of(&s[i]) {
                    Some(t) => {
                        out.push(t);
                        assert(out.deep_view() =~= texts(s@.take(i + 1)).unwrap());
                    },
                    None => {
                        proof {
                            lemma_texts_none_extends(s@, i + 1);
                        }
                        return Err(expected("a list of strings", key));
                    },
                }
                i = i + 1;
            }
            assert(s@.take(s@.len() as int) == s@);
            Ok(Some(out))
        },
        Some(_) => Err(expected("a list of strings", key)),
    }
}

proof fn lemma_texts_none_extends(s: Seq<YamlValue>, k: int)
    requires
        0 <= k <= s.len(),
        texts(s.take(k)) is None,
    ensures
        texts(s) is None,
    decreases s.len() - k,
{
    if k < s.len() {
        assert(s.take(k + 1).drop_last() == s.take(k));
        lemma_texts_none_extends(s, k + 1);
    } else {
        assert(s.take(k) == s);
    }
}

/// Reads an optional boolean field.
pub fn read_opt_bool(m: &Vec<(YamlValue, YamlValue)>, key: &str) -> (r: Result<
    Option<bool>,
    String,
>)
    ensures
        match (r, opt_bool(m@, key@)) {
            (Ok(a), Ok(b)) => a == b,
            (Err(e), Err(f)) => e@ == f,
            _ => false,
        },
{
    match get_field(m, key) {
        None => Ok(None),
        Some(YamlValue::Null) => Ok(None),
        Some(YamlValue::Bool(b)) => Ok(Some(*b)),
        Some(_) => Err(expected("a boolean", key)),
    }
}

} // verus!

verus! {

/// A model type read from a YAML node.
pub trait FromYaml: Sized + View {
    /// What reading `v` gives: the value, or the error message.
    spec fn decoded(v: YamlValue) -> Result<<Self as View>::V, Seq<char>>;

    fn from_yaml_value(v: &YamlValue) -> (r: Result<Self, String>)
        ensures
            match (r, Self::decoded(*v)) {
                (Ok(x), Ok(y)) => x@ == y,
                (Err(e), Err(m)) => e@ == m,
                _ => false,
            },
    ;
}

/// Reading every node of a sequence; the first error counts.
pub open spec fn decoded_list<T: FromYaml>(s: Seq<YamlValue>) -> Result<Seq<T::V>, Seq<char>>
    decreases s.len(),
{
    if s.len() == 0 {
        Ok(Seq::empty())
    } else {
        match decoded_list::<T>(s.drop_last()) {
            Err(e) => Err(e),
            Ok(a) => match T::decoded(s.last()) {
                Ok(x) => Ok(a.push(x)),
                Err(e) => Err(e),
            },
        }
    }
}

/// An optional list field: absent or null is `None`.
pub open spec fn opt_list<T: FromYaml>(m: Seq<(YamlValue, YamlValue)>, key: Seq<char>) -> Result<
    Option<Seq<T::V>>,
    Seq<char>,
> {
    match field(m, key) {
        None => Ok(None),
        Some(YamlValue::Null) => Ok(None),
        Some(YamlValue::Sequence(s)) => match decoded_list::<T>(s@) {
            Ok(t) => Ok(Some(t)),
            Err(e) => Err(e),
        },
        Some(_) => Err(msg_expected("a list"@, key)),
    }
}

/// The views of a list of model values.
pub open spec fn views<T: View>(s: Seq<T>) -> Seq<T::V> {
    s.map_values(|x: T| x@)
}

proof fn lemma_decoded_list_err<T: FromYaml>(s: Seq<YamlValue>, k: int)
    requires
        0 <= k <= s.len(),
        decoded_list::<T>(s.take(k)) is Err,
    ensures
        decoded_list::<T>(s) == decoded_list::<T>(s.take(k)),
    decreases s.len() - k,
{
    if k < s.len() {
        assert(s.take(k + 1).drop_last() == s.take(k));
        lemma_decoded_list_err::<T>(s, k + 1);
    } else {
        assert(s.take(k) == s);
    }
}

/// Reads an optional list of model values.
pub fn read_opt_list<T: FromYaml>(m: &Vec<(YamlValue, YamlValue)>, key: &str) -> (r: Result<
    Option<Vec<T>>,
    String,
>)
    ensures
        match (r, opt_list::<T>(m@, key@)) {
            (Ok(Some(s)), Ok(Some(t))) => views(s@) == t,
            (Ok(None), Ok(None)) => true,
            (Err(e), Err(f)) => e@ == f,
            _ => false,
        },
{
    match get_field(m, key) {
        None => Ok(None),
        Some(YamlValue::Null) => Ok(None),
        Some(YamlValue::Sequence(s)) => {
            let mut out: Vec<T> = Vec::new();
            let mut i: usize = 0;
            assert(views(out@) =~= Seq::<T::V>::empty());
            assert(s@.take(0) =~= Seq::<YamlValue>::empty());
            while i < s.len()
                invariant
                    i <= s.len(),
                    field(m@, key@) matches Some(YamlValue::Sequence(q)) && q@ == s@,
                    decoded_list::<T>(s@.take(i as int)) == Ok::<Seq<T::V>, Seq<char>>(
                        views(out@),
                    ),
                decreases s.len() - i,
            {
                assert(s@.take(i + 1).drop_last() == s@.take(i as int));
                assert(s@.take(i + 1).last() == s@[i as int]);
                match T::from_yaml_value(&s[i]) {
                    Ok(x) => {
                        let ghost prev = out@;
                        let ghost xv = x@;
                        out.push(x);
                        assert(views(out@) =~= views(prev).push(xv));
                    },
                    Err(e) => {
                        proof {
                            lemma_decoded_list_err::<T>(s@, i + 1);
                        }
                        assert(s@.take(s@.len() as int) == s@);
                        return Err(e);
                    },
                }
                i = i + 1;
            }
            assert(s@.take(s@.len() as int) == s@);
            Ok(Some(out))
        },
        Some(_) => Err(expected("a list", key)),
    }
}

} // verus!
