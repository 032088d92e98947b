//! The strings that a value can be, as far as they are known.

use vstd::prelude::*;
use vstd::string::StringExecFns;
use crate::analyzer::{Constant, ConstantValue, JsValue, Value, model, models};
use crate::text::text_views;

verus! {

/// What is known of the string that a value is: one string, one of several,
/// or nothing.
#[derive(Debug, PartialEq, Eq)]
pub enum Pattern {
    /// The value is this string.
    Literal(String),
    /// The value is one of these strings.
    Alternatives(Vec<String>),
    /// The value is not known to be a string out of a finite set.
    Dynamic,
}

/// The mathematical model of a pattern.
pub ghost enum PatternModel {
    Literal(Seq<char>),
    Alternatives(Seq<Seq<char>>),
    Dynamic,
}

impl View for Pattern {
    type V = PatternModel;

    open spec fn view(&self) -> PatternModel {
        match self {
            Pattern::Literal(text) => PatternModel::Literal(text@),
            Pattern::Alternatives(texts) => PatternModel::Alternatives(text_views(texts@)),
            Pattern::Dynamic => PatternModel::Dynamic,
        }
    }
}

/// `prefix` before each of `suffixes`.
pub open spec fn prefixed(prefix: Seq<char>, suffixes: Seq<Seq<char>>) -> Seq<Seq<char>> {
    Seq::new(suffixes.len(), |j: int| prefix + suffixes[j])
}

/// Each of `prefixes` before each of `suffixes`, the prefixes in order and,
/// for one prefix, the suffixes in order.
pub open spec fn crossed(prefixes: Seq<Seq<char>>, suffixes: Seq<Seq<char>>) -> Seq<Seq<char>>
    decreases prefixes.len(),
{
    if prefixes.len() == 0 {
        Seq::empty()
    } else {
        crossed(prefixes.drop_last(), suffixes) + prefixed(prefixes.last(), suffixes)
    }
}

/// The strings that a value can be, in the order of the source: those of a
/// string literal, of a concatenation or sum of such values, and of
/// alternatives between such values; `None` for every other value.
pub open spec fn literals(value: Value) -> Option<Seq<Seq<char>>>
    decreases value, 0nat,
{
    match value {
        Value::Constant(Constant::Str(text)) => Some(seq![text]),
        Value::Concat(parts) => literals_of_parts(parts, parts.len()),
        Value::Add(parts) => literals_of_parts(parts, parts.len()),
        Value::Alternatives(alts) => if alts.len() == 0 {
            None
        } else {
            literals_of_any(alts, alts.len())
        },
        _ => None,
    }
}

/// The strings that the first `count` of `parts`, one after the other, can
/// be.
pub open spec fn literals_of_parts(parts: Seq<Value>, count: nat) -> Option<Seq<Seq<char>>>
    decreases parts, count,
{
    if count == 0 || count > parts.len() {
        Some(seq![Seq::empty()])
    } else {
        match (literals_of_parts(parts, (count - 1) as nat), literals(parts[count - 1])) {
            (Some(before), Some(last)) => Some(crossed(before, last)),
            _ => None,
        }
    }
}

/// The strings that any of the first `count` of `alts` can be.
pub open spec fn literals_of_any(alts: Seq<Value>, count: nat) -> Option<Seq<Seq<char>>>
    decreases alts, count,
{
    if count == 0 || count > alts.len() {
        Some(Seq::empty())
    } else {
        match (literals_of_any(alts, (count - 1) as nat), literals(alts[count - 1])) {
            (Some(before), Some(last)) => Some(before + last),
            _ => None,
        }
    }
}

/// The pattern of a value: a literal where it can be one string only, the
/// alternatives where it can be one of several, and otherwise dynamic.
pub open spec fn pattern_of(value: Value) -> PatternModel {
    match literals(value) {
        Some(texts) => if texts.len() == 1 {
            PatternModel::Literal(texts[0])
        } else {
            PatternModel::Alternatives(texts)
        },
        None => PatternModel::Dynamic,
    }
}

/// Puts each of `prefixes` before each of `suffixes`.
fn cross(prefixes: &Vec<String>, suffixes: &Vec<String>) -> (all: Vec<String>)
    ensures
        text_views(all@) == crossed(text_views(prefixes@), text_views(suffixes@)),
{
    let ghost left = text_views(prefixes@);
    let ghost right = text_views(suffixes@);
    let mut all: Vec<String> = Vec::new();
    let mut i: usize = 0;
    while i < prefixes.len()
        invariant
            i <= prefixes.len(),
            left == text_views(prefixes@),
            right == text_views(suffixes@),
            text_views(all@) == crossed(left.subrange(0, i as int), right),
        decreases prefixes.len() - i,
    {
        let ghost done = text_views(all@);
        let mut j: usize = 0;
        while j < suffixes.len()
            invariant
                i < prefixes.len(),
                j <= suffixes.len(),
                left == text_views(prefixes@),
                right == text_views(suffixes@),
                text_views(all@) == done + prefixed(left[i as int], right.subrange(0, j as int)),
            decreases suffixes.len() - j,
        {
            let ghost before = text_views(all@);
            let mut text = prefixes[i].clone();
            text.append(suffixes[j].as_str());
            all.push(text);
            j += 1;
            assert(text_views(all@) =~= before.push(left[i as int] + right[j as int - 1]));
        }
        i += 1;
        proof {
            assert(left.subrange(0, i as int).drop_last() =~= left.subrange(0, i as int - 1));
        }
    }
    assert(left.subrange(0, i as int) =~= left);
    all
}

/// The strings that a value can be; `None` where they are not known.
pub fn literal_texts(value: &JsValue) -> (texts: Option<Vec<String>>)
    ensures
        match texts {
            Some(texts) => literals(value@) == Some(text_views(texts@)),
            None => literals(value@) is None,
        },
    decreases value,
{
    match value {
        JsValue::Constant(ConstantValue::Str(text)) => {
            let mut texts: Vec<String> = Vec::new();
            texts.push(text.clone());
            Some(texts)
        },
        JsValue::Concat(parts) => literal_texts_of_parts(parts),
        JsValue::Add(parts) => literal_texts_of_parts(parts),
        JsValue::Alternatives(alts) => {
            if alts.len() == 0 {
                assert(models(alts@).len() == 0);
                return None;
            }
            let ghost values = models(alts@);
            let mut texts: Vec<String> = Vec::new();
            let mut i: usize = 0;
            while i < alts.len()
                invariant
                    i <= alts.len(),
                    values == models(alts@),
                    literals_of_any(values, i as nat) == Some(text_views(texts@)),
                    value is Alternatives,
                    *alts == value->Alternatives_0,
                decreases alts.len() - i,
            {
                match literal_texts(&alts[i]) {
                    Some(mut more) => {
                        texts.append(&mut more);
                    },
                    None => {
                        proof {
                            lemma_any_stays_unknown(values, (i + 1) as nat, values.len());
                        }
                        return None;
                    },
                }
                i += 1;
            }
            Some(texts)
        },
        _ => None,
    }
}

/// Once a prefix of the alternatives is not known, the whole is not known.
proof fn lemma_any_stays_unknown(alts: Seq<Value>, from: nat, to: nat)
    requires
        from <= to <= alts.len(),
        literals_of_any(alts, from) is None,
    ensures
        literals_of_any(alts, to) is None,
    decreases to,
{
    if from < to {
        lemma_any_stays_unknown(alts, from, (to - 1) as nat);
    }
}

/// Once a prefix of the parts is not known, the whole is not known.
proof fn lemma_parts_stay_unknown(parts: Seq<Value>, from: nat, to: nat)
    requires
        from <= to <= parts.len(),
        literals_of_parts(parts, from) is None,
    ensures
        literals_of_parts(parts, to) is None,
    decreases to,
{
    if from < to {
        lemma_parts_stay_unknown(parts, from, (to - 1) as nat);
    }
}

/// The strings that the given parts, one after the other, can be.
fn literal_texts_of_parts(parts: &Vec<JsValue>) -> (texts: Option<Vec<String>>)
    ensures
        match texts {
            Some(texts) => literals_of_parts(models(parts@), parts.len() as nat) == Some(
                text_views(texts@),
            ),
            None => literals_of_parts(models(parts@), parts.len() as nat) is None,
        },
    decreases parts,
{
    let ghost values = models(parts@);
    let mut texts: Vec<String> = Vec::new();
    texts.push(String::new());
    let mut i: usize = 0;
    while i < parts.len()
        invariant
            i <= parts.len(),
            values == models(parts@),
            literals_of_parts(values, i as nat) == Some(text_views(texts@)),
        decreases parts.len() - i,
    {
        match literal_texts(&parts[i]) {
            Some(more) => {
                texts = cross(&texts, &more);
            },
            None => {
                proof {
                    lemma_parts_stay_unknown(values, (i + 1) as nat, values.len());
                }
                return None;
            },
        }
        i += 1;
    }
    Some(texts)
}

impl Pattern {
    /// The pattern of a value.
    pub fn from(value: &JsValue) -> (pattern: Pattern)
        ensures
            pattern@ == pattern_of(value@),
    {
        match literal_texts(value) {
            Some(mut texts) => {
                if texts.len() == 1 {
                    match texts.pop() {
                        Some(text) => Pattern::Literal(text),
                        None => Pattern::Dynamic,
                    }
                } else {
                    Pattern::Alternatives(texts)
                }
            },
            None => Pattern::Dynamic,
        }
    }

    /// The string, where the pattern is a literal.
    pub fn into_string(self) -> (text: Option<String>)
        ensures
            match text {
                Some(text) => self@ == PatternModel::Literal(text@),
                None => !(self@ is Literal),
            },
    {
        match self {
            Pattern::Literal(text) => Some(text),
            _ => None,
        }
    }
}

} // verus!
