//! Decoding the per-field annotations `builder(each = "name")` and
//! `debug = "template"`.

use vstd::prelude::*;
use vstd::string::*;
use crate::literal::{check_identifier, decode_str_literal, is_identifier, str_literal_value};
use crate::model::{AttrBody, Attribute, Token};
use crate::template::{count_sites, site_count};

verus! {

/// Which annotation family is being read.
#[derive(PartialEq, Eq, Structural, Clone, Copy, Debug)]
pub enum AttrKind {
    Builder,
    Debug,
}

/// A malformed or repeated annotation, with the index of its field and its
/// index in that field's annotation list.
#[derive(PartialEq, Eq, Structural, Clone, Copy, Debug)]
pub enum AttributeError {
    MalformedEach { field: usize, attr: usize },
    MalformedFormat { field: usize, attr: usize },
    Duplicate { field: usize, attr: usize },
}

pub open spec fn marker(kind: AttrKind) -> Seq<char> {
    match kind {
        AttrKind::Builder => "builder"@,
        AttrKind::Debug => "debug"@,
    }
}

/// The annotation's path is the single identifier of its family.
pub open spec fn is_relevant(a: Attribute, kind: AttrKind) -> bool {
    a.path@.len() == 1 && a.path@[0]@ == marker(kind)
}

/// The identifier that the tokens `each = "<identifier>"` name, if they are
/// exactly that.
pub open spec fn each_value(toks: Seq<Token>) -> Option<Seq<char>> {
    if toks.len() == 3 {
        match (toks[0], toks[1], toks[2]) {
            (Token::Ident(i), Token::Punct('='), Token::Literal(l)) => {
                if i@ == "each"@ {
                    match str_literal_value(l@) {
                        Some(v) => if is_identifier(v) {
                            Some(v)
                        } else {
                            None
                        },
                        None => None,
                    }
                } else {
                    None
                }
            },
            _ => None,
        }
    } else {
        None
    }
}

/// The template of `debug = "<template>"`, if the value is a single string
/// literal holding a template with exactly one substitution site.
pub open spec fn format_value(toks: Seq<Token>) -> Option<Seq<char>> {
    if toks.len() == 1 {
        match toks[0] {
            Token::Literal(l) => match str_literal_value(l@) {
                Some(v) => if site_count(v) == Some(1nat) {
                    Some(v)
                } else {
                    None
                },
                None => None,
            },
            _ => None,
        }
    } else {
        None
    }
}

/// What a relevant annotation carries, or `None` when it is malformed.
pub open spec fn decode(a: Attribute, kind: AttrKind) -> Option<Seq<char>> {
    match (kind, a.body) {
        (AttrKind::Builder, AttrBody::List(toks)) => each_value(toks@),
        (AttrKind::Debug, AttrBody::NameValue(toks)) => format_value(toks@),
        _ => None,
    }
}

pub open spec fn malformed(kind: AttrKind, field: usize, attr: usize) -> AttributeError {
    match kind {
        AttrKind::Builder => AttributeError::MalformedEach { field, attr },
        AttrKind::Debug => AttributeError::MalformedFormat { field, attr },
    }
}

/// The outcome of reading a field's annotations in order: the first relevant
/// annotation that is malformed or that follows another relevant one is the
/// error; otherwise the value of the one relevant annotation, if any.
pub open spec fn parse_spec(attrs: Seq<Attribute>, kind: AttrKind, field: usize) -> Result<
    Option<Seq<char>>,
    AttributeError,
>
    decreases attrs.len(),
{
    if attrs.len() == 0 {
        Ok(None)
    } else {
        let k = (attrs.len() - 1) as usize;
        match parse_spec(attrs.drop_last(), kind, field) {
            Err(e) => Err(e),
            Ok(found) => if !is_relevant(attrs.last(), kind) {
                Ok(found)
            } else if found is Some {
                Err(AttributeError::Duplicate { field, attr: k })
            } else {
                match decode(attrs.last(), kind) {
                    Some(v) => Ok(Some(v)),
                    None => Err(malformed(kind, field, k)),
                }
            },
        }
    }
}

pub open spec fn parsed_view(r: Result<Option<String>, AttributeError>) -> Result<
    Option<Seq<char>>,
    AttributeError,
> {
    match r {
        Ok(Some(v)) => Ok(Some(v@)),
        Ok(None) => Ok(None),
        Err(e) => Err(e),
    }
}

/// An error met on a prefix of the annotations is the error of the whole list.
proof fn lemma_error_persists(attrs: Seq<Attribute>, kind: AttrKind, field: usize, n: int)
    requires
        0 <= n <= attrs.len(),
        parse_spec(attrs.subrange(0, n), kind, field) is Err,
    ensures
        parse_spec(attrs, kind, field) == parse_spec(attrs.subrange(0, n), kind, field),
    decreases attrs.len(),
{
    if n == attrs.len() {
        assert(attrs.subrange(0, n) == attrs);
    } else {
        assert(attrs.drop_last().subrange(0, n) == attrs.subrange(0, n));
        lemma_error_persists(attrs.drop_last(), kind, field, n);
    }
}

fn text_is(s: &String, lit: &str) -> (r: bool)
    ensures
        r == (s@ == lit@),
{
    let other = String::from_str(lit);
    *s == other
}

fn is_relevant_exec(a: &Attribute, kind: AttrKind) -> (r: bool)
    ensures
        r == is_relevant(*a, kind),
{
    if a.path.len() != 1 {
        return false;
    }
    match kind {
        AttrKind::Builder => text_is(&a.path[0], "builder"),
        AttrKind::Debug => text_is(&a.path[0], "debug"),
    }
}

fn decode_each(toks: &Vec<Token>) -> (r: Option<String>)
    ensures
        match r {
            Some(v) => each_value(toks@) == Some(v@),
            None => each_value(toks@) is None,
        },
{
    if toks.len() != 3 {
        return None;
    }
    match (&toks[0], &toks[1], &toks[2]) {
        (Token::Ident(i), Token::Punct(p), Token::Literal(l)) => {
            if !text_is(i, "each") || *p != '=' {
                return None;
            }
            match decode_str_literal(l) {
                Some(v) => if check_identifier(&v) {
                    Some(v)
                } else {
                    None
                },
                None => None,
            }
        },
        _ => None,
    }
}

fn decode_format(toks: &Vec<Token>) -> (r: Option<String>)
    ensures
        match r {
            Some(v) => format_value(toks@) == Some(v@),
            None => format_value(toks@) is None,
        },
{
    if toks.len() != 1 {
        return None;
    }
    match &toks[0] {
        Token::Literal(l) => match decode_str_literal(l) {
            Some(v) => match count_sites(v.as_str()) {
                Some(n) => if n == 1 {
                    Some(v)
                } else {
                    None
                },
                None => None,
            },
            None => None,
        },
        _ => None,
    }
}

fn decode_exec(a: &Attribute, kind: AttrKind) -> (r: Option<String>)
    ensures
        match r {
            Some(v) => decode(*a, kind) == Some(v@),
            None => decode(*a, kind) is None,
        },
{
    match (kind, &a.body) {
        (AttrKind::Builder, AttrBody::List(toks)) => decode_each(toks),
        (AttrKind::Debug, AttrBody::NameValue(toks)) => decode_format(toks),
        _ => None,
    }
}

/// Reads the annotations of the family `kind` among a field's annotations.
/// Absence is no error; a malformed annotation, or a second one of the
/// family, is.
pub fn parse(attrs: &Vec<Attribute>, kind: AttrKind, field: usize) -> (r: Result<
    Option<String>,
    AttributeError,
>)
    ensures
        parsed_view(r) == parse_spec(attrs@, kind, field),
{
    let mut found: Option<String> = None;
    let mut i: usize = 0;
    while i < attrs.len()
        invariant
            i <= attrs@.len(),
            parsed_view(Ok(found)) == parse_spec(attrs@.subrange(0, i as int), kind, field),
        decreases attrs@.len() - i,
    {
        assert(attrs@.subrange(0, i + 1).drop_last() == attrs@.subrange(0, i as int));
        let a = &attrs[i];
        if is_relevant_exec(a, kind) {
            if found.is_some() {
                proof {
                    lemma_error_persists(attrs@, kind, field, i + 1);
                }
                return Err(AttributeError::Duplicate { field, attr: i });
            }
            match decode_exec(a, kind) {
                Some(v) => {
                    found = Some(v);
                },
                None => {
                    proof {
                        lemma_error_persists(attrs@, kind, field, i + 1);
                    }
                    return Err(
                        match kind {
                            AttrKind::Builder => AttributeError::MalformedEach { field, attr: i },
                            AttrKind::Debug => AttributeError::MalformedFormat { field, attr: i },
                        },
                    );
                },
            }
        }
        i = i + 1;
    }
    assert(attrs@.subrange(0, attrs@.len() as int) == attrs@);
    Ok(found)
}

} // verus!
