//! Schema-less store documents and the decode step.
//!
//! Raw documents arrive from the store as unordered lists of named fields of
//! dynamic type.  Typed records are obtained by an explicit decode step that
//! either succeeds or reports which field was missing or mistyped; a decode
//! error never aborts a whole pipeline pass.

use vstd::prelude::*;

verus! {

/// One dynamically typed field value of a stored document.
pub enum FieldValue {
    Text(String),
    Number(i64),
    Flag(bool),
}

impl Clone for FieldValue {
    fn clone(&self) -> (r: Self)
        ensures
            r == *self,
    {
        match self {
            FieldValue::Text(s) => FieldValue::Text(s.clone()),
            FieldValue::Number(n) => FieldValue::Number(*n),
            FieldValue::Flag(b) => FieldValue::Flag(*b),
        }
    }
}

/// A raw store document: named fields in store order.
pub struct Doc {
    pub fields: Vec<(String, FieldValue)>,
}

/// The fields a decoder may report as missing or mistyped.
#[derive(Clone, Copy, PartialEq, Eq, Structural, Debug)]
pub enum FieldName {
    TxHash,
    MetaHash,
    Domain,
    Price,
    Payer,
    Timestamp,
    Expiry,
    Renewer,
    Allowance,
}

/// Why a raw document could not be decoded into a typed record.
#[derive(Clone, Copy, PartialEq, Eq, Structural, Debug)]
pub enum DecodeError {
    Missing(FieldName),
    WrongType(FieldName),
}

/// The first field named `name`, if any.
pub open spec fn doc_lookup(fields: Seq<(String, FieldValue)>, name: Seq<char>) -> Option<
    FieldValue,
>
    decreases fields.len(),
{
    if fields.len() == 0 {
        None
    } else if fields[0].0@ == name {
        Some(fields[0].1)
    } else {
        doc_lookup(fields.skip(1), name)
    }
}

/// Reading field `name` as text: the value, or the decode error blamed on `f`.
pub open spec fn spec_text_field(
    fields: Seq<(String, FieldValue)>,
    name: Seq<char>,
    f: FieldName,
) -> Result<String, DecodeError> {
    match doc_lookup(fields, name) {
        None => Err(DecodeError::Missing(f)),
        Some(v) => match v {
            FieldValue::Text(s) => Ok(s),
            _ => Err(DecodeError::WrongType(f)),
        },
    }
}

/// Reading field `name` as a number.
pub open spec fn spec_number_field(
    fields: Seq<(String, FieldValue)>,
    name: Seq<char>,
    f: FieldName,
) -> Result<i64, DecodeError> {
    match doc_lookup(fields, name) {
        None => Err(DecodeError::Missing(f)),
        Some(v) => match v {
            FieldValue::Number(n) => Ok(n),
            _ => Err(DecodeError::WrongType(f)),
        },
    }
}

impl Doc {
    /// The first field named `name`, if any.
    pub fn get<'a>(&'a self, name: &String) -> (r: Option<&'a FieldValue>)
        ensures
            match r {
                Some(v) => doc_lookup(self.fields@, name@) == Some(*v),
                None => doc_lookup(self.fields@, name@) is None,
            },
    {
        let n = self.fields.len();
        let mut i: usize = 0;
        proof {
            assert(self.fields@.skip(0) =~= self.fields@);
        }
        while i < n
            invariant
                i <= n,
                n == self.fields@.len(),
                doc_lookup(self.fields@, name@) == doc_lookup(self.fields@.skip(i as int), name@),
            decreases n - i,
        {
            if self.fields[i].0 == *name {
                assert(self.fields@.skip(i as int)[0] == self.fields@[i as int]);
                return Some(&self.fields[i].1);
            }
            proof {
                assert(self.fields@.skip(i as int).skip(1) =~= self.fields@.skip(i + 1));
            }
            i = i + 1;
        }
        proof {
            assert(self.fields@.skip(i as int).len() == 0);
        }
        None
    }

    /// Field `name` as owned text, or the decode error blamed on `f`.
    pub fn get_text(&self, name: &String, f: FieldName) -> (r: Result<String, DecodeError>)
        ensures
            r == spec_text_field(self.fields@, name@, f),
    {
        match self.get(name) {
            None => Err(DecodeError::Missing(f)),
            Some(v) => match v {
                FieldValue::Text(s) => Ok(s.clone()),
                _ => Err(DecodeError::WrongType(f)),
            },
        }
    }

    /// Field `name` as a number, or the decode error blamed on `f`.
    pub fn get_number(&self, name: &String, f: FieldName) -> (r: Result<i64, DecodeError>)
        ensures
            r == spec_number_field(self.fields@, name@, f),
    {
        match self.get(name) {
            None => Err(DecodeError::Missing(f)),
            Some(v) => match v {
                FieldValue::Number(n) => Ok(*n),
                _ => Err(DecodeError::WrongType(f)),
            },
        }
    }
}

} // verus!
