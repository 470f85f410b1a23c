//! The values that a setting can hold.

use vstd::prelude::*;

verus! {

/// A dynamically typed setting value.
#[derive(Debug)]
pub enum SettingValue {
    /// An unsigned 32-bit integer.
    U32(u32),
    /// A signed 32-bit integer.
    I32(i32),
    /// A boolean.
    Bool(bool),
    /// A text.
    Str(String),
    /// Three double-precision numbers, each held as its IEEE 754 bit pattern.
    F64Triple(u64, u64, u64),
    /// A value of any other shape: its type signature and its encoded bytes.
    Other { signature: String, bytes: Vec<u8> },
}

/// What a [`SettingValue`] is, as a mathematical value.
pub enum ValueView {
    U32(u32),
    I32(i32),
    Bool(bool),
    Str(Seq<char>),
    F64Triple(u64, u64, u64),
    Other { signature: Seq<char>, bytes: Seq<u8> },
}

impl View for SettingValue {
    type V = ValueView;

    open spec fn view(&self) -> ValueView {
        match self {
            SettingValue::U32(n) => ValueView::U32(*n),
            SettingValue::I32(n) => ValueView::I32(*n),
            SettingValue::Bool(b) => ValueView::Bool(*b),
            SettingValue::Str(s) => ValueView::Str(s@),
            SettingValue::F64Triple(a, b, c) => ValueView::F64Triple(*a, *b, *c),
            SettingValue::Other { signature, bytes } => ValueView::Other {
                signature: signature@,
                bytes: bytes@,
            },
        }
    }
}

impl Clone for SettingValue {
    /// A deep copy: the copy owns its own text and bytes.
    fn clone(&self) -> (copy: Self)
        ensures
            copy@ == self@,
    {
        match self {
            SettingValue::U32(n) => SettingValue::U32(*n),
            SettingValue::I32(n) => SettingValue::I32(*n),
            SettingValue::Bool(b) => SettingValue::Bool(*b),
            SettingValue::Str(s) => SettingValue::Str(s.clone()),
            SettingValue::F64Triple(a, b, c) => SettingValue::F64Triple(*a, *b, *c),
            SettingValue::Other { signature, bytes } => SettingValue::Other {
                signature: signature.clone(),
                bytes: bytes.clone(),
            },
        }
    }
}

impl PartialEq for SettingValue {
    /// Structural equality: the same shape with the same content.
    fn eq(&self, other: &Self) -> (same: bool) {
        match (self, other) {
            (SettingValue::U32(a), SettingValue::U32(b)) => *a == *b,
            (SettingValue::I32(a), SettingValue::I32(b)) => *a == *b,
            (SettingValue::Bool(a), SettingValue::Bool(b)) => *a == *b,
            (SettingValue::Str(a), SettingValue::Str(b)) => *a == *b,
            (SettingValue::F64Triple(a, b, c), SettingValue::F64Triple(x, y, z)) => {
                *a == *x && *b == *y && *c == *z
            },
            (
                SettingValue::Other { signature: s, bytes: b },
                SettingValue::Other { signature: t, bytes: c },
            ) => *s == *t && same_bytes(b, c),
            _ => false,
        }
    }
}

impl vstd::std_specs::cmp::PartialEqSpecImpl for SettingValue {
    open spec fn obeys_eq_spec() -> bool {
        true
    }

    open spec fn eq_spec(&self, other: &Self) -> bool {
        self@ == other@
    }
}

/// Whether two byte vectors hold the same bytes.
fn same_bytes(a: &Vec<u8>, b: &Vec<u8>) -> (same: bool)
    ensures
        same == (a@ == b@),
{
    if a.len() != b.len() {
        return false;
    }
    let mut i: usize = 0;
    while i < a.len()
        invariant
            i <= a.len(),
            a.len() == b.len(),
            forall|j: int| 0 <= j < i ==> a@[j] == b@[j],
        decreases a.len() - i,
    {
        if a[i] != b[i] {
            return false;
        }
        i += 1;
    }
    assert(a@ =~= b@);
    true
}

} // verus!
