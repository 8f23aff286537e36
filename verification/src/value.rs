use vstd::prelude::*;
use crate::path::{Path, path_eq};

verus! {

/// Signals that a narrowing conversion asked for a tag the value does not
/// hold. Conversions never coerce across tags.
#[derive(Clone, Copy, PartialEq, Eq, Structural, Debug)]
pub struct ValueTypeMismatch;

/// Text produced or stored by the story.
pub struct StringValue {
    pub text: String,
}

/// A reference to a variable, optionally relative to a call-stack context.
pub struct VariablePointerValue {
    pub name: String,
    /// Negative means "unresolved"; zero and above name a call-stack frame.
    pub context_index: i32,
}

/// One named item of a list, tied to the list definition it came from.
pub struct InkListItem {
    pub origin_name: String,
    pub item_name: String,
    pub item_value: i32,
}

/// A collection of named list items. The core treats it as an opaque,
/// comparably-tagged payload; list algebra lives elsewhere.
pub struct InkList {
    pub items: Vec<InkListItem>,
}

/// The tag-and-payload of a runtime value. `Float` stores the IEEE-754 bit
/// pattern: the core never computes with the number, it only tags, stores
/// and round-trips it.
pub enum ValueType {
    Bool(bool),
    Int(i32),
    Float(u32),
    Str(StringValue),
    DivertTarget(Path),
    VariablePointer(VariablePointerValue),
    List(InkList),
}

/// A tagged runtime value: exactly one `ValueType` at a time.
pub struct Value {
    pub value: ValueType,
}

pub open spec fn string_value_eq(a: &StringValue, b: &StringValue) -> bool {
    a.text@ == b.text@
}

pub open spec fn variable_pointer_eq(a: &VariablePointerValue, b: &VariablePointerValue) -> bool {
    a.name@ == b.name@ && a.context_index == b.context_index
}

pub open spec fn ink_list_eq(a: &InkList, b: &InkList) -> bool {
    a.items@ == b.items@
}

/// Structural equality of tagged values, comparing text by contents.
pub open spec fn value_type_eq(a: &ValueType, b: &ValueType) -> bool {
    match (a, b) {
        (ValueType::Bool(x), ValueType::Bool(y)) => x == y,
        (ValueType::Int(x), ValueType::Int(y)) => x == y,
        (ValueType::Float(x), ValueType::Float(y)) => x == y,
        (ValueType::Str(x), ValueType::Str(y)) => string_value_eq(x, y),
        (ValueType::DivertTarget(x), ValueType::DivertTarget(y)) => path_eq(x, y),
        (ValueType::VariablePointer(x), ValueType::VariablePointer(y)) => variable_pointer_eq(x, y),
        (ValueType::List(x), ValueType::List(y)) => ink_list_eq(x, y),
        _ => false,
    }
}

/// What narrowing a tagged value to a bool yields.
pub open spec fn narrowed_bool(v: &ValueType) -> Result<bool, ValueTypeMismatch> {
    match v {
        ValueType::Bool(b) => Ok(*b),
        _ => Err(ValueTypeMismatch),
    }
}

/// What narrowing a tagged value to an int yields.
pub open spec fn narrowed_int(v: &ValueType) -> Result<i32, ValueTypeMismatch> {
    match v {
        ValueType::Int(i) => Ok(*i),
        _ => Err(ValueTypeMismatch),
    }
}

/// What narrowing a tagged value to float bits yields.
pub open spec fn narrowed_float_bits(v: &ValueType) -> Result<u32, ValueTypeMismatch> {
    match v {
        ValueType::Float(f) => Ok(*f),
        _ => Err(ValueTypeMismatch),
    }
}

impl Value {
    pub fn from_bool(b: bool) -> (r: Value)
        ensures
            r.value == ValueType::Bool(b),
    {
        Value { value: ValueType::Bool(b) }
    }

    pub fn from_int(i: i32) -> (r: Value)
        ensures
            r.value == ValueType::Int(i),
    {
        Value { value: ValueType::Int(i) }
    }

    pub fn from_float_bits(bits: u32) -> (r: Value)
        ensures
            r.value == ValueType::Float(bits),
    {
        Value { value: ValueType::Float(bits) }
    }

    pub fn from_text(s: &str) -> (r: Value)
        ensures
            r.value matches ValueType::Str(sv) && sv.text@ == s@,
    {
        Value { value: ValueType::Str(StringValue { text: s.to_owned() }) }
    }

    pub fn from_divert_target(p: Path) -> (r: Value)
        ensures
            r.value == ValueType::DivertTarget(p),
    {
        Value { value: ValueType::DivertTarget(p) }
    }

    pub fn from_variable_pointer(vp: VariablePointerValue) -> (r: Value)
        ensures
            r.value == ValueType::VariablePointer(vp),
    {
        Value { value: ValueType::VariablePointer(vp) }
    }

    pub fn from_list(l: InkList) -> (r: Value)
        ensures
            r.value == ValueType::List(l),
    {
        Value { value: ValueType::List(l) }
    }

    pub fn from_value_type(v: ValueType) -> (r: Value)
        ensures
            r.value == v,
    {
        Value { value: v }
    }

    /// Narrow to a bool; fails when the tag is anything else.
    pub fn as_bool(&self) -> (r: Result<bool, ValueTypeMismatch>)
        ensures
            r == narrowed_bool(&self.value),
    {
        match &self.value {
            ValueType::Bool(b) => Ok(*b),
            _ => Err(ValueTypeMismatch),
        }
    }

    /// Narrow to an int; fails when the tag is anything else.
    pub fn as_int(&self) -> (r: Result<i32, ValueTypeMismatch>)
        ensures
            r == narrowed_int(&self.value),
    {
        match &self.value {
            ValueType::Int(i) => Ok(*i),
            _ => Err(ValueTypeMismatch),
        }
    }

    /// Narrow to the stored float's bit pattern; fails on any other tag.
    pub fn as_float_bits(&self) -> (r: Result<u32, ValueTypeMismatch>)
        ensures
            r == narrowed_float_bits(&self.value),
    {
        match &self.value {
            ValueType::Float(f) => Ok(*f),
            _ => Err(ValueTypeMismatch),
        }
    }

    /// Narrow to the stored text; fails on any other tag.
    pub fn as_string(&self) -> (r: Result<&StringValue, ValueTypeMismatch>)
        ensures
            self.value matches ValueType::Str(s) ==> (r matches Ok(x) && *x == s),
            !(self.value is Str) ==> (r matches Err(e) && e == ValueTypeMismatch),
    {
        match &self.value {
            ValueType::Str(s) => Ok(s),
            _ => Err(ValueTypeMismatch),
        }
    }

    /// Narrow to the stored divert-target path; fails on any other tag.
    pub fn as_divert_target(&self) -> (r: Result<&Path, ValueTypeMismatch>)
        ensures
            self.value matches ValueType::DivertTarget(p) ==> (r matches Ok(x) && *x == p),
            !(self.value is DivertTarget) ==> (r matches Err(e) && e == ValueTypeMismatch),
    {
        match &self.value {
            ValueType::DivertTarget(p) => Ok(p),
            _ => Err(ValueTypeMismatch),
        }
    }

    /// Narrow to the stored variable pointer; fails on any other tag.
    pub fn as_variable_pointer(&self) -> (r: Result<&VariablePointerValue, ValueTypeMismatch>)
        ensures
            self.value matches ValueType::VariablePointer(v) ==> (r matches Ok(x) && *x == v),
            !(self.value is VariablePointer) ==> (r matches Err(e) && e == ValueTypeMismatch),
    {
        match &self.value {
            ValueType::VariablePointer(v) => Ok(v),
            _ => Err(ValueTypeMismatch),
        }
    }

    /// Narrow to the stored list; fails on any other tag.
    pub fn as_list(&self) -> (r: Result<&InkList, ValueTypeMismatch>)
        ensures
            self.value matches ValueType::List(l) ==> (r matches Ok(x) && *x == l),
            !(self.value is List) ==> (r matches Err(e) && e == ValueTypeMismatch),
    {
        match &self.value {
            ValueType::List(l) => Ok(l),
            _ => Err(ValueTypeMismatch),
        }
    }

    /// Narrow to the stored list for in-place update; fails on any other
    /// tag, leaving the value untouched.
    pub fn as_list_mut(&mut self) -> (r: Result<&mut InkList, ValueTypeMismatch>)
        ensures
            (old(self).value is List) <==> (r is Ok),
            !(old(self).value is List)
                ==> *final(self) == *old(self)
                    && (r matches Err(e) && e == ValueTypeMismatch),
            r matches Ok(lr) ==> *lr == old(self).value->List_0
                && final(self).value == ValueType::List(*final(lr)),
    {
        match &mut self.value {
            ValueType::List(l) => Ok(l),
            _ => Err(ValueTypeMismatch),
        }
    }

    /// Deep copy: the result compares equal to the original and shares no
    /// mutable state with it.
    pub fn duplicate(&self) -> (r: Value)
        ensures
            value_type_eq(&r.value, &self.value),
    {
        let value = match &self.value {
            ValueType::Bool(b) => ValueType::Bool(*b),
            ValueType::Int(i) => ValueType::Int(*i),
            ValueType::Float(f) => ValueType::Float(*f),
            ValueType::Str(s) => ValueType::Str(StringValue { text: s.text.clone() }),
            ValueType::DivertTarget(p) => ValueType::DivertTarget(p.duplicate()),
            ValueType::VariablePointer(v) => ValueType::VariablePointer(
                VariablePointerValue { name: v.name.clone(), context_index: v.context_index },
            ),
            ValueType::List(l) => ValueType::List(duplicate_list(l)),
        };
        Value { value }
    }
}

/// Deep copy of a list; items compare equal to the original's.
pub fn duplicate_list(l: &InkList) -> (r: InkList)
    ensures
        ink_list_eq(&r, l),
{
    let mut items: Vec<InkListItem> = Vec::new();
    let mut i: usize = 0;
    while i < l.items.len()
        invariant
            i <= l.items@.len(),
            items@ == l.items@.subrange(0, i as int),
        decreases l.items@.len() - i,
    {
        let it = &l.items[i];
        items.push(InkListItem {
            origin_name: it.origin_name.clone(),
            item_name: it.item_name.clone(),
            item_value: it.item_value,
        });
        proof {
            assert(items@ =~= l.items@.subrange(0, i + 1));
        }
        i = i + 1;
    }
    proof {
        assert(items@ =~= l.items@);
    }
    InkList { items }
}

/// Narrowing respects construction: a value built from a primitive of some
/// tag narrows back to exactly that primitive, and narrowing to any other
/// tag fails with a type mismatch.
pub proof fn lemma_narrowing_round_trip(v: Value)
    ensures
        v.value matches ValueType::Bool(b) ==> narrowed_bool(&v.value) == Ok::<bool, ValueTypeMismatch>(b),
        v.value matches ValueType::Int(i) ==> narrowed_int(&v.value) == Ok::<i32, ValueTypeMismatch>(i),
        v.value matches ValueType::Float(f) ==> narrowed_float_bits(&v.value) == Ok::<u32, ValueTypeMismatch>(f),
        !(v.value is Bool) ==> narrowed_bool(&v.value) == Err::<bool, ValueTypeMismatch>(ValueTypeMismatch),
        !(v.value is Int) ==> narrowed_int(&v.value) == Err::<i32, ValueTypeMismatch>(ValueTypeMismatch),
        !(v.value is Float) ==> narrowed_float_bits(&v.value) == Err::<u32, ValueTypeMismatch>(ValueTypeMismatch),
{
}

} // verus!
