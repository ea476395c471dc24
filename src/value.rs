//! Values and the object model: classes, instances and bound methods, held
//! in an arena and addressed by integer handles.
use crate::lexer::same_text;
use crate::vm::VmError;
use vstd::prelude::*;

verus! {

/// A bound method: a receiver instance and a slot of its class's method
/// table, resolved by name when the method was bound.
#[derive(Debug, PartialEq, Eq, Structural, Clone, Copy)]
pub struct BoundMethod {
    pub receiver: usize,
    pub function: usize,
}

impl BoundMethod {
    pub fn new(receiver: usize, function: usize) -> (r: Self)
        ensures
            r.receiver == receiver,
            r.function == function,
    {
        Self { receiver, function }
    }
}

/// A dynamically typed value. Classes and instances are handles into a
/// [`Heap`]; two values that hold the same handle alias one object.
#[derive(Debug, PartialEq, Clone)]
pub enum Value {
    Bool(bool),
    Integer(i64),
    String(String),
    Instance(usize),
    Class(usize),
    Method(BoundMethod),
    Nil,
}

impl Value {
    /// A copy of this value (a handle is copied, not the object).
    pub fn duplicate(&self) -> (r: Value)
        ensures
            r == *self,
    {
        match self {
            Value::Bool(b) => Value::Bool(*b),
            Value::Integer(i) => Value::Integer(*i),
            Value::String(s) => Value::String(s.clone()),
            Value::Instance(i) => Value::Instance(*i),
            Value::Class(c) => Value::Class(*c),
            Value::Method(m) => Value::Method(*m),
            Value::Nil => Value::Nil,
        }
    }
}

impl From<()> for Value {
    /// The unit value reads as `nil`.
    fn from(_unit: ()) -> Value {
        Value::Nil
    }
}

impl vstd::std_specs::convert::FromSpecImpl<()> for Value {
    open spec fn obeys_from_spec() -> bool {
        true
    }

    open spec fn from_spec(v: ()) -> Value {
        Value::Nil
    }
}

/// A Rust value that converts to a script value.
pub trait ToValue: Sized {
    /// Whether `v` is what this Rust value converts to.
    spec fn converts_to(self, v: Value) -> bool;

    fn to_value(self) -> (r: Value)
        ensures
            self.converts_to(r),
    ;
}

/// The error of a coercion from a value of the wrong kind.
pub const COERCE_ERROR: &'static str = "cannot coerce type from value";

/// A Rust value that a script value coerces to.
pub trait FromValue: Sized {
    spec fn spec_from_value(v: Value) -> Option<Self>;

    fn from_value(value: &Value) -> (r: Result<Self, String>)
        ensures
            match Self::spec_from_value(*value) {
                Some(x) => r == Ok::<Self, String>(x),
                None => r is Err && r->Err_0@ == COERCE_ERROR@,
            },
    ;
}

impl ToValue for Value {
    open spec fn converts_to(self, v: Value) -> bool {
        v == self
    }

    fn to_value(self) -> (r: Value) {
        self
    }
}

impl ToValue for i64 {
    open spec fn converts_to(self, v: Value) -> bool {
        v == Value::Integer(self)
    }

    fn to_value(self) -> (r: Value) {
        Value::Integer(self)
    }
}

impl ToValue for i32 {
    open spec fn converts_to(self, v: Value) -> bool {
        v == Value::Integer(self as i64)
    }

    fn to_value(self) -> (r: Value) {
        Value::Integer(self as i64)
    }
}

impl ToValue for i16 {
    open spec fn converts_to(self, v: Value) -> bool {
        v == Value::Integer(self as i64)
    }

    fn to_value(self) -> (r: Value) {
        Value::Integer(self as i64)
    }
}

impl ToValue for i8 {
    open spec fn converts_to(self, v: Value) -> bool {
        v == Value::Integer(self as i64)
    }

    fn to_value(self) -> (r: Value) {
        Value::Integer(self as i64)
    }
}

impl ToValue for u32 {
    open spec fn converts_to(self, v: Value) -> bool {
        v == Value::Integer(self as i64)
    }

    fn to_value(self) -> (r: Value) {
        Value::Integer(self as i64)
    }
}

impl ToValue for u16 {
    open spec fn converts_to(self, v: Value) -> bool {
        v == Value::Integer(self as i64)
    }

    fn to_value(self) -> (r: Value) {
        Value::Integer(self as i64)
    }
}

impl ToValue for u8 {
    open spec fn converts_to(self, v: Value) -> bool {
        v == Value::Integer(self as i64)
    }

    fn to_value(self) -> (r: Value) {
        Value::Integer(self as i64)
    }
}

/// An integer wider than 64 bits is truncated, as `as` does.
impl ToValue for i128 {
    open spec fn converts_to(self, v: Value) -> bool {
        v == Value::Integer(#[verifier::truncate] (self as i64))
    }

    fn to_value(self) -> (r: Value) {
        Value::Integer(#[verifier::truncate] (self as i64))
    }
}

/// An integer wider than 64 bits is truncated, as `as` does.
impl ToValue for isize {
    open spec fn converts_to(self, v: Value) -> bool {
        v == Value::Integer(#[verifier::truncate] (self as i64))
    }

    fn to_value(self) -> (r: Value) {
        Value::Integer(#[verifier::truncate] (self as i64))
    }
}

/// An integer wider than 64 bits is truncated, as `as` does.
impl ToValue for u64 {
    open spec fn converts_to(self, v: Value) -> bool {
        v == Value::Integer(#[verifier::truncate] (self as i64))
    }

    fn to_value(self) -> (r: Value) {
        Value::Integer(#[verifier::truncate] (self as i64))
    }
}

/// An integer wider than 64 bits is truncated, as `as` does.
impl ToValue for u128 {
    open spec fn converts_to(self, v: Value) -> bool {
        v == Value::Integer(#[verifier::truncate] (self as i64))
    }

    fn to_value(self) -> (r: Value) {
        Value::Integer(#[verifier::truncate] (self as i64))
    }
}

/// An integer wider than 64 bits is truncated, as `as` does.
impl ToValue for usize {
    open spec fn converts_to(self, v: Value) -> bool {
        v == Value::Integer(#[verifier::truncate] (self as i64))
    }

    fn to_value(self) -> (r: Value) {
        Value::Integer(#[verifier::truncate] (self as i64))
    }
}

impl<'a> ToValue for &'a str {
    open spec fn converts_to(self, v: Value) -> bool {
        v is String && v->String_0@ == self@
    }

    fn to_value(self) -> (r: Value) {
        Value::String(self.to_owned())
    }
}

impl ToValue for Box<str> {
    open spec fn converts_to(self, v: Value) -> bool {
        v is String && v->String_0@ == (*self)@
    }

    fn to_value(self) -> (r: Value) {
        Value::String((*self).to_owned())
    }
}

impl<'a> ToValue for &'a mut str {
    open spec fn converts_to(self, v: Value) -> bool {
        v is String && v->String_0@ == (*self)@
    }

    fn to_value(self) -> (r: Value) {
        Value::String((*self).to_owned())
    }
}

impl<'a> ToValue for &'a String {
    open spec fn converts_to(self, v: Value) -> bool {
        v is String && v->String_0@ == self@
    }

    fn to_value(self) -> (r: Value) {
        Value::String(self.clone())
    }
}

impl ToValue for bool {
    open spec fn converts_to(self, v: Value) -> bool {
        v == Value::Bool(self)
    }

    fn to_value(self) -> (r: Value) {
        Value::Bool(self)
    }
}

impl ToValue for String {
    open spec fn converts_to(self, v: Value) -> bool {
        v == Value::String(self)
    }

    fn to_value(self) -> (r: Value) {
        Value::String(self)
    }
}

/// A handle to a class of the heap, as read from a global.
#[derive(Debug, PartialEq, Eq, Structural, Clone, Copy)]
pub struct ClassRef(pub usize);

impl FromValue for ClassRef {
    open spec fn spec_from_value(v: Value) -> Option<Self> {
        match v {
            Value::Class(c) => Some(ClassRef(c)),
            _ => None,
        }
    }

    fn from_value(value: &Value) -> (r: Result<Self, String>) {
        match value {
            Value::Class(c) => Ok(ClassRef(*c)),
            _ => Err(COERCE_ERROR.to_owned()),
        }
    }
}

impl FromValue for Value {
    open spec fn spec_from_value(v: Value) -> Option<Self> {
        Some(v)
    }

    fn from_value(value: &Value) -> (r: Result<Self, String>) {
        Ok(value.duplicate())
    }
}

impl FromValue for i64 {
    open spec fn spec_from_value(v: Value) -> Option<Self> {
        match v {
            Value::Integer(i) => Some(i),
            _ => None,
        }
    }

    fn from_value(value: &Value) -> (r: Result<Self, String>) {
        match value {
            Value::Integer(i) => Ok(*i),
            _ => Err(COERCE_ERROR.to_owned()),
        }
    }
}

impl FromValue for i32 {
    /// An integer is narrowed by truncation.
    open spec fn spec_from_value(v: Value) -> Option<Self> {
        match v {
            Value::Integer(i) => Some(i as i32),
            _ => None,
        }
    }

    fn from_value(value: &Value) -> (r: Result<Self, String>) {
        match value {
            Value::Integer(i) => Ok(*i as i32),
            _ => Err(COERCE_ERROR.to_owned()),
        }
    }
}

impl FromValue for bool {
    open spec fn spec_from_value(v: Value) -> Option<Self> {
        match v {
            Value::Bool(b) => Some(b),
            _ => None,
        }
    }

    fn from_value(value: &Value) -> (r: Result<Self, String>) {
        match value {
            Value::Bool(b) => Ok(*b),
            _ => Err(COERCE_ERROR.to_owned()),
        }
    }
}

impl FromValue for String {
    open spec fn spec_from_value(v: Value) -> Option<Self> {
        match v {
            Value::String(s) => Some(s),
            _ => None,
        }
    }

    fn from_value(value: &Value) -> (r: Result<Self, String>) {
        match value {
            Value::String(s) => Ok(s.clone()),
            _ => Err(COERCE_ERROR.to_owned()),
        }
    }
}

/// A host-supplied method body. It receives the heap, the receiver's handle
/// and the receiver's field list, which it may change, and the call's
/// arguments, and returns the call's result. While it runs, the receiver's
/// fields are the list it was handed (the heap's copy is set aside); it may
/// run other methods of the receiver on that list with `Heap::invoke_on`.
pub trait Callable: Sized {
    /// What a run of the body may do: from the receiver's `fields` and the
    /// `args`, leave the field list `after` and return `r`. A body that does
    /// not say may do anything.
    open spec fn call_outcome(&self, fields: Seq<Value>, args: Seq<Value>, after: Seq<Value>, r: Value) -> bool {
        true
    }

    fn call(&self, heap: &Heap<Self>, receiver: usize, fields: &mut Vec<Value>, args: Vec<Value>) -> (r: Value)
        ensures
            self.call_outcome(old(fields)@, args@, final(fields)@, r),
    ;
}

/// A named entry of a class's method table.
pub struct InstanceFun<C> {
    pub name: String,
    pub fun: C,
}

impl<C> InstanceFun<C> {
    pub fn new(name: &str, fun: C) -> (r: Self)
        ensures
            r.name@ == name@,
            r.fun == fun,
    {
        Self { name: name.to_owned(), fun }
    }
}

/// The position of the last occurrence of `k` in `names`, or -1.
pub open spec fn last_index(names: Seq<Seq<char>>, k: Seq<char>) -> int
    decreases names.len(),
{
    if names.len() == 0 {
        -1
    } else if names.last() == k {
        names.len() - 1
    } else {
        last_index(names.drop_last(), k)
    }
}

pub proof fn lemma_last_index(names: Seq<Seq<char>>, k: Seq<char>)
    ensures
        -1 <= last_index(names, k) < names.len(),
        last_index(names, k) >= 0 ==> names[last_index(names, k)] == k,
        last_index(names, k) == -1 <==> !names.contains(k),
    decreases names.len(),
{
    if names.len() > 0 {
        lemma_last_index(names.drop_last(), k);
        if names.last() != k && names.contains(k) {
            let j = choose|j: int| 0 <= j < names.len() && names[j] == k;
            assert(names.drop_last()[j] == k);
        }
    }
}

/// A class: a name and a method table that may change at any time. A name
/// bound more than once resolves to its last entry.
pub struct Class<C> {
    pub name: String,
    pub methods: Vec<InstanceFun<C>>,
}

impl<C> Class<C> {
    /// The names of the method table, in order.
    pub open spec fn method_names(&self) -> Seq<Seq<char>> {
        self.methods@.map_values(|m: InstanceFun<C>| m.name@)
    }

    /// Where `name` resolves in the method table, or -1.
    pub open spec fn resolve(&self, name: Seq<char>) -> int {
        last_index(self.method_names(), name)
    }

    pub fn new(name: &str) -> (r: Self)
        ensures
            r.name@ == name@,
            r.methods.len() == 0,
    {
        Self { name: name.to_owned(), methods: Vec::new() }
    }

    /// Resolves a method name against the table.
    pub fn find_method(&self, name: &str) -> (r: Option<usize>)
        ensures
            match r {
                Some(i) => i == self.resolve(name@),
                None => self.resolve(name@) == -1,
            },
    {
        let mut i = self.methods.len();
        assert(self.method_names().take(i as int) =~= self.method_names());
        while i > 0
            invariant
                i <= self.methods.len(),
                last_index(self.method_names().take(i as int), name@) == self.resolve(name@),
            decreases i,
        {
            let ghost names = self.method_names().take(i as int);
            assert(names.drop_last() =~= self.method_names().take(i - 1));
            if same_text(self.methods[i - 1].name.as_str(), name) {
                return Some(i - 1);
            }
            i = i - 1;
        }
        None
    }

    /// Binds `name` to `fun`: an existing binding of the name is replaced in
    /// place, otherwise the entry is appended.
    pub fn add_method(&mut self, name: &str, fun: C)
        ensures
            final(self).name == old(self).name,
            final(self).resolve(name@) >= 0,
            final(self).methods@[final(self).resolve(name@)].fun == fun,
            forall|k: Seq<char>| k != name@ ==> #[trigger] final(self).resolve(k) == old(self).resolve(k),
            forall|k: Seq<char>|
                k != name@ && old(self).resolve(k) >= 0 ==> #[trigger] final(self).methods@[final(self).resolve(k)]
                    == old(self).methods@[old(self).resolve(k)],
    {
        match self.find_method(name) {
            Some(i) => {
                proof {
                    lemma_last_index(old(self).method_names(), name@);
                }
                self.methods.set(i, InstanceFun::new(name, fun));
                assert(self.method_names() =~= old(self).method_names());
                assert forall|k: Seq<char>| k != name@ && old(self).resolve(k) >= 0 implies #[trigger] self.methods@[self.resolve(k)]
                    == old(self).methods@[old(self).resolve(k)] by {
                    lemma_last_index(old(self).method_names(), k);
                }
            },
            None => {
                self.methods.push(InstanceFun::new(name, fun));
                assert(self.method_names().drop_last() =~= old(self).method_names());
                assert forall|k: Seq<char>| k != name@ && old(self).resolve(k) >= 0 implies #[trigger] self.methods@[self.resolve(k)]
                    == old(self).methods@[old(self).resolve(k)] by {
                    lemma_last_index(old(self).method_names(), k);
                }
            },
        }
    }
}

/// An instance: a handle to its class and a field list, initially empty.
pub struct Instance {
    pub class: usize,
    pub fields: Vec<Value>,
}

impl Instance {
    pub fn new(class: usize) -> (r: Self)
        ensures
            r.class == class,
            r.fields.len() == 0,
    {
        Self { class, fields: Vec::new() }
    }

    /// The instance's fields.
    pub fn fields(&self) -> (r: &Vec<Value>)
        ensures
            r == &self.fields,
    {
        &self.fields
    }

    /// The instance's fields, to change them.
    pub fn fields_mut(&mut self) -> (r: &mut Vec<Value>)
        ensures
            *r == old(self).fields,
            final(self).fields == *final(r),
            final(self).class == old(self).class,
    {
        &mut self.fields
    }
}

/// The arena that owns every class and instance of a session.
pub struct Heap<C> {
    pub classes: Vec<Class<C>>,
    pub instances: Vec<Instance>,
}

impl<C> Heap<C> {
    pub fn new() -> (r: Self)
        ensures
            r.classes.len() == 0,
            r.instances.len() == 0,
    {
        Self { classes: Vec::new(), instances: Vec::new() }
    }

    /// Adds an empty class and returns its handle.
    pub fn add_class(&mut self, name: &str) -> (r: usize)
        requires
            old(self).classes.len() < usize::MAX,
        ensures
            r == old(self).classes.len(),
            final(self).classes@.drop_last() == old(self).classes@,
            final(self).classes.len() == old(self).classes.len() + 1,
            final(self).classes@.last().name@ == name@,
            final(self).classes@.last().methods.len() == 0,
            final(self).instances == old(self).instances,
    {
        let r = self.classes.len();
        self.classes.push(Class::new(name));
        assert(self.classes@.drop_last() =~= old(self).classes@);
        r
    }

    /// The class that a handle names, if it is one.
    pub open spec fn class_ok(&self, class: int) -> bool {
        0 <= class < self.classes.len()
    }

    /// The instance that a handle names, if it is one, with a valid class.
    pub open spec fn instance_ok(&self, instance: int) -> bool {
        0 <= instance < self.instances.len() && self.class_ok(self.instances@[instance].class as int)
    }

    /// What instantiating `class` does: a new empty instance is appended and
    /// its handle returned, unless the handle is invalid or the arena full.
    pub open spec fn instance_post(self, after: Self, class: usize, r: Result<usize, VmError>) -> bool {
        &&& after.classes == self.classes
        &&& if !self.class_ok(class as int) {
            r == Err::<usize, VmError>(VmError::InvalidHandle) && after.instances == self.instances
        } else if self.instances.len() == usize::MAX {
            r == Err::<usize, VmError>(VmError::OutOfMemory) && after.instances == self.instances
        } else {
            &&& r == Ok::<usize, VmError>(self.instances.len())
            &&& after.instances@.drop_last() == self.instances@
            &&& after.instances.len() == self.instances.len() + 1
            &&& after.instances@.last().class == class
            &&& after.instances@.last().fields.len() == 0
        }
    }

    /// Creates an empty instance of a class (calling a class value).
    pub fn instance(&mut self, class: usize) -> (r: Result<usize, VmError>)
        ensures
            old(self).instance_post(*final(self), class, r),
    {
        if class >= self.classes.len() {
            return Err(VmError::InvalidHandle);
        }
        if self.instances.len() == usize::MAX {
            return Err(VmError::OutOfMemory);
        }
        let r = self.instances.len();
        self.instances.push(Instance::new(class));
        assert(self.instances@.drop_last() =~= old(self).instances@);
        Ok(r)
    }

    /// What binding `name` on `receiver` gives: the method that the name
    /// resolves to in the receiver's class.
    pub open spec fn bind_post(self, receiver: usize, name: Seq<char>, r: Result<BoundMethod, VmError>) -> bool {
        if !self.instance_ok(receiver as int) {
            r == Err::<BoundMethod, VmError>(VmError::InvalidHandle)
        } else {
            let i = self.classes@[self.instances@[receiver as int].class as int].resolve(name);
            if i >= 0 {
                r == Ok::<BoundMethod, VmError>(BoundMethod { receiver, function: i as usize })
            } else {
                r is Err && r->Err_0 is NoSuchMethod && r->Err_0->NoSuchMethod_0@ == name
            }
        }
    }

    /// Resolves `name` in the receiver's class and binds it to the receiver.
    pub fn bind(&self, receiver: usize, name: &str) -> (r: Result<BoundMethod, VmError>)
        ensures
            self.bind_post(receiver, name@, r),
    {
        if receiver >= self.instances.len() {
            return Err(VmError::InvalidHandle);
        }
        let class = self.instances[receiver].class;
        if class >= self.classes.len() {
            return Err(VmError::InvalidHandle);
        }
        match self.classes[class].find_method(name) {
            Some(i) => Ok(BoundMethod::new(receiver, i)),
            None => Err(VmError::NoSuchMethod(name.to_owned())),
        }
    }

    /// Whether a bound method's receiver and slot are valid.
    pub open spec fn method_ok(&self, m: BoundMethod) -> bool {
        self.instance_ok(m.receiver as int) && m.function < self.classes@[self.instances@[m.receiver as int].class as int].methods.len()
    }

}

impl<C: Callable> Heap<C> {
    /// The method table entry that a valid bound method names.
    pub open spec fn method_of(self, m: BoundMethod) -> InstanceFun<C> {
        self.classes@[self.instances@[m.receiver as int].class as int].methods@[m.function as int]
    }

    /// What calling a bound method with `args` does: its body runs once, on
    /// the receiver's stored fields and `args`; the field list it leaves
    /// becomes the receiver's fields and its return value is the result.
    /// Nothing else changes.
    pub open spec fn call_post(self, after: Self, m: BoundMethod, args: Seq<Value>, r: Result<Value, VmError>) -> bool {
        &&& after.classes == self.classes
        &&& after.instances.len() == self.instances.len()
        &&& forall|j: int|
            0 <= j < self.instances.len() && j != m.receiver ==> #[trigger] after.instances@[j] == self.instances@[j]
        &&& if self.method_ok(m) {
            &&& r is Ok
            &&& after.instances@[m.receiver as int].class == self.instances@[m.receiver as int].class
            &&& self.method_of(m).fun.call_outcome(
                self.instances@[m.receiver as int].fields@,
                args,
                after.instances@[m.receiver as int].fields@,
                r->Ok_0,
            )
        } else {
            r == Err::<Value, VmError>(VmError::InvalidHandle) && after.instances == self.instances
        }
    }

    /// Calls a bound method: its body runs on the receiver's fields. Only
    /// the receiver's fields may change.
    pub fn call(&mut self, m: BoundMethod, args: Vec<Value>) -> (r: Result<Value, VmError>)
        ensures
            old(self).call_post(*final(self), m, args@, r),
    {
        if m.receiver >= self.instances.len() {
            return Err(VmError::InvalidHandle);
        }
        let class = self.instances[m.receiver].class;
        if class >= self.classes.len() || m.function >= self.classes[class].methods.len() {
            return Err(VmError::InvalidHandle);
        }
        let mut fields: Vec<Value> = Vec::new();
        std::mem::swap(&mut fields, &mut self.instances[m.receiver].fields);
        let result = self.classes[class].methods[m.function].fun.call(self, m.receiver, &mut fields, args);
        std::mem::swap(&mut fields, &mut self.instances[m.receiver].fields);
        Ok(result)
    }

    /// Runs the method that `name` resolves to in the receiver's class on
    /// the field list `fields` (the receiver's own, while a method of it
    /// runs), without touching the heap.
    pub fn invoke_on(&self, receiver: usize, name: &str, fields: &mut Vec<Value>, args: Vec<Value>) -> (r: Result<
        Value,
        VmError,
    >)
        ensures
            !self.instance_ok(receiver as int) ==> r == Err::<Value, VmError>(VmError::InvalidHandle)
                && final(fields)@ == old(fields)@,
            self.instance_ok(receiver as int) ==> {
                let class = self.classes@[self.instances@[receiver as int].class as int];
                let i = class.resolve(name@);
                if i >= 0 {
                    r is Ok && class.methods@[i].fun.call_outcome(old(fields)@, args@, final(fields)@, r->Ok_0)
                } else {
                    r is Err && r->Err_0 is NoSuchMethod && r->Err_0->NoSuchMethod_0@ == name@ && final(fields)@
                        == old(fields)@
                }
            },
    {
        match self.bind(receiver, name) {
            Ok(m) => {
                let class = self.instances[receiver].class;
                proof {
                    lemma_last_index(self.classes@[class as int].method_names(), name@);
                    assert(self.bind_post(receiver, name@, Ok(m)));
                    assert(self.classes@[class as int].method_names().len() == self.classes@[class as int].methods.len());
                    assert(m.function as int == self.classes@[class as int].resolve(name@));
                }
                let r = self.classes[class].methods[m.function].fun.call(self, receiver, fields, args);
                Ok(r)
            },
            Err(e) => Err(e),
        }
    }

    /// Binds `name` on the receiver and calls it at once.
    pub fn invoke(&mut self, receiver: usize, name: &str, args: Vec<Value>) -> (r: Result<Value, VmError>)
        ensures
            !old(self).instance_ok(receiver as int) ==> r == Err::<Value, VmError>(VmError::InvalidHandle)
                && *final(self) == *old(self),
            old(self).instance_ok(receiver as int) ==> {
                let i = old(self).classes@[old(self).instances@[receiver as int].class as int].resolve(name@);
                if i >= 0 {
                    old(self).call_post(*final(self), BoundMethod { receiver, function: i as usize }, args@, r)
                } else {
                    r is Err && r->Err_0 is NoSuchMethod && r->Err_0->NoSuchMethod_0@ == name@ && *final(self)
                        == *old(self)
                }
            },
    {
        match self.bind(receiver, name) {
            Ok(m) => {
                proof {
                    let c = self.classes@[self.instances@[receiver as int].class as int];
                    lemma_last_index(c.method_names(), name@);
                }
                self.call(m, args)
            },
            Err(e) => Err(e),
        }
    }
}

/// The method body appends `Integer(1)` to the fields, whatever else it
/// does.
pub open spec fn appends_one<C: Callable>(f: InstanceFun<C>) -> bool {
    forall|fields: Seq<Value>, args: Seq<Value>, after: Seq<Value>, r: Value|
        #[trigger] f.fun.call_outcome(fields, args, after, r) ==> after == fields.push(Value::Integer(1))
}

/// The method body adds one to an integer in the first field.
pub open spec fn increments_first<C: Callable>(f: InstanceFun<C>) -> bool {
    forall|fields: Seq<Value>, args: Seq<Value>, after: Seq<Value>, r: Value|
        #![trigger f.fun.call_outcome(fields, args, after, r)]
        fields.len() > 0 && fields[0] is Integer && fields[0]->Integer_0 < i64::MAX && f.fun.call_outcome(
            fields,
            args,
            after,
            r,
        ) ==> after == fields.update(0, Value::Integer((fields[0]->Integer_0 + 1) as i64))
}

/// Field changes made through one bound method are seen by the next call
/// through another method bound on the same instance: calling a method that
/// appends `1` once and then a method that increments the first field `n`
/// times, on a fresh instance, leaves the fields `[1 + n]`. `heaps` are the
/// heap states between the calls.
pub proof fn lemma_shared_field_mutation<C: Callable>(
    heaps: Seq<Heap<C>>,
    results: Seq<Result<Value, VmError>>,
    append: BoundMethod,
    bump: BoundMethod,
    n: nat,
)
    requires
        heaps.len() == n + 2,
        results.len() == n + 1,
        n + 1 <= i64::MAX,
        append.receiver == bump.receiver,
        heaps[0].method_ok(append),
        heaps[0].method_ok(bump),
        heaps[0].instances@[append.receiver as int].fields@ == Seq::<Value>::empty(),
        appends_one(heaps[0].method_of(append)),
        increments_first(heaps[0].method_of(bump)),
        heaps[0].call_post(heaps[1], append, seq![], results[0]),
        forall|i: int| 1 <= i < n + 1 ==> #[trigger] heaps[i].call_post(heaps[i + 1], bump, seq![], results[i]),
    ensures
        heaps[n + 1int].instances@[append.receiver as int].fields@ == seq![Value::Integer((1 + n) as i64)],
{
    lemma_shared_fields_step(heaps, results, append, bump, n, n + 1int);
}

proof fn lemma_shared_fields_step<C: Callable>(
    heaps: Seq<Heap<C>>,
    results: Seq<Result<Value, VmError>>,
    append: BoundMethod,
    bump: BoundMethod,
    n: nat,
    i: int,
)
    requires
        heaps.len() == n + 2,
        results.len() == n + 1,
        n + 1 <= i64::MAX,
        append.receiver == bump.receiver,
        heaps[0].method_ok(append),
        heaps[0].method_ok(bump),
        heaps[0].instances@[append.receiver as int].fields@ == Seq::<Value>::empty(),
        appends_one(heaps[0].method_of(append)),
        increments_first(heaps[0].method_of(bump)),
        heaps[0].call_post(heaps[1], append, seq![], results[0]),
        forall|j: int| 1 <= j < n + 1 ==> #[trigger] heaps[j].call_post(heaps[j + 1], bump, seq![], results[j]),
        1 <= i <= n + 1,
    ensures
        heaps[i].classes == heaps[0].classes,
        heaps[i].instances.len() == heaps[0].instances.len(),
        heaps[i].instances@[append.receiver as int].class == heaps[0].instances@[append.receiver as int].class,
        heaps[i].instances@[append.receiver as int].fields@ == seq![Value::Integer(i as i64)],
    decreases i,
{
    let rc = append.receiver as int;
    if i == 1 {
        let f = heaps[0].method_of(append);
        assert(f.fun.call_outcome(
            heaps[0].instances@[rc].fields@,
            seq![],
            heaps[1].instances@[rc].fields@,
            results[0]->Ok_0,
        ));
        assert(heaps[1].instances@[rc].fields@ =~= seq![Value::Integer(1)]);
    } else {
        lemma_shared_fields_step(heaps, results, append, bump, n, i - 1);
        let j = i - 1;
        assert(heaps[j].call_post(heaps[j + 1], bump, seq![], results[j]));
        assert(heaps[j].method_of(bump) == heaps[0].method_of(bump));
        let fields = heaps[j].instances@[rc].fields@;
        assert(fields[0] == Value::Integer(j as i64));
        assert(heaps[0].method_of(bump).fun.call_outcome(
            fields,
            seq![],
            heaps[i].instances@[rc].fields@,
            results[j]->Ok_0,
        ));
        assert(heaps[i].instances@[rc].fields@ =~= seq![Value::Integer(i as i64)]);
    }
}

} // verus!
