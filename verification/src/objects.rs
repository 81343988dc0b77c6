//! The objects that live on the heap: arrays, classes, functions, external
//! functions, instances of classes and strings.

use crate::bytecode::{Chunk, ClassMut, FunctionMut};
use crate::heap::Handle;
use crate::stack::{slot_type, slot_value_type, Slot};
use crate::value::FunctionExt;
use vstd::prelude::*;

verus! {

/// The errors of objects.
#[derive(Debug)]
pub enum ObjectError {
    /// The elements of an array are not all of one type.
    ArrayError { array: Vec<Slot>, type1: String, type2: String },
}

/// An object on the heap.
#[derive(Debug)]
pub enum Object {
    Array(Array),
    Class(Class),
    Function(Function),
    FunctionExt(FunctionExt),
    Instance(Instance),
    String(String),
}

/// The name of an object's type.
pub open spec fn object_type(o: Object) -> Seq<char> {
    match o {
        Object::Array(a) => "Array<"@ + a.element_type@ + ">"@,
        Object::Class(c) => "Class<"@ + c.name()@ + ">"@,
        Object::Function(f) => "Function<"@ + f.name@ + ">"@,
        Object::FunctionExt(f) => "FunctionExt<"@ + f.name@ + "; "@ + f.kind@ + ">"@,
        Object::Instance(i) => "Instance<"@ + i.class_name() + ">"@,
        Object::String(_) => "String"@,
    }
}

/// Joins three strings.
pub fn join3(a: &str, b: &str, c: &str) -> (r: String)
    ensures
        r@ == a@ + b@ + c@,
{
    let mut s = String::from_str(a);
    s.append(b);
    s.append(c);
    s
}

impl Object {
    /// The class, if the object is one.
    pub fn as_class(&self) -> (r: Option<&Class>)
        ensures
            match *self {
                Object::Class(c) => r == Some(&c),
                _ => r is None,
            },
    {
        match self {
            Object::Class(class) => Some(class),
            _ => None,
        }
    }

    /// The function, if the object is one.
    pub fn as_function(&self) -> (r: Option<&Function>)
        ensures
            match *self {
                Object::Function(f) => r == Some(&f),
                _ => r is None,
            },
    {
        match self {
            Object::Function(function) => Some(function),
            _ => None,
        }
    }

    /// The string, if the object is one.
    pub fn as_string(&self) -> (r: Option<&String>)
        ensures
            match *self {
                Object::String(s) => r == Some(&s),
                _ => r is None,
            },
    {
        match self {
            Object::String(string) => Some(string),
            _ => None,
        }
    }

    /// Returns the name of the object's type.
    pub fn data_type(&self) -> (r: String)
        ensures
            r@ == object_type(*self),
    {
        match self {
            Object::Array(a) => join3("Array<", a.element_type.as_str(), ">"),
            Object::Class(c) => join3("Class<", c.name.as_str(), ">"),
            Object::Function(f) => join3("Function<", f.name.as_str(), ">"),
            Object::FunctionExt(f) => {
                let mut s = join3("FunctionExt<", f.name.as_str(), "; ");
                s.append(f.kind.as_str());
                s.append(">");
                s
            },
            Object::Instance(i) => {
                let name = i.get_class_name();
                join3("Instance<", name.as_str(), ">")
            },
            Object::String(_) => String::from_str("String"),
        }
    }
}

/// An array: its elements and the name of their common type.
#[derive(Debug)]
pub struct Array {
    pub element_type: String,
    pub elements: Vec<Slot>,
}

/// The common type of a list of slots: that of the first, or `unit` for none;
/// `None` where two slots differ in type.
pub open spec fn common_type(s: Seq<Slot>) -> Option<Seq<char>> {
    if s.len() == 0 {
        Some("unit"@)
    } else if forall|i: int| 0 <= i < s.len() ==> slot_value_type(#[trigger] s[i]) == slot_value_type(s[0]) {
        Some(slot_value_type(s[0]))
    } else {
        None
    }
}

impl Array {
    /// Makes an array of the elements, whose type is that of its elements.
    ///
    /// Fails with `ArrayError` when two elements differ in type: `type1` is
    /// the first element's type and `type2` that of the first element that
    /// differs from it.
    pub fn new(elements: Vec<Slot>) -> (r: Result<Array, ObjectError>)
        ensures
            match common_type(elements@) {
                Some(t) => r matches Ok(a) && a.element_type@ == t && a.elements@ == elements@,
                None => r matches Err(ObjectError::ArrayError { array, type1, type2 })
                    && array@ == elements@ && type1@ == slot_value_type(elements@[0])
                    && exists|k: int|
                        0 < k < elements@.len() && type2@ == slot_value_type(elements@[k])
                            && type2@ != type1@
                            && forall|j: int| 0 < j < k ==> slot_value_type(elements@[j]) == type1@,
            },
    {
        if elements.len() == 0 {
            return Ok(Array { element_type: String::from_str("unit"), elements });
        }
        let first = elements[0].value_type();
        let mut i: usize = 1;
        while i < elements.len()
            invariant
                1 <= i <= elements@.len(),
                first@ == slot_value_type(elements@[0]),
                forall|j: int| 0 < j < i ==> slot_value_type(elements@[j]) == first@,
            decreases elements@.len() - i,
        {
            let t = elements[i].value_type();
            if t != first {
                proof {
                    assert(!(forall|j: int| 0 <= j < elements@.len() ==> slot_value_type(#[trigger] elements@[j]) == slot_value_type(elements@[0])));
                }
                return Err(ObjectError::ArrayError { array: elements, type1: first, type2: t });
            }
            i = i + 1;
        }
        assert(forall|j: int| 0 <= j < elements@.len() ==> slot_value_type(#[trigger] elements@[j]) == slot_value_type(elements@[0]));
        Ok(Array { element_type: first, elements })
    }
}

/// A class: its name and its methods, each a function on the heap.
#[derive(Debug)]
pub struct Class {
    name: String,
    methods: Vec<(String, Slot)>,
}

/// A slot that holds a handle to a function.
pub open spec fn is_function_slot(s: Slot) -> bool {
    s matches Slot::Object(h) && h.obj() is Function
}

/// No name occurs twice in the list.
pub open spec fn unique_keys<V>(s: Seq<(String, V)>) -> bool {
    forall|i: int, j: int| 0 <= i < j < s.len() ==> s[i].0@ != s[j].0@
}

impl Class {
    #[verifier::type_invariant]
    spec fn inv(self) -> bool {
        &&& unique_keys(self.methods@)
        &&& forall|i: int| 0 <= i < self.methods@.len() ==> is_function_slot(#[trigger] self.methods@[i].1)
    }

    /// The class's name.
    pub closed spec fn name(&self) -> String {
        self.name
    }

    /// The class's methods by name.
    pub closed spec fn methods(&self) -> Seq<(String, Slot)> {
        self.methods@
    }

    /// The methods of a class are functions, each named once.
    pub fn methods_wf(&self)
        ensures
            unique_keys(self.methods()),
            forall|i: int| 0 <= i < self.methods().len() ==> is_function_slot(#[trigger] self.methods()[i].1),
    {
        proof {
            use_type_invariant(self);
        }
    }

    /// Makes a class from its name and methods.
    pub fn new(name: String, methods: Vec<(String, Slot)>) -> (r: Class)
        requires
            unique_keys(methods@),
            forall|i: int| 0 <= i < methods@.len() ==> is_function_slot(#[trigger] methods@[i].1),
        ensures
            r.name() == name,
            r.methods() == methods@,
    {
        Class { name, methods }
    }

    /// Returns the class's methods.
    pub fn get_methods(&self) -> (r: &Vec<(String, Slot)>)
        ensures
            r@ == self.methods(),
    {
        &self.methods
    }

    /// Returns the class's name.
    pub fn get_name(&self) -> (r: &String)
        ensures
            *r == self.name(),
    {
        &self.name
    }

    /// Returns the method of the given name, if the class has one.
    pub fn get_method(&self, method: &String) -> (r: Option<&Slot>)
        ensures
            match r {
                Some(s) => exists|i: int|
                    0 <= i < self.methods().len() && self.methods()[i].0@ == method@ && self.methods()[i].1 == *s,
                None => forall|i: int| 0 <= i < self.methods().len() ==> self.methods()[i].0@ != method@,
            },
    {
        let mut i: usize = 0;
        while i < self.methods.len()
            invariant
                i <= self.methods@.len(),
                forall|j: int| 0 <= j < i ==> self.methods@[j].0@ != method@,
            decreases self.methods@.len() - i,
        {
            if self.methods[i].0 == *method {
                assert(self.methods()[i as int].0@ == method@);
                return Some(&self.methods[i].1);
            }
            i = i + 1;
        }
        None
    }

    /// Takes the class apart into a workable class description, whose
    /// methods are the class's functions taken apart and whose property
    /// list is empty.
    pub fn unfreeze(self) -> (r: ClassMut)
        requires
            self.unfreezable(),
        ensures
            r.name == self.name(),
            r.properties@.len() == 0,
            r.methods@.len() == self.methods().len(),
            forall|i: int| 0 <= i < r.methods@.len() ==> {
                &&& #[trigger] r.methods@[i].0@ == self.methods()[i].0@
                &&& self.methods()[i].1 matches Slot::Object(h) && h.obj() matches Object::Function(f)
                    && r.methods@[i].1.unfrozen_from(f)
            },
    {
        proof {
            use_type_invariant(&self);
        }
        let Class { name, methods } = self;
        let mut out: Vec<(String, FunctionMut)> = Vec::new();
        let mut i: usize = 0;
        while i < methods.len()
            invariant
                i <= methods@.len(),
                out@.len() == i,
                forall|k: int| 0 <= k < methods@.len() ==> is_function_slot(#[trigger] methods@[k].1),
                forall|k: int| 0 <= k < methods@.len() ==> (#[trigger] methods@[k].1 matches Slot::Object(h)
                    && h.obj() matches Object::Function(f) && f.unfreezable()),
                forall|k: int| 0 <= k < i ==> {
                    &&& #[trigger] out@[k].0@ == methods@[k].0@
                    &&& methods@[k].1 matches Slot::Object(h) && h.obj() matches Object::Function(f)
                        && out@[k].1.unfrozen_from(f)
                },
            decreases methods@.len() - i,
        {
            let (key, slot) = (&methods[i].0, &methods[i].1);
            match slot {
                Slot::Object(h) => match h.get() {
                    Object::Function(f) => {
                        let fm = f.unfreeze_copy();
                        out.push((key.clone(), fm));
                    },
                    _ => {
                        assert(false);
                    },
                },
                _ => {
                    assert(false);
                },
            }
            i = i + 1;
        }
        ClassMut::new(name, Vec::new(), out)
    }

    /// The class's methods can all be taken apart.
    pub open spec fn unfreezable(&self) -> bool {
        forall|i: int| 0 <= i < self.methods().len() ==> (#[trigger] self.methods()[i].1 matches Slot::Object(h)
            && h.obj() matches Object::Function(f) && f.unfreezable())
    }
}

/// A class is a greater value than each of its methods, for termination.
pub broadcast proof fn lemma_class_decreases(c: Class, i: int)
    requires
        0 <= i < c.methods().len(),
    ensures
        #[trigger] decreases_to!(c => c.methods()[i].1),
{
    assert(decreases_to!(c.methods => c.methods@[i]));
}

/// An instance is a greater value than each of its properties, for
/// termination.
pub broadcast proof fn lemma_instance_decreases(ins: Instance, i: int)
    requires
        0 <= i < ins.properties().len(),
    ensures
        #[trigger] decreases_to!(ins => ins.properties()[i].1),
{
    assert(decreases_to!(ins.properties => ins.properties@[i]));
}

/// A function of the program: its arity, its code and its name.
#[derive(Debug)]
pub struct Function {
    pub arity: u8,
    pub chunk: Chunk,
    pub name: String,
}

impl Function {
    /// Makes a function.
    pub fn new(name: String, arity: u8, chunk: Chunk) -> (r: Function)
        ensures
            r.name == name,
            r.arity == arity,
            r.chunk == chunk,
    {
        Function { arity, chunk, name }
    }

    /// The function's constants can all be turned back into values.
    pub open spec fn unfreezable(&self) -> bool {
        self.chunk.unfreezable()
    }

    /// Takes the function apart into a workable function description, whose
    /// code is writable again and whose constants are values again.
    pub fn unfreeze(self) -> (r: FunctionMut)
        requires
            self.unfreezable(),
        ensures
            r.unfrozen_from(self),
    {
        self.unfreeze_copy()
    }

    /// As `unfreeze`, on a borrowed function.
    pub fn unfreeze_copy(&self) -> (r: FunctionMut)
        requires
            self.unfreezable(),
        ensures
            r.unfrozen_from(*self),
    {
        FunctionMut::new(self.name.clone(), self.arity, self.chunk.unfreeze_copy())
    }
}

/// An instance of a class: the class and the values of its properties.
#[derive(Debug)]
pub struct Instance {
    class: Handle<Object>,
    properties: Vec<(String, Slot)>,
}

impl Instance {
    #[verifier::type_invariant]
    spec fn inv(self) -> bool {
        &&& self.class.obj() is Class
        &&& unique_keys(self.properties@)
    }

    /// The instance's class.
    pub closed spec fn class(&self) -> Handle<Object> {
        self.class
    }

    /// The instance's properties by name.
    pub closed spec fn properties(&self) -> Seq<(String, Slot)> {
        self.properties@
    }

    /// The name of the instance's class.
    pub open spec fn class_name(&self) -> Seq<char> {
        match self.class().obj() {
            Object::Class(c) => c.name()@,
            _ => Seq::empty(),
        }
    }

    /// The class of an instance is a class, and no property occurs twice.
    pub fn instance_wf(&self)
        ensures
            self.class().obj() is Class,
            unique_keys(self.properties()),
    {
        proof {
            use_type_invariant(self);
        }
    }

    /// Makes an instance of the class with the given properties.
    pub fn new(class: Handle<Object>, properties: Vec<(String, Slot)>) -> (r: Instance)
        requires
            class.obj() is Class,
            unique_keys(properties@),
        ensures
            r.class() == class,
            r.properties() == properties@,
    {
        Instance { class, properties }
    }

    /// Returns the handle to the instance's class.
    pub fn get_class(&self) -> (r: &Handle<Object>)
        ensures
            *r == self.class(),
            r.obj() is Class,
    {
        proof {
            use_type_invariant(self);
        }
        &self.class
    }

    /// Returns the instance's properties.
    pub fn get_properties(&self) -> (r: &Vec<(String, Slot)>)
        ensures
            r@ == self.properties(),
    {
        &self.properties
    }

    /// Returns the name of the instance's class.
    pub fn get_class_name(&self) -> (r: String)
        ensures
            r@ == self.class_name(),
    {
        proof {
            use_type_invariant(self);
        }
        match self.class.get() {
            Object::Class(c) => c.get_name().clone(),
            _ => String::new(),
        }
    }

    /// Returns the value of the property of the given name, if the instance
    /// has one.
    pub fn get_property(&self, property: &String) -> (r: Option<&Slot>)
        ensures
            match r {
                Some(s) => exists|i: int|
                    0 <= i < self.properties().len() && self.properties()[i].0@ == property@
                        && self.properties()[i].1 == *s,
                None => forall|i: int| 0 <= i < self.properties().len() ==> self.properties()[i].0@ != property@,
            },
    {
        let mut i: usize = 0;
        while i < self.properties.len()
            invariant
                i <= self.properties@.len(),
                forall|j: int| 0 <= j < i ==> self.properties@[j].0@ != property@,
            decreases self.properties@.len() - i,
        {
            if self.properties[i].0 == *property {
                assert(self.properties()[i as int].0@ == property@);
                return Some(&self.properties[i].1);
            }
            i = i + 1;
        }
        None
    }
}

} // verus!
