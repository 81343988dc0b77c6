//! The values that programs, packages and jobs exchange with the virtual
//! machine, and the descriptions of functions, classes and packages.
//!
//! A real number is held as the bit pattern of its IEEE-754 binary64
//! encoding, so that it can be stored, compared for identity and carried
//! through the machine; arithmetic on it happens outside the library.

use vstd::prelude::*;

verus! {

/// A parameter of an external function.
#[derive(Debug, Clone)]
pub struct Parameter {
    pub name: String,
    pub data_type: String,
}

/// A function of a package, to be run as a job.
#[derive(Debug, Clone)]
pub struct FunctionExt {
    pub name: String,
    pub detached: bool,
    pub digest: String,
    pub package: String,
    pub kind: String,
    pub version: String,
    pub parameters: Vec<Parameter>,
}

/// Compiled code together with its constants.
#[derive(Debug)]
pub struct Bytecode {
    pub code: Vec<u8>,
    pub constants: Vec<Value>,
}

/// A compiled function in its portable form.
#[derive(Debug)]
pub struct SpecFunction {
    pub arity: u8,
    pub name: String,
    pub bytecode: Bytecode,
}

/// A class in its portable form: its properties (name and type) and methods.
#[derive(Debug)]
pub struct SpecClass {
    pub name: String,
    pub properties: Vec<(String, String)>,
    pub methods: Vec<(String, SpecFunction)>,
}

/// A value.
#[derive(Debug)]
pub enum Value {
    Array { data_type: String, entries: Vec<Value> },
    Boolean(bool),
    Integer(i64),
    /// The IEEE-754 binary64 bit pattern of a real number.
    Real(u64),
    Struct { data_type: String, properties: Vec<(String, Value)> },
    Unicode(String),
    Unit,
    Class(SpecClass),
    Function(SpecFunction),
    FunctionExt(FunctionExt),
}

/// The name of a value's type.
pub open spec fn value_type(v: Value) -> Seq<char> {
    match v {
        Value::Array { data_type, .. } => data_type@,
        Value::Boolean(_) => "boolean"@,
        Value::Integer(_) => "integer"@,
        Value::Real(_) => "real"@,
        Value::Struct { data_type, .. } => data_type@,
        Value::Unicode(_) => "string"@,
        Value::Unit => "unit"@,
        Value::Class(_) => "Class"@,
        Value::Function(_) => "Function"@,
        Value::FunctionExt(_) => "FunctionExt"@,
    }
}

impl Value {
    /// Returns the name of the value's type.
    pub fn data_type(&self) -> (r: String)
        ensures
            r@ == value_type(*self),
    {
        match self {
            Value::Array { data_type, .. } => data_type.clone(),
            Value::Boolean(_) => String::from_str("boolean"),
            Value::Integer(_) => String::from_str("integer"),
            Value::Real(_) => String::from_str("real"),
            Value::Struct { data_type, .. } => data_type.clone(),
            Value::Unicode(_) => String::from_str("string"),
            Value::Unit => String::from_str("unit"),
            Value::Class(_) => String::from_str("Class"),
            Value::Function(_) => String::from_str("Function"),
            Value::FunctionExt(_) => String::from_str("FunctionExt"),
        }
    }
}

} // verus!
