//! The functions and classes that every machine knows without an import,
//! and the checks made before a builtin runs.

use crate::value::Value;
use vstd::prelude::*;

verus! {

/// The builtin functions.
#[derive(Debug, Clone, Copy, PartialEq, Eq, Structural)]
pub enum BuiltinFunction {
    /// No builtin.
    Undefined,
    /// Writes a value to the client's standard output.
    Print,
    /// Waits until a job has started.
    WaitUntilStarted,
    /// Waits until a job has finished.
    WaitUntilDone,
}

/// The byte that stands for a builtin.
pub open spec fn builtin_code(b: BuiltinFunction) -> u8 {
    match b {
        BuiltinFunction::Undefined => 0,
        BuiltinFunction::Print => 1,
        BuiltinFunction::WaitUntilStarted => 2,
        BuiltinFunction::WaitUntilDone => 3,
    }
}

/// The builtin that a byte stands for; `Undefined` for any other byte.
pub open spec fn builtin_from_code(c: u8) -> BuiltinFunction {
    if c == 1 {
        BuiltinFunction::Print
    } else if c == 2 {
        BuiltinFunction::WaitUntilStarted
    } else if c == 3 {
        BuiltinFunction::WaitUntilDone
    } else {
        BuiltinFunction::Undefined
    }
}

impl BuiltinFunction {
    /// Returns the byte that stands for the builtin.
    pub fn code(&self) -> (r: u8)
        ensures
            r == builtin_code(*self),
    {
        match self {
            BuiltinFunction::Undefined => 0,
            BuiltinFunction::Print => 1,
            BuiltinFunction::WaitUntilStarted => 2,
            BuiltinFunction::WaitUntilDone => 3,
        }
    }

    /// Returns the builtin that a byte stands for.
    pub fn from_code(value: u8) -> (r: BuiltinFunction)
        ensures
            r == builtin_from_code(value),
    {
        match value {
            1 => BuiltinFunction::Print,
            2 => BuiltinFunction::WaitUntilStarted,
            3 => BuiltinFunction::WaitUntilDone,
            _ => BuiltinFunction::Undefined,
        }
    }

    /// Returns the name under which a program calls the builtin, or `None`
    /// if it is not called by name.
    pub fn signature(&self) -> (r: Option<&'static str>)
        ensures
            *self == BuiltinFunction::Print ==> r is Some && r->0@ == "print"@,
            *self != BuiltinFunction::Print ==> r is None,
    {
        match self {
            BuiltinFunction::Print => Some("print"),
            _ => None,
        }
    }
}

/// The builtin classes.
#[derive(Debug, Clone, Copy, PartialEq, Eq, Structural)]
pub enum BuiltinClass {
    /// A job that runs alongside the program.
    Service,
}

impl BuiltinClass {
    /// Returns the class's name.
    pub fn name(&self) -> (r: String)
        ensures
            r@ == "Service"@,
    {
        String::from_str("Service")
    }
}

/// The states a job can be waited for.
#[derive(Debug, Clone, Copy, PartialEq, Eq, Structural)]
pub enum ServiceState {
    Created,
    Started,
    Done,
}

/// The errors of a builtin call.
#[derive(Debug)]
pub enum BuiltinError {
    /// The builtin is not known.
    UnknownOpcode { opcode: u8 },
    /// The argument is not a struct with an `identifier` property.
    InvalidInstanceError { builtin: BuiltinFunction },
    /// Too few arguments were given.
    NotEnoughArgumentsError { builtin: BuiltinFunction, expected: usize, got: usize },
    /// Too many arguments were given.
    TooManyArgumentsError { builtin: BuiltinFunction, expected: usize, got: usize },
}

/// What a builtin call asks of the executor.
#[derive(Debug)]
pub enum BuiltinRequest {
    /// Write the value's text to the client's standard output.
    Print { value: Value },
    /// Wait until the job named by the value reaches the state.
    WaitUntil { identifier: Value, state: ServiceState },
}

/// Takes the value of the property named `identifier` out of a list.
fn take_identifier(props: Vec<(String, Value)>) -> (r: Option<Value>)
    ensures
        r is Some <==> exists|i: int| 0 <= i < props@.len() && props@[i].0@ == "identifier"@,
        r is Some ==> exists|i: int|
            0 <= i < props@.len() && props@[i].0@ == "identifier"@ && r->0 == props@[i].1
                && forall|j: int| 0 <= j < i ==> props@[j].0@ != "identifier"@,
{
    let ghost orig = props@;
    let key = String::from_str("identifier");
    let mut props = props;
    // Walk the list from the end, so the first match is the last one seen.
    let mut found: Option<Value> = None;
    let ghost mut found_at: int = -1;
    while props.len() > 0
        invariant
            props@ == orig.subrange(0, props@.len() as int),
            props@.len() <= orig.len(),
            key@ == "identifier"@,
            found is None ==> forall|j: int| props@.len() <= j < orig.len() ==> orig[j].0@ != key@,
            found is Some ==> props@.len() <= found_at < orig.len() && orig[found_at].0@ == key@
                && found->0 == orig[found_at].1
                && forall|j: int| props@.len() <= j < found_at ==> orig[j].0@ != key@,
        decreases props@.len(),
    {
        let (name, value) = props.pop().unwrap();
        if name == key {
            found = Some(value);
            proof {
                found_at = props@.len() as int;
            }
        }
    }
    proof {
        if found is Some {
            assert(forall|j: int| 0 <= j < found_at ==> orig[j].0@ != "identifier"@);
        }
    }
    found
}

/// What checking a builtin call's arguments gives: the request for the
/// executor, or the error.
pub open spec fn builtin_prepared(builtin: BuiltinFunction, arguments: Seq<Value>, r: Result<BuiltinRequest, BuiltinError>) -> bool {
    if builtin == BuiltinFunction::Undefined {
        r == Err::<BuiltinRequest, BuiltinError>(BuiltinError::UnknownOpcode { opcode: 0 })
    } else if arguments.len() == 0 {
        r == Err::<BuiltinRequest, BuiltinError>(BuiltinError::NotEnoughArgumentsError { builtin, expected: 1, got: 0 })
    } else if arguments.len() > 1 {
        r == Err::<BuiltinRequest, BuiltinError>(
            BuiltinError::TooManyArgumentsError { builtin, expected: 1, got: arguments.len() as usize },
        )
    } else if builtin == BuiltinFunction::Print {
        r == Ok::<BuiltinRequest, BuiltinError>(BuiltinRequest::Print { value: arguments[0] })
    } else {
        match arguments[0] {
            Value::Struct { properties, .. } => match r {
                Ok(BuiltinRequest::WaitUntil { identifier, state }) => {
                    &&& state == (if builtin == BuiltinFunction::WaitUntilStarted {
                        ServiceState::Started
                    } else {
                        ServiceState::Done
                    })
                    &&& exists|i: int|
                        0 <= i < properties@.len() && properties@[i].0@ == "identifier"@ && identifier == properties@[i].1
                            && forall|j: int| 0 <= j < i ==> properties@[j].0@ != "identifier"@
                },
                Err(BuiltinError::InvalidInstanceError { builtin: b }) => b == builtin
                    && forall|i: int| 0 <= i < properties@.len() ==> properties@[i].0@ != "identifier"@,
                _ => false,
            },
            _ => r == Err::<BuiltinRequest, BuiltinError>(BuiltinError::InvalidInstanceError { builtin }),
        }
    }
}

/// Checks the arguments of a builtin call and returns what the executor must
/// do to perform it.
///
/// `Print` takes one value; `WaitUntilStarted` and `WaitUntilDone` take one
/// struct with an `identifier` property, the job to wait for.
pub fn prepare_call(builtin: BuiltinFunction, arguments: Vec<Value>) -> (r: Result<BuiltinRequest, BuiltinError>)
    ensures
        builtin_prepared(builtin, arguments@, r),
{
    if let BuiltinFunction::Undefined = builtin {
        return Err(BuiltinError::UnknownOpcode { opcode: 0 });
    }
    if arguments.len() < 1 {
        return Err(BuiltinError::NotEnoughArgumentsError { builtin, expected: 1, got: 0 });
    } else if arguments.len() > 1 {
        return Err(BuiltinError::TooManyArgumentsError { builtin, expected: 1, got: arguments.len() });
    }
    let mut arguments = arguments;
    let value = arguments.pop().unwrap();
    match builtin {
        BuiltinFunction::Print => Ok(BuiltinRequest::Print { value }),
        _ => {
            let state = if let BuiltinFunction::WaitUntilStarted = builtin {
                ServiceState::Started
            } else {
                ServiceState::Done
            };
            match value {
                Value::Struct { properties, .. } => {
                    match take_identifier(properties) {
                        Some(identifier) => Ok(BuiltinRequest::WaitUntil { identifier, state }),
                        None => Err(BuiltinError::InvalidInstanceError { builtin }),
                    }
                },
                _ => Err(BuiltinError::InvalidInstanceError { builtin }),
            }
        },
    }
}

} // verus!
