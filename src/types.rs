use vstd::prelude::*;

verus! {

/// The static types of the language.
#[derive(PartialEq, Debug)]
pub enum Type {
    /// `int`
    Int,
    /// `float`
    Float,
    /// `char`
    Char,
    /// `bool`
    Bool,
    /// `string`
    String,
    /// `vector<T>`
    Vector(Box<Type>),
    /// `(t1, t2, ...) -> t`
    Function(Vec<Box<Type>>, Box<Type>),
    /// `int*`
    Pointer(Box<Type>),
    /// `int&`
    Reference(Box<Type>),
}

} // verus!
