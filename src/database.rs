//! The checks on a declaration that is to hold a database connection: a
//! tuple struct of at least one field, without generic parameters.

use vstd::prelude::*;
use crate::shape::{field_count, Body, Decl, Fields, Loc};

verus! {

/// Why a declaration cannot hold a database connection.
#[derive(Debug, Clone, Copy, PartialEq, Eq)]
pub enum DatabaseError {
    /// It has generic parameters; at the first of them.
    Generics(Loc),
    /// It is not a struct.
    NotStruct(Loc),
    /// Its fields are named.
    NotTupleStruct(Loc),
    /// It has no field.
    NoFields,
}

/// The rejection of a declaration, if it is rejected; generics first, then
/// the kind of the body, then its fields.
pub open spec fn database_error(d: Decl) -> Option<DatabaseError> {
    if d.generics@.len() > 0 {
        Some(DatabaseError::Generics(d.generics@[0].loc))
    } else {
        match d.body {
            Body::Enum(_) => Some(DatabaseError::NotStruct(d.loc)),
            Body::Struct(fields) => if fields is Named {
                Some(DatabaseError::NotTupleStruct(d.loc))
            } else if field_count(fields) == 0 {
                Some(DatabaseError::NoFields)
            } else {
                None
            },
        }
    }
}

/// The human-readable text of a database rejection.
pub open spec fn database_message_of(e: DatabaseError) -> Seq<char> {
    match e {
        DatabaseError::Generics(_) => "`database` attribute cannot be applied to structs with generic types"@,
        DatabaseError::NotStruct(_) => "`database` attribute can only be applied to structs"@,
        DatabaseError::NotTupleStruct(_) => "`database` attribute can only be applied to tuple structs"@,
        DatabaseError::NoFields => "`database` attribute cannot be applied to unit structs"@,
    }
}

impl DatabaseError {
    /// The human-readable text of the rejection.
    pub fn message(&self) -> (r: &'static str)
        ensures
            r@ == database_message_of(*self),
    {
        match self {
            DatabaseError::Generics(_) => "`database` attribute cannot be applied to structs with generic types",
            DatabaseError::NotStruct(_) => "`database` attribute can only be applied to structs",
            DatabaseError::NotTupleStruct(_) => "`database` attribute can only be applied to tuple structs",
            DatabaseError::NoFields => "`database` attribute cannot be applied to unit structs",
        }
    }
}

/// Accepts a tuple struct with fields and no generics, giving its number of
/// fields, or rejects the declaration.
pub fn validate_database_input(decl: &Decl) -> (r: Result<usize, DatabaseError>)
    ensures
        r is Err <==> database_error(*decl) is Some,
        r matches Err(e) ==> database_error(*decl) == Some(e),
        r matches Ok(n) ==> decl.body matches Body::Struct(fields) && n == field_count(fields),
{
    if decl.generics.len() > 0 {
        return Err(DatabaseError::Generics(decl.generics[0].loc));
    }
    let fields = match &decl.body {
        Body::Struct(fields) => fields,
        Body::Enum(_) => {
            return Err(DatabaseError::NotStruct(decl.loc));
        },
    };
    if let Fields::Named(_) = fields {
        return Err(DatabaseError::NotTupleStruct(decl.loc));
    }
    if fields.is_empty() {
        return Err(DatabaseError::NoFields);
    }
    Ok(fields.len())
}

} // verus!
