//! The Swift bindings generator's code types.
//!
//! Each interface type gets a code type that names it in generated Swift:
//! the label it is declared under, a canonical name unique across the
//! component, and the rendering of literal default values. The naming
//! policy keeps identifiers as the interface wrote them.

use vstd::prelude::*;
use vstd::string::StringExecFns;

use crate::interface::Literal;

verus! {

/// Why a literal could not be rendered for a code type.
#[derive(Debug, Clone, Copy, PartialEq, Eq, Structural)]
pub enum LiteralError {
    /// The literal's kind does not belong to this code type.
    InvalidLiteral,
}

/// The code type of an enum of the component's interface.
#[derive(Debug, PartialEq)]
pub struct EnumCodeType {
    pub id: String,
}

impl EnumCodeType {
    /// The code type for the enum named `id`.
    pub fn new(id: String) -> (r: Self)
        ensures
            r.id == id,
    {
        Self { id }
    }

    /// The Swift type label the enum is declared under.
    pub fn type_label(&self) -> (r: String)
        ensures
            r@ == self.id@,
    {
        self.id.clone()
    }

    /// The component-wide canonical name of the enum's type.
    pub fn canonical_name(&self) -> (r: String)
        ensures
            r@ == "Type"@ + self.id@,
    {
        let mut s = String::from_str("Type");
        s.append(self.id.as_str());
        assert(s@ =~= "Type"@ + self.id@);
        s
    }

    /// Renders a literal default value of this enum: `.variant` for an
    /// enum literal, an error for any other kind.
    pub fn literal(&self, literal: &Literal) -> (r: Result<String, LiteralError>)
        ensures
            match *literal {
                Literal::Enum(variant, _) => r matches Ok(s) && s@ == "."@ + variant@,
                _ => r == Err::<String, LiteralError>(LiteralError::InvalidLiteral),
            },
    {
        match literal {
            Literal::Enum(variant, _) => {
                let mut s = String::from_str(".");
                s.append(variant.as_str());
                assert(s@ =~= "."@ + variant@);
                Ok(s)
            },
            _ => Err(LiteralError::InvalidLiteral),
        }
    }
}

} // verus!
