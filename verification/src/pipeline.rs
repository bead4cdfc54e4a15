//! Compute shaders: HLSL compiled to validated DXIL bytecode.

use vstd::prelude::*;

use crate::error::Error;

verus! {

/// A compiled, validated shader: its DXIL bytecode.
pub struct Shader {
    data: Vec<u8>,
}

impl View for Shader {
    type V = Seq<u8>;

    closed spec fn view(&self) -> Seq<u8> {
        self.data@
    }
}

/// Free of the NUL character: what a string handed to the compiler as a
/// name must satisfy.
pub open spec fn no_nul(s: Seq<char>) -> bool {
    forall|i: int| 0 <= i < s.len() ==> s[i] != '\0'
}

/// Relies on hassle_rs::compile_hlsl: compiles HLSL source text with the
/// platform's DXC library. The bytecode depends on the installed compiler,
/// so nothing is stated of it. The binding turns the name, entry point and
/// target strings into wide C strings and panics on an interior NUL
/// character, so those inputs are excluded; the source text is handed
/// over length-delimited and needs no such bound.
#[verifier::external_body]
fn compile_hlsl(name: &str, source: &str, entry_point: &str, target: &str) -> (r: Result<
    Vec<u8>,
    String,
>)
    requires
        no_nul(name@),
        no_nul(entry_point@),
        no_nul(target@),
{
    match hassle_rs::compile_hlsl(name, source, entry_point, target, &["/Zi"], &[]) {
        Ok(data) => Ok(data),
        Err(err) => Err(err.to_string()),
    }
}

/// Relies on hassle_rs::validate_dxil: hands bytecode to the platform's
/// DXIL validator and returns the signed blob it produces.
#[verifier::external_body]
fn validate_dxil(data: &Vec<u8>) -> (r: Result<Vec<u8>, String>) {
    match hassle_rs::validate_dxil(data) {
        Ok(data) => Ok(data),
        Err(err) => Err(err.to_string()),
    }
}

impl Shader {
    /// Wraps bytecode as a shader, unchanged.
    pub fn from_bytecode(data: Vec<u8>) -> (s: Self)
        ensures
            s@ == data@,
    {
        Shader { data }
    }

    /// Compiles and validates HLSL source. Every failure of the compiler
    /// or the validator comes back as a shader error carrying its text.
    /// The name, entry point and target must hold no NUL character: the
    /// compiler binding does not take one.
    pub fn new(name: &str, source: &str, entry_point: &str, target: &str) -> (r: Result<
        Self,
        Error,
    >)
        requires
            no_nul(name@),
            no_nul(entry_point@),
            no_nul(target@),
        ensures
            r matches Err(e) ==> e is Shader,
    {
        match compile_hlsl(name, source, entry_point, target) {
            Ok(data) => match validate_dxil(&data) {
                Ok(data) => Ok(Shader::from_bytecode(data)),
                Err(cause) => Err(Error::Shader { cause }),
            },
            Err(cause) => Err(Error::Shader { cause }),
        }
    }

    /// The shader's bytecode.
    pub fn bytecode(&self) -> (r: &Vec<u8>)
        ensures
            r@ == self@,
    {
        &self.data
    }
}

} // verus!
