//! SPIR-V bytecode buffers: a whole number of 32-bit words.

use vstd::prelude::*;
use vstd::string::StringExecFns;
use crate::version::{decimal, decimal_string};

verus! {

/// Why a bytecode buffer could not be made.
#[derive(Clone, Debug, PartialEq, Eq, Structural)]
pub enum BytecodeError {
    /// The buffer could not be allocated.
    Alloc,
    /// The byte length is zero or not a multiple of four.
    Length(usize),
}

impl BytecodeError {
    /// A sentence that describes this error.
    pub fn to_string(&self) -> (r: String)
        ensures
            self is Alloc ==> r@ == "failed to allocate SPIR-V bytecode buffer"@,
            self matches BytecodeError::Length(n) ==> r@ == "invalid SPIR-V bytecode buffer length ("@ + decimal(
                n as nat,
            ) + ")"@,
    {
        match self {
            BytecodeError::Alloc => String::from_str("failed to allocate SPIR-V bytecode buffer"),
            BytecodeError::Length(n) => {
                let mut s = String::from_str("invalid SPIR-V bytecode buffer length (");
                let d = decimal_string(*n as u64);
                s.append(d.as_str());
                s.append(")");
                s
            },
        }
    }
}

/// The 32-bit word at byte offset `at`, least significant byte first.
pub open spec fn word_at(bytes: Seq<u8>, at: int) -> u32 {
    (bytes[at] as u32) | ((bytes[at + 1] as u32) << 8u32) | ((bytes[at + 2] as u32) << 16u32) | ((
    bytes[at + 3] as u32) << 24u32)
}

/// A non-empty buffer of whole 32-bit words.
#[derive(Debug)]
pub struct Bytecode {
    bytes: Vec<u8>,
}

impl Bytecode {
    #[verifier::type_invariant]
    spec fn inv(&self) -> bool {
        self.bytes@.len() > 0 && self.bytes@.len() % 4 == 0
    }

    pub closed spec fn view(&self) -> Seq<u8> {
        self.bytes@
    }

    /// Copies `bytecode` into a new buffer; its length must be a non-zero
    /// multiple of four.
    pub fn new(bytecode: &[u8]) -> (r: Result<Self, BytecodeError>)
        ensures
            bytecode@.len() == 0 || bytecode@.len() % 4 != 0 ==> r == Err::<Self, BytecodeError>(
                BytecodeError::Length(bytecode@.len() as usize),
            ),
            bytecode@.len() > 0 && bytecode@.len() % 4 == 0 ==> (r matches Ok(b) && b.view() == bytecode@),
    {
        if bytecode.len() == 0 || bytecode.len() % 4 != 0 {
            return Err(BytecodeError::Length(bytecode.len()));
        }
        Ok(Bytecode { bytes: vstd::slice::slice_to_vec(bytecode) })
    }

    /// The length of the buffer in bytes.
    pub fn code_size(&self) -> (r: usize)
        ensures
            r == self.view().len(),
            r > 0 && r % 4 == 0,
    {
        proof {
            use_type_invariant(self);
        }
        self.bytes.len()
    }

    /// The buffer as 32-bit words.
    pub fn code(&self) -> (r: Vec<u32>)
        ensures
            r@.len() * 4 == self.view().len(),
            forall|i: int| 0 <= i < r@.len() ==> #[trigger] r@[i] == word_at(self.view(), 4 * i),
    {
        proof {
            use_type_invariant(self);
        }
        let len = self.bytes.len();
        let n = len / 4;
        let mut out: Vec<u32> = Vec::new();
        let mut i: usize = 0;
        while i < n
            invariant
                n * 4 == self.bytes@.len(),
                n * 4 == len,
                i <= n,
                out@.len() == i,
                forall|j: int| 0 <= j < i ==> #[trigger] out@[j] == word_at(self.bytes@, 4 * j),
            decreases n - i,
        {
            assert(4 * i + 3 < n * 4) by (nonlinear_arith)
                requires
                    i < n,
            ;
            let at = 4 * i;
            let w = (self.bytes[at] as u32) | ((self.bytes[at + 1] as u32) << 8u32) | ((self.bytes[at + 2] as u32) << 16u32)
                | ((self.bytes[at + 3] as u32) << 24u32);
            out.push(w);
            i += 1;
        }
        out
    }
}

} // verus!
