//! Wire-level type descriptors and the signature builder.
//!
//! The host runtime's member-lookup API identifies a method by its
//! descriptor string: each argument's type descriptor in declaration
//! order, wrapped in parentheses, followed by the return type's
//! descriptor. Rendering is a pure, total function of the types.

use vstd::prelude::*;
use vstd::string::StringExecFns;

verus! {

/// One type descriptor of the host runtime's grammar: a single letter
/// for each primitive type, `L<binary/name>;` for an object type, and a
/// `[` prefix for each array dimension.
pub enum Signature {
    Boolean,
    Byte,
    Char,
    Short,
    Int,
    Long,
    Float,
    Double,
    Void,
    Object(String),
    Array(Box<Signature>),
}

impl Signature {
    /// The descriptor text of this type, as a sequence of characters.
    pub open spec fn chars(self) -> Seq<char>
        decreases self,
    {
        match self {
            Signature::Boolean => "Z"@,
            Signature::Byte => "B"@,
            Signature::Char => "C"@,
            Signature::Short => "S"@,
            Signature::Int => "I"@,
            Signature::Long => "J"@,
            Signature::Float => "F"@,
            Signature::Double => "D"@,
            Signature::Void => "V"@,
            Signature::Object(name) => "L"@ + name@ + ";"@,
            Signature::Array(inner) => "["@ + inner.chars(),
        }
    }

    /// Render this type's descriptor.
    pub fn render(&self) -> (r: String)
        ensures
            r@ == self.chars(),
        decreases self,
    {
        match self {
            Signature::Boolean => String::from_str("Z"),
            Signature::Byte => String::from_str("B"),
            Signature::Char => String::from_str("C"),
            Signature::Short => String::from_str("S"),
            Signature::Int => String::from_str("I"),
            Signature::Long => String::from_str("J"),
            Signature::Float => String::from_str("F"),
            Signature::Double => String::from_str("D"),
            Signature::Void => String::from_str("V"),
            Signature::Object(name) => {
                let mut out = String::from_str("L");
                out.append(name.as_str());
                out.append(";");
                out
            },
            Signature::Array(inner) => {
                let mut out = String::from_str("[");
                let rest = inner.render();
                out.append(rest.as_str());
                out
            },
        }
    }
}

/// The concatenation of the descriptors of a sequence of types, in order.
pub open spec fn args_chars(args: Seq<Signature>) -> Seq<char>
    decreases args.len(),
{
    if args.len() == 0 {
        Seq::empty()
    } else {
        args_chars(args.drop_last()) + args.last().chars()
    }
}

/// The full descriptor of a method: `(` each argument's descriptor in
/// declaration order `)` then the return type's descriptor.
pub open spec fn method_descriptor(args: Seq<Signature>, ret: Signature) -> Seq<char> {
    "("@ + args_chars(args) + ")"@ + ret.chars()
}

/// Render the descriptor string of a method with the given argument
/// types and return type.
pub fn method_signature_of(args: &[Signature], ret: &Signature) -> (r: String)
    ensures
        r@ == method_descriptor(args@, *ret),
{
    let mut out = String::from_str("(");
    let mut i: usize = 0;
    while i < args.len()
        invariant
            0 <= i <= args@.len(),
            out@ == "("@ + args_chars(args@.subrange(0, i as int)),
        decreases args@.len() - i,
    {
        let rendered = args[i].render();
        out.append(rendered.as_str());
        proof {
            assert(args@.subrange(0, i + 1).drop_last() =~= args@.subrange(0, i as int));
            assert(args@.subrange(0, i + 1).last() == args@[i as int]);
        }
        i += 1;
    }
    proof {
        assert(args@.subrange(0, args@.len() as int) =~= args@);
    }
    out.append(")");
    let rendered_ret = ret.render();
    out.append(rendered_ret.as_str());
    out
}

} // verus!
