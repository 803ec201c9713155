use vstd::prelude::*;
use crate::model::SignatureToken;
use crate::text::{decimal, decimal_text};

verus! {

/// The tag that a type descriptor is rendered as. Struct handles and type
/// parameters are shown by their raw index.
pub open spec fn token_text(t: SignatureToken) -> Seq<char>
    decreases t,
{
    match t {
        SignatureToken::Bool => "Bool"@,
        SignatureToken::U8 => "U8"@,
        SignatureToken::U64 => "U64"@,
        SignatureToken::U128 => "U128"@,
        SignatureToken::Address => "Address"@,
        SignatureToken::Signer => "Signer"@,
        SignatureToken::Vector(inner) => "Vector("@ + token_text(*inner) + ")"@,
        SignatureToken::Struct(i) => "Struct("@ + decimal_text(i as nat) + ")"@,
        SignatureToken::StructInstantiation(i, args) => "StructInstantiation("@ + decimal_text(
            i as nat,
        ) + ", ["@ + tokens_text(args@) + "])"@,
        SignatureToken::Reference(inner) => "Reference("@ + token_text(*inner) + ")"@,
        SignatureToken::MutableReference(inner) => "MutableReference("@ + token_text(*inner)
            + ")"@,
        SignatureToken::TypeParameter(i) => "TypeParameter("@ + decimal_text(i as nat) + ")"@,
    }
}

/// The tags of `ts`, separated by `", "`.
pub open spec fn tokens_text(ts: Seq<SignatureToken>) -> Seq<char>
    decreases ts,
{
    if ts.len() == 0 {
        Seq::empty()
    } else if ts.len() == 1 {
        token_text(ts[0])
    } else {
        tokens_text(ts.subrange(0, ts.len() - 1)) + ", "@ + token_text(ts[ts.len() - 1])
    }
}

/// Renders a type descriptor as its tag.
pub fn format_signature_token(token: &SignatureToken) -> (r: String)
    ensures
        r@ == token_text(*token),
    decreases token,
{
    match token {
        SignatureToken::Bool => String::from_str("Bool"),
        SignatureToken::U8 => String::from_str("U8"),
        SignatureToken::U64 => String::from_str("U64"),
        SignatureToken::U128 => String::from_str("U128"),
        SignatureToken::Address => String::from_str("Address"),
        SignatureToken::Signer => String::from_str("Signer"),
        SignatureToken::Vector(inner) => {
            let mut s = String::from_str("Vector(");
            let t = format_signature_token(&**inner);
            s.append(t.as_str());
            s.append(")");
            s
        },
        SignatureToken::Struct(i) => {
            let mut s = String::from_str("Struct(");
            let d = decimal(*i);
            s.append(d.as_str());
            s.append(")");
            s
        },
        SignatureToken::StructInstantiation(i, args) => {
            let mut s = String::from_str("StructInstantiation(");
            let d = decimal(*i);
            s.append(d.as_str());
            s.append(", [");
            let mut k: usize = 0;
            while k < args.len()
                invariant
                    k <= args.len(),
                    (*token) is StructInstantiation,
                    *args == (*token)->StructInstantiation_1,
                    s@ == "StructInstantiation("@ + decimal_text(*i as nat) + ", ["@ + tokens_text(
                        args@.subrange(0, k as int),
                    ),
                decreases args.len() - k,
            {
                proof {
                    assert(decreases_to!(*token => (*token)->StructInstantiation_1));
                    assert(decreases_to!(*args => args@));
                    assert(decreases_to!(args@ => args@[k as int]));
                }
                let t = format_signature_token(&args[k]);
                if k > 0 {
                    s.append(", ");
                }
                s.append(t.as_str());
                proof {
                    let next = args@.subrange(0, k + 1);
                    assert(next.subrange(0, next.len() - 1) =~= args@.subrange(0, k as int));
                    assert(next[next.len() - 1] == args@[k as int]);
                    if k == 0 {
                        assert(next.len() == 1);
                    }
                }
                k = k + 1;
            }
            assert(args@.subrange(0, args.len() as int) =~= args@);
            s.append("])");
            s
        },
        SignatureToken::Reference(inner) => {
            let mut s = String::from_str("Reference(");
            let t = format_signature_token(&**inner);
            s.append(t.as_str());
            s.append(")");
            s
        },
        SignatureToken::MutableReference(inner) => {
            let mut s = String::from_str("MutableReference(");
            let t = format_signature_token(&**inner);
            s.append(t.as_str());
            s.append(")");
            s
        },
        SignatureToken::TypeParameter(i) => {
            let mut s = String::from_str("TypeParameter(");
            let d = decimal(*i);
            s.append(d.as_str());
            s.append(")");
            s
        },
    }
}

} // verus!
