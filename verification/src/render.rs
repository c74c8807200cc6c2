//! Definitions: a type entry written as a declaration in the manner of
//! source code.
//!
//! A definition names other entries, which it finds by offset. Where a name
//! that it needs does not resolve there is no definition, and the offset
//! of the first such name, in the order of writing, is reported.

use vstd::prelude::*;
use crate::goff::Goff;
use crate::model::{
    CEnum, Encoding, Enum, Enumerator, Member, Struct, Subroutine, TemplateTypeParameter, Type,
    Variant, VariantMap, VariantShape,
};
use crate::num::{dec_text, format_dec, format_hex, hex_text};
use crate::ordered::OrderedMap;
use crate::snapshot::{Snapshot, SnapshotView};
use crate::text::{
    concat, concat_all, followed_by, lemma_concat_all_prefix, lemma_concat_all_step,
    lemma_concat_step,
};

verus! {

/// A definition needs the name of the entry under `goff`, and there is
/// none. Where several names are missing, this is the first that the
/// definition would have written.
#[derive(Clone, Copy, Debug)]
pub struct Unresolved {
    pub goff: Goff,
}

/// The name of an encoding.
pub open spec fn encoding_name(encoding: Encoding) -> Seq<char> {
    match encoding {
        Encoding::Unsigned => "Unsigned"@,
        Encoding::Signed => "Signed"@,
        Encoding::Float => "Float"@,
        Encoding::Boolean => "Boolean"@,
        Encoding::UnsignedChar => "UnsignedChar"@,
        Encoding::SignedChar => "SignedChar"@,
        Encoding::Other => "Other"@,
    }
}

/// What stands for a base type that the table of primitives does not hold.
pub open spec fn unhandled_name(encoding: Encoding, size: u64) -> Seq<char> {
    "Unhandled"@ + encoding_name(encoding) + dec_text(size as nat)
}

/// The primitive that a base type of the given encoding and size in bytes
/// is. A size of zero is the unit type whatever the encoding.
pub open spec fn primitive_name(encoding: Encoding, size: u64) -> Seq<char> {
    if size == 0 {
        "()"@
    } else {
        match encoding {
            Encoding::Unsigned => if size == 1 {
                "u8"@
            } else if size == 2 {
                "u16"@
            } else if size == 4 {
                "u32"@
            } else if size == 8 {
                "u64"@
            } else if size == 16 {
                "u128"@
            } else {
                unhandled_name(encoding, size)
            },
            Encoding::Signed => if size == 1 {
                "i8"@
            } else if size == 2 {
                "i16"@
            } else if size == 4 {
                "i32"@
            } else if size == 8 {
                "i64"@
            } else if size == 16 {
                "i128"@
            } else {
                unhandled_name(encoding, size)
            },
            Encoding::Float => if size == 4 {
                "f32"@
            } else if size == 8 {
                "f64"@
            } else {
                unhandled_name(encoding, size)
            },
            Encoding::Boolean => if size == 1 {
                "bool"@
            } else {
                unhandled_name(encoding, size)
            },
            Encoding::UnsignedChar => if size == 4 {
                "char"@
            } else if size == 1 {
                "c_uchar"@
            } else {
                unhandled_name(encoding, size)
            },
            Encoding::SignedChar => if size == 1 {
                "c_schar"@
            } else {
                unhandled_name(encoding, size)
            },
            Encoding::Other => unhandled_name(encoding, size),
        }
    }
}

/// The label of a member: its name, or `ANON` where it has none.
pub open spec fn member_label(m: Member) -> Seq<char> {
    match m.name {
        Some(n) => n@,
        None => "ANON"@,
    }
}

/// A text that needs the names of entries: the text, or the offset of the
/// first entry, in the order of writing, whose name is needed and which has
/// none.
pub type Rendered = Result<Seq<char>, Goff>;

/// The name of the entry under `goff`, which a text needs.
pub open spec fn needed_name(view: SnapshotView, goff: Goff) -> Rendered {
    match view.name_from_goff(goff) {
        Some(name) => Ok(name),
        None => Err(goff),
    }
}

/// `head`, `body` and `tail` in a row, where there is a body.
pub open spec fn wrap(head: Seq<char>, body: Rendered, tail: Seq<char>) -> Rendered {
    match body {
        Ok(b) => Ok(head + b + tail),
        Err(goff) => Err(goff),
    }
}

/// The line of one member in a list of members: the indent, the member's
/// label and a colon where the list is labelled, the name of the member's
/// type, a comma.
pub open spec fn member_line(
    view: SnapshotView,
    m: Member,
    indent: Seq<char>,
    labelled: bool,
) -> Rendered {
    let label = if labelled {
        member_label(m) + ": "@
    } else {
        Seq::empty()
    };
    wrap(indent + label, needed_name(view, m.ty_goff), ",\n"@)
}

/// The lines of the members, in the order of their offsets.
pub open spec fn member_lines(
    view: SnapshotView,
    members: Seq<(u64, Member)>,
    indent: Seq<char>,
    labelled: bool,
) -> Rendered {
    concat_all(Seq::new(members.len(), |i: int| member_line(view, members[i].1, indent, labelled)))
}

/// The type parameters in angle brackets, each followed by `sep`; nothing
/// where there are none.
pub open spec fn params_text(params: Seq<TemplateTypeParameter>, sep: Seq<char>) -> Seq<char> {
    if params.len() == 0 {
        Seq::empty()
    } else {
        "<"@ + concat(Seq::new(params.len(), |i: int| params[i].name@ + sep)) + ">"@
    }
}

/// The name of an encoding.
pub fn encoding_label(encoding: Encoding) -> (r: &'static str)
    ensures
        r@ == encoding_name(encoding),
{
    match encoding {
        Encoding::Unsigned => "Unsigned",
        Encoding::Signed => "Signed",
        Encoding::Float => "Float",
        Encoding::Boolean => "Boolean",
        Encoding::UnsignedChar => "UnsignedChar",
        Encoding::SignedChar => "SignedChar",
        Encoding::Other => "Other",
    }
}

fn unhandled(encoding: Encoding, size: u64) -> (r: String)
    ensures
        r@ == unhandled_name(encoding, size),
{
    let mut r = String::from_str("Unhandled");
    r.append(encoding_label(encoding));
    let digits = format_dec(size);
    r.append(digits.as_str());
    r
}

/// The primitive that a base type of the given encoding and size is. A
/// pair that the table does not hold is marked as unhandled, with the
/// encoding and the size.
pub fn primitive(encoding: Encoding, size: u64) -> (r: String)
    ensures
        r@ == primitive_name(encoding, size),
{
    if size == 0 {
        return String::from_str("()");
    }
    match encoding {
        Encoding::Unsigned => if size == 1 {
            String::from_str("u8")
        } else if size == 2 {
            String::from_str("u16")
        } else if size == 4 {
            String::from_str("u32")
        } else if size == 8 {
            String::from_str("u64")
        } else if size == 16 {
            String::from_str("u128")
        } else {
            unhandled(encoding, size)
        },
        Encoding::Signed => if size == 1 {
            String::from_str("i8")
        } else if size == 2 {
            String::from_str("i16")
        } else if size == 4 {
            String::from_str("i32")
        } else if size == 8 {
            String::from_str("i64")
        } else if size == 16 {
            String::from_str("i128")
        } else {
            unhandled(encoding, size)
        },
        Encoding::Float => if size == 4 {
            String::from_str("f32")
        } else if size == 8 {
            String::from_str("f64")
        } else {
            unhandled(encoding, size)
        },
        Encoding::Boolean => if size == 1 {
            String::from_str("bool")
        } else {
            unhandled(encoding, size)
        },
        Encoding::UnsignedChar => if size == 4 {
            String::from_str("char")
        } else if size == 1 {
            String::from_str("c_uchar")
        } else {
            unhandled(encoding, size)
        },
        Encoding::SignedChar => if size == 1 {
            String::from_str("c_schar")
        } else {
            unhandled(encoding, size)
        },
        Encoding::Other => unhandled(encoding, size),
    }
}

/// The label of a member.
pub fn label_of(m: &Member) -> (r: &str)
    ensures
        r@ == member_label(*m),
{
    match &m.name {
        Some(n) => n.as_str(),
        None => "ANON",
    }
}

/// Adds the lines of the members to `out`.
pub fn push_member_lines(
    out: &mut String,
    db: &Snapshot,
    members: &OrderedMap<Member>,
    indent: &str,
    labelled: bool,
) -> (r: Result<(), Unresolved>)
    ensures
        match r {
            Ok(_) => member_lines(db@, members@, indent@, labelled) is Ok && final(out)@ == old(
                out,
            )@ + member_lines(db@, members@, indent@, labelled)->Ok_0,
            Err(e) => member_lines(db@, members@, indent@, labelled) == Err::<Seq<char>, Goff>(e.goff)
                && db@.name_from_goff(e.goff) is None,
        },
{
    let ghost parts = Seq::new(
        members@.len(),
        |i: int| member_line(db@, members@[i].1, indent@, labelled),
    );
    let ghost before = out@;
    let n = members.len();
    let mut i: usize = 0;
    proof {
        if n > 0 {
            lemma_concat_all_step(parts, 0);
        }
        assert(parts.take(0) =~= Seq::empty());
    }
    while i < n
        invariant
            i <= n,
            n == members@.len(),
            parts == Seq::new(
                members@.len(),
                |i: int| member_line(db@, members@[i].1, indent@, labelled),
            ),
            concat_all(parts.take(i as int)) is Ok,
            out@ == before + concat_all(parts.take(i as int))->Ok_0,
        decreases n - i,
    {
        let m = members.value_at(i);
        proof {
            lemma_concat_all_step(parts, i as int);
        }
        match db.name_from_goff(m.ty_goff) {
            Some(ty_name) => {
                let mut line = String::from_str(indent);
                if labelled {
                    line.append(label_of(m));
                    line.append(": ");
                }
                line.append(ty_name);
                line.append(",\n");
                assert(parts[i as int] is Ok);
                assert(line@ =~= parts[i as int]->Ok_0);
                out.append(line.as_str());
                assert(out@ =~= before + concat_all(parts.take(i + 1))->Ok_0);
            },
            None => {
                proof {
                    lemma_concat_all_prefix(parts, i + 1);
                }
                return Err(Unresolved { goff: m.ty_goff });
            },
        }
        i = i + 1;
    }
    assert(parts.take(n as int) =~= parts);
    Ok(())
}

/// Adds the type parameters to `out`, each followed by `sep`.
pub fn push_params(out: &mut String, params: &Vec<TemplateTypeParameter>, sep: &str)
    ensures
        final(out)@ == old(out)@ + params_text(params@, sep@),
{
    let n = params.len();
    if n == 0 {
        assert(out@ =~= out@ + params_text(params@, sep@));
        return ;
    }
    let ghost parts = Seq::new(params@.len(), |i: int| params@[i].name@ + sep@);
    let ghost before = out@;
    out.append("<");
    let mut i: usize = 0;
    proof {
        lemma_concat_step(parts, 0);
        assert(out@ =~= before + "<"@ + concat(parts.take(0)));
    }
    while i < n
        invariant
            i <= n,
            n == params@.len(),
            n > 0,
            parts == Seq::new(params@.len(), |i: int| params@[i].name@ + sep@),
            out@ == before + "<"@ + concat(parts.take(i as int)),
        decreases n - i,
    {
        proof {
            lemma_concat_step(parts, i as int);
        }
        out.append(params[i].name.as_str());
        out.append(sep);
        assert(out@ =~= before + "<"@ + concat(parts.take(i + 1)));
        i = i + 1;
    }
    proof {
        lemma_concat_step(parts, 0);
    }
    out.append(">");
    assert(out@ =~= before + params_text(params@, sep@));
}

/// What follows the name of a struct in its definition: a semicolon where
/// it has no members, the types of the members in parentheses where it is
/// tuple-like, else the members with their labels in braces.
pub open spec fn struct_body(view: SnapshotView, s: Struct) -> Rendered {
    if s.members@.len() == 0 {
        Ok(";\n"@)
    } else if s.tuple_like {
        wrap("(\n"@, member_lines(view, s.members@, "    "@, false), ");\n"@)
    } else {
        wrap(" {\n"@, member_lines(view, s.members@, "    "@, true), "}\n"@)
    }
}

/// What follows the name of a variant: the members of the struct that holds
/// its payload, written as a struct writes them, one level deeper. A
/// payload that is no struct is marked as unexpected.
pub open spec fn payload_text(view: SnapshotView, v: Variant) -> Rendered {
    match view.type_from_goff(v.member.ty_goff) {
        None => Err(v.member.ty_goff),
        Some(Type::Struct(s)) => if s.members@.len() == 0 {
            Ok(Seq::empty())
        } else if s.tuple_like {
            wrap("(\n"@, member_lines(view, s.members@, "        "@, false), "    )"@)
        } else {
            wrap(" {\n"@, member_lines(view, s.members@, "        "@, true), "    }"@)
        },
        Some(_) => Ok("(unexpected weirdness)"@),
    }
}

/// The line, or lines, of one variant.
pub open spec fn variant_text(view: SnapshotView, v: Variant) -> Rendered {
    wrap("    "@ + member_label(v.member), payload_text(view, v), ",\n"@)
}

/// The variants of a variant map, in the order in which it is walked.
pub open spec fn many_text(view: SnapshotView, variants: VariantMap) -> Rendered {
    concat_all(Seq::new(variants@.len(), |i: int| variant_text(view, variants@[i].1)))
}

/// The variants with an explicit value, in ascending order of the values.
pub open spec fn explicit_text(view: SnapshotView, explicit: Seq<(u64, Variant)>) -> Rendered {
    concat_all(Seq::new(explicit.len(), |i: int| variant_text(view, explicit[i].1)))
}

/// In the definition of a sum type the variants with an explicit value come
/// first and the fallback comes last, whatever the order in which they were
/// put into the variant map.
pub proof fn lemma_fallback_last(view: SnapshotView, variants: VariantMap)
    ensures
        many_text(view, variants) == (match variants.fallback {
            Some(v) => followed_by(
                explicit_text(view, variants.explicit@),
                variant_text(view, v),
            ),
            None => explicit_text(view, variants.explicit@),
        }),
{
    let parts = Seq::new(variants@.len(), |i: int| variant_text(view, variants@[i].1));
    let first = Seq::new(
        variants.explicit@.len(),
        |i: int| variant_text(view, variants.explicit@[i].1),
    );
    match variants.fallback {
        Some(v) => {
            assert(parts.drop_last() =~= first);
            assert(parts.last() == variant_text(view, v));
        },
        None => {
            assert(parts =~= first);
        },
    }
}

/// The variants of a sum type, in the order in which its variant map is
/// walked. The discriminant is not written.
pub open spec fn variants_text(view: SnapshotView, shape: VariantShape) -> Rendered {
    match shape {
        VariantShape::Zero => Ok(Seq::empty()),
        VariantShape::One(v) => variant_text(view, v),
        VariantShape::Many { member, variants } => many_text(view, variants),
    }
}

/// The line of one enumerator: its name and its value in hexadecimal.
pub open spec fn enumerator_line(value: u64, e: Enumerator) -> Seq<char> {
    "    "@ + e.name@ + " = 0x"@ + hex_text(value as nat) + ",\n"@
}

/// The line of one formal parameter.
pub open spec fn parameter_line(view: SnapshotView, goff: Goff) -> Rendered {
    wrap("    "@, needed_name(view, goff), ",\n"@)
}

/// The line that closes the parameters of a subroutine, with the return
/// type where one is recorded.
pub open spec fn return_line(view: SnapshotView, ret: Option<Goff>) -> Rendered {
    match ret {
        Some(goff) => wrap(") -> "@, needed_name(view, goff), " {\n"@),
        None => Ok(") {\n"@),
    }
}

/// The body that stands for the code of a subroutine type.
pub open spec fn subroutine_tail() -> Seq<char> {
    "    // code goes here\n"@ + "    // (this is a subroutine type, _not_ a fn ptr)\n"@
        + "    unimplemented!();\n"@ + "}\n"@
}

/// The lines of the formal parameters, in their order.
pub open spec fn parameter_lines(view: SnapshotView, params: Seq<Goff>) -> Rendered {
    concat_all(Seq::new(params.len(), |i: int| parameter_line(view, params[i])))
}

/// The definition of a subroutine type: the parameters, then the return
/// type, then a body that stands for the code.
pub open spec fn subroutine_text(view: SnapshotView, s: Subroutine) -> Rendered {
    wrap(
        "fn(\n"@,
        followed_by(
            parameter_lines(view, s.formal_parameters@),
            return_line(view, s.return_ty_goff),
        ),
        subroutine_tail(),
    )
}

/// The definition of a C-style enumeration.
pub open spec fn cenum_text(c: CEnum) -> Seq<char> {
    "enum "@ + c.name@ + " {\n"@ + concat(
        Seq::new(c.enumerators@.len(), |i: int| enumerator_line(c.enumerators@[i].0, c.enumerators@[i].1)),
    ) + "}\n"@
}

/// The definition of a sum type.
pub open spec fn enum_text(view: SnapshotView, e: Enum) -> Rendered {
    wrap(
        "enum "@ + e.name@ + params_text(e.template_type_parameters@, Seq::empty()) + " {\n"@,
        variants_text(view, e.variant_part.shape),
        "}\n"@,
    )
}

/// The definition of a struct.
pub open spec fn struct_text(view: SnapshotView, s: Struct) -> Rendered {
    wrap(
        "struct "@ + s.name@ + params_text(s.template_type_parameters@, ","@),
        struct_body(view, s),
        Seq::empty(),
    )
}

/// The definition of `ty`: a declaration in the manner of source code.
/// Where a name that it needs does not resolve there is none, and the
/// offset of the first such name stands in its place. A union has the empty
/// definition.
pub open spec fn def_text(view: SnapshotView, ty: Type) -> Rendered {
    match ty {
        Type::Base(b) => Ok("type _ = "@ + primitive_name(b.encoding, b.byte_size) + ";\n"@),
        Type::Pointer(p) => Ok(p.name@ + "\n"@),
        Type::Array(a) => match a.count {
            Some(count) => wrap(
                "["@,
                needed_name(view, a.element_ty_goff),
                "; "@ + dec_text(count as nat) + "]\n"@,
            ),
            None => wrap("["@, needed_name(view, a.element_ty_goff), "]\n"@),
        },
        Type::Struct(s) => struct_text(view, s),
        Type::Enum(e) => enum_text(view, e),
        Type::CEnum(c) => Ok(cenum_text(c)),
        Type::Union(_) => Ok(Seq::empty()),
        Type::Subroutine(s) => subroutine_text(view, s),
    }
}

/// Whether `r` is the outcome that the definition `text` asks for: the text
/// where there is one, else the offset that stands in its place, which is
/// that of an entry without a name.
pub open spec fn renders(view: SnapshotView, r: Result<String, Unresolved>, text: Rendered) -> bool {
    match r {
        Ok(s) => text == Ok::<Seq<char>, Goff>(s@),
        Err(e) => text == Err::<Seq<char>, Goff>(e.goff) && view.name_from_goff(e.goff) is None,
    }
}

/// Adds to `out` what follows the name of a variant.
pub fn push_payload(out: &mut String, db: &Snapshot, v: &Variant) -> (r: Result<(), Unresolved>)
    ensures
        match r {
            Ok(_) => payload_text(db@, *v) is Ok && final(out)@ == old(out)@ + payload_text(
                db@,
                *v,
            )->Ok_0,
            Err(e) => payload_text(db@, *v) == Err::<Seq<char>, Goff>(e.goff)
                && db@.name_from_goff(e.goff) is None,
        },
{
    let ghost before = out@;
    match db.type_from_goff(v.member.ty_goff) {
        None => Err(Unresolved { goff: v.member.ty_goff }),
        Some(Type::Struct(s)) => {
            if s.members.is_empty() {
                assert(out@ =~= before + Seq::<char>::empty());
                Ok(())
            } else if s.tuple_like {
                out.append("(\n");
                match push_member_lines(out, db, &s.members, "        ", false) {
                    Ok(_) => {
                        out.append("    )");
                        assert(out@ =~= before + payload_text(db@, *v)->Ok_0);
                        Ok(())
                    },
                    Err(e) => Err(e),
                }
            } else {
                out.append(" {\n");
                match push_member_lines(out, db, &s.members, "        ", true) {
                    Ok(_) => {
                        out.append("    }");
                        assert(out@ =~= before + payload_text(db@, *v)->Ok_0);
                        Ok(())
                    },
                    Err(e) => Err(e),
                }
            }
        },
        Some(_) => {
            out.append("(unexpected weirdness)");
            Ok(())
        },
    }
}

/// Adds the line, or lines, of one variant to `out`.
pub fn push_variant(out: &mut String, db: &Snapshot, v: &Variant) -> (r: Result<(), Unresolved>)
    ensures
        match r {
            Ok(_) => variant_text(db@, *v) is Ok && final(out)@ == old(out)@ + variant_text(
                db@,
                *v,
            )->Ok_0,
            Err(e) => variant_text(db@, *v) == Err::<Seq<char>, Goff>(e.goff)
                && db@.name_from_goff(e.goff) is None,
        },
{
    let ghost before = out@;
    out.append("    ");
    out.append(label_of(&v.member));
    match push_payload(out, db, v) {
        Ok(_) => {
            out.append(",\n");
            assert(out@ =~= before + variant_text(db@, *v)->Ok_0);
            Ok(())
        },
        Err(e) => Err(e),
    }
}

/// Adds the variants of a variant map to `out`: those with an explicit
/// value in ascending order, then the fallback.
pub fn push_variants(out: &mut String, db: &Snapshot, variants: &VariantMap) -> (r: Result<
    (),
    Unresolved,
>)
    ensures
        match r {
            Ok(_) => many_text(db@, *variants) is Ok && final(out)@ == old(out)@ + many_text(
                db@,
                *variants,
            )->Ok_0,
            Err(e) => many_text(db@, *variants) == Err::<Seq<char>, Goff>(e.goff)
                && db@.name_from_goff(e.goff) is None,
        },
{
    let ghost parts = Seq::new(variants@.len(), |i: int| variant_text(db@, variants@[i].1));
    let ghost before = out@;
    let n = variants.explicit.len();
    let mut i: usize = 0;
    proof {
        assert(parts.take(0) =~= Seq::empty());
    }
    while i < n
        invariant
            i <= n,
            n == variants.explicit@.len(),
            parts == Seq::new(variants@.len(), |i: int| variant_text(db@, variants@[i].1)),
            concat_all(parts.take(i as int)) is Ok,
            out@ == before + concat_all(parts.take(i as int))->Ok_0,
        decreases n - i,
    {
        let v = variants.explicit.value_at(i);
        proof {
            lemma_concat_all_step(parts, i as int);
            assert(variants@[i as int].1 == *v);
        }
        match push_variant(out, db, v) {
            Ok(_) => {
                assert(out@ =~= before + concat_all(parts.take(i + 1))->Ok_0);
            },
            Err(e) => {
                proof {
                    lemma_concat_all_prefix(parts, i + 1);
                }
                return Err(e);
            },
        }
        i = i + 1;
    }
    match &variants.fallback {
        Some(v) => {
            proof {
                lemma_concat_all_step(parts, n as int);
                assert(variants@[n as int].1 == *v);
                assert(parts.take(n + 1) =~= parts);
            }
            match push_variant(out, db, v) {
                Ok(_) => {
                    assert(out@ =~= before + concat_all(parts)->Ok_0);
                    Ok(())
                },
                Err(e) => Err(e),
            }
        },
        None => {
            assert(parts.take(n as int) =~= parts);
            Ok(())
        },
    }
}

/// Adds the variants of a sum type to `out`.
pub fn push_shape(out: &mut String, db: &Snapshot, shape: &VariantShape) -> (r: Result<
    (),
    Unresolved,
>)
    ensures
        match r {
            Ok(_) => variants_text(db@, *shape) is Ok && final(out)@ == old(out)@
                + variants_text(db@, *shape)->Ok_0,
            Err(e) => variants_text(db@, *shape) == Err::<Seq<char>, Goff>(e.goff)
                && db@.name_from_goff(e.goff) is None,
        },
{
    match shape {
        VariantShape::Zero => {
            assert(out@ =~= out@ + Seq::<char>::empty());
            Ok(())
        },
        VariantShape::One(v) => push_variant(out, db, v),
        VariantShape::Many { member, variants } => push_variants(out, db, variants),
    }
}

/// The definition of a struct.
pub fn struct_definition(db: &Snapshot, s: &Struct) -> (r: Result<String, Unresolved>)
    ensures
        renders(db@, r, struct_text(db@, *s)),
{
    let mut out = String::from_str("struct ");
    out.append(s.name.as_str());
    push_params(&mut out, &s.template_type_parameters, ",");
    let ghost head = out@;
    if s.members.is_empty() {
        out.append(";\n");
        assert(out@ =~= struct_text(db@, *s)->Ok_0);
        return Ok(out);
    }
    let labelled = !s.tuple_like;
    out.append(if labelled {
        " {\n"
    } else {
        "(\n"
    });
    match push_member_lines(&mut out, db, &s.members, "    ", labelled) {
        Ok(_) => {
            out.append(if labelled {
                "}\n"
            } else {
                ");\n"
            });
            assert(out@ =~= struct_text(db@, *s)->Ok_0);
            Ok(out)
        },
        Err(e) => Err(e),
    }
}

/// The definition of a sum type.
pub fn enum_definition(db: &Snapshot, e: &Enum) -> (r: Result<String, Unresolved>)
    ensures
        renders(db@, r, enum_text(db@, *e)),
{
    let mut out = String::from_str("enum ");
    out.append(e.name.as_str());
    push_params(&mut out, &e.template_type_parameters, "");
    out.append(" {\n");
    proof {
        reveal_strlit("");
        assert(""@ =~= Seq::<char>::empty());
    }
    match push_shape(&mut out, db, &e.variant_part.shape) {
        Ok(_) => {
            out.append("}\n");
            assert(out@ =~= enum_text(db@, *e)->Ok_0);
            Ok(out)
        },
        Err(err) => Err(err),
    }
}

/// The definition of a C-style enumeration.
pub fn cenum_definition(c: &CEnum) -> (r: String)
    ensures
        r@ == cenum_text(*c),
{
    let ghost parts = Seq::new(
        c.enumerators@.len(),
        |i: int| enumerator_line(c.enumerators@[i].0, c.enumerators@[i].1),
    );
    let mut out = String::from_str("enum ");
    out.append(c.name.as_str());
    out.append(" {\n");
    let ghost head = out@;
    let n = c.enumerators.len();
    let mut i: usize = 0;
    proof {
        assert(parts.take(0) =~= Seq::empty());
        assert(out@ =~= head + concat(parts.take(0)));
    }
    while i < n
        invariant
            i <= n,
            n == c.enumerators@.len(),
            parts == Seq::new(
                c.enumerators@.len(),
                |i: int| enumerator_line(c.enumerators@[i].0, c.enumerators@[i].1),
            ),
            out@ == head + concat(parts.take(i as int)),
        decreases n - i,
    {
        proof {
            lemma_concat_step(parts, i as int);
        }
        let mut line = String::from_str("    ");
        line.append(c.enumerators.value_at(i).name.as_str());
        line.append(" = 0x");
        let digits = format_hex(c.enumerators.key_at(i));
        line.append(digits.as_str());
        line.append(",\n");
        assert(line@ =~= parts[i as int]);
        out.append(line.as_str());
        assert(out@ =~= head + concat(parts.take(i + 1)));
        i = i + 1;
    }
    assert(parts.take(n as int) =~= parts);
    out.append("}\n");
    assert(out@ =~= cenum_text(*c));
    out
}

/// The definition of a subroutine type.
pub fn subroutine_definition(db: &Snapshot, s: &Subroutine) -> (r: Result<String, Unresolved>)
    ensures
        renders(db@, r, subroutine_text(db@, *s)),
{
    let ghost parts = Seq::new(
        s.formal_parameters@.len(),
        |i: int| parameter_line(db@, s.formal_parameters@[i]),
    );
    let mut out = String::from_str("fn(\n");
    let n = s.formal_parameters.len();
    let mut i: usize = 0;
    proof {
        assert(parts.take(0) =~= Seq::empty());
        assert(out@ =~= "fn(\n"@ + concat_all(parts.take(0))->Ok_0);
    }
    while i < n
        invariant
            i <= n,
            n == s.formal_parameters@.len(),
            parts == Seq::new(
                s.formal_parameters@.len(),
                |i: int| parameter_line(db@, s.formal_parameters@[i]),
            ),
            concat_all(parts.take(i as int)) is Ok,
            out@ == "fn(\n"@ + concat_all(parts.take(i as int))->Ok_0,
        decreases n - i,
    {
        let goff = s.formal_parameters[i];
        proof {
            lemma_concat_all_step(parts, i as int);
        }
        match db.name_from_goff(goff) {
            Some(name) => {
                let mut line = String::from_str("    ");
                line.append(name);
                line.append(",\n");
                assert(Ok::<Seq<char>, Goff>(line@) =~= parts[i as int]);
                out.append(line.as_str());
                assert(out@ =~= "fn(\n"@ + concat_all(parts.take(i + 1))->Ok_0);
            },
            None => {
                proof {
                    lemma_concat_all_prefix(parts, i + 1);
                }
                return Err(Unresolved { goff });
            },
        }
        i = i + 1;
    }
    assert(parts.take(n as int) =~= parts);
    let ghost params = out@;
    match s.return_ty_goff {
        Some(goff) => match db.name_from_goff(goff) {
            Some(name) => {
                out.append(") -> ");
                out.append(name);
                out.append(" {\n");
                assert(out@ =~= params + return_line(db@, s.return_ty_goff)->Ok_0);
            },
            None => {
                return Err(Unresolved { goff });
            },
        },
        None => {
            out.append(") {\n");
        },
    }
    let ghost upto = out@;
    out.append("    // code goes here\n");
    out.append("    // (this is a subroutine type, _not_ a fn ptr)\n");
    out.append("    unimplemented!();\n");
    out.append("}\n");
    assert(out@ =~= upto + subroutine_tail());
    assert(out@ =~= subroutine_text(db@, *s)->Ok_0);
    Ok(out)
}

/// The definition of `ty`: a declaration in the manner of source code, or
/// the offset of the first entry whose name the definition needs and which
/// has none.
pub fn definition(db: &Snapshot, ty: &Type) -> (r: Result<String, Unresolved>)
    ensures
        renders(db@, r, def_text(db@, *ty)),
{
    match ty {
        Type::Base(b) => {
            let mut out = String::from_str("type _ = ");
            let name = primitive(b.encoding, b.byte_size);
            out.append(name.as_str());
            out.append(";\n");
            Ok(out)
        },
        Type::Pointer(p) => {
            let mut out = String::from_str(p.name.as_str());
            out.append("\n");
            Ok(out)
        },
        Type::Array(a) => match db.name_from_goff(a.element_ty_goff) {
            Some(name) => {
                let mut out = String::from_str("[");
                out.append(name);
                match a.count {
                    Some(count) => {
                        out.append("; ");
                        let digits = format_dec(count);
                        out.append(digits.as_str());
                        out.append("]\n");
                        assert(out@ =~= def_text(db@, *ty)->Ok_0);
                    },
                    None => {
                        out.append("]\n");
                    },
                }
                Ok(out)
            },
            None => Err(Unresolved { goff: a.element_ty_goff }),
        },
        Type::Struct(s) => struct_definition(db, s),
        Type::Enum(e) => enum_definition(db, e),
        Type::CEnum(c) => Ok(cenum_definition(c)),
        Type::Union(_) => Ok(String::new()),
        Type::Subroutine(s) => subroutine_definition(db, s),
    }
}

} // verus!
