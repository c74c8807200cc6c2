//! Summaries: a type entry described field by field, and the line that
//! names an entry by its name and its offset.

use vstd::prelude::*;
use crate::goff::{goff_text, Goff};
use crate::model::{
    CEnum, Enum, Enumerator, Member, Struct, TemplateTypeParameter, Type, Variant, VariantMap,
    VariantShape,
};
use crate::num::{dec_text, format_count, format_dec, format_hex, hex_text};
use crate::render::{encoding_label, encoding_name};
use crate::snapshot::{Snapshot, SnapshotView};
use crate::style::{bold, bold_text, dim_text, dimmed};
use crate::text::{concat, lemma_concat_step};

verus! {

/// An entry named for display: its name in bold, or a placeholder where it
/// has none, and the text of its offset, dimmed.
pub open spec fn named_text(name: Option<Seq<char>>, goff: Goff) -> Seq<char> {
    let shown = match name {
        Some(n) => n,
        None => "<anonymous type>"@,
    };
    bold_text(shown) + " "@ + dim_text(goff_text(goff))
}

/// The entry under `goff`, named for display.
pub open spec fn named_goff_text(view: SnapshotView, goff: Goff) -> Seq<char> {
    named_text(view.name_from_goff(goff), goff)
}

/// An entry with the given name and offset, named for display.
pub fn named(name: Option<&str>, goff: Goff) -> (r: String)
    ensures
        r@ == named_text(crate::model::text_view(name), goff),
{
    let shown = match name {
        Some(n) => n,
        None => "<anonymous type>",
    };
    let mut r = bold(shown);
    r.append(" ");
    let at = goff.text();
    let at = dimmed(at.as_str());
    r.append(at.as_str());
    r
}

/// The entry under `goff`, named for display.
pub fn named_goff(db: &Snapshot, goff: Goff) -> (r: String)
    ensures
        r@ == named_goff_text(db@, goff),
{
    named(db.name_from_goff(goff), goff)
}

/// The line that states an alignment, or that there is none.
pub open spec fn alignment_line(alignment: Option<u64>) -> Seq<char> {
    match alignment {
        Some(a) => "- alignment: "@ + dec_text(a as nat) + "\n"@,
        None => "- not aligned\n"@,
    }
}

/// The line that states the alignment of a member, where it has one.
pub open spec fn aligned_line(indent: Seq<char>, alignment: Option<u64>) -> Seq<char> {
    match alignment {
        Some(a) => indent + "- aligned: "@ + dec_text(a as nat) + " bytes\n"@,
        None => Seq::empty(),
    }
}

/// The line of one type parameter.
pub open spec fn param_line(view: SnapshotView, p: TemplateTypeParameter) -> Seq<char> {
    "  - "@ + p.name@ + " = "@ + named_goff_text(view, p.ty_goff) + "\n"@
}

/// The type parameters under the heading `heading`; nothing where there
/// are none.
pub open spec fn params_info(
    view: SnapshotView,
    params: Seq<TemplateTypeParameter>,
    heading: Seq<char>,
) -> Seq<char> {
    if params.len() == 0 {
        Seq::empty()
    } else {
        heading + concat(Seq::new(params.len(), |i: int| param_line(view, params[i])))
    }
}

/// The lines of one member of a struct.
pub open spec fn member_info(view: SnapshotView, m: Member) -> Seq<char> {
    let label = match m.name {
        Some(n) => n@,
        None => "<unnamed>"@,
    };
    "  - "@ + label + ": "@ + named_goff_text(view, m.ty_goff) + "\n"@ + "    - offset: "@
        + dec_text(m.location as nat) + " bytes\n"@ + aligned_line("    "@, m.alignment) + (if m.artificial {
        "    - artificial\n"@
    } else {
        Seq::empty()
    })
}

/// The members of a struct, or the line that says it has none.
pub open spec fn members_info(view: SnapshotView, members: Seq<(u64, Member)>) -> Seq<char> {
    if members.len() == 0 {
        "- no members\n"@
    } else {
        "- members:\n"@ + concat(Seq::new(members.len(), |i: int| member_info(view, members[i].1)))
    }
}

/// The line that marks a member the compiler should have made up and did
/// not.
pub open spec fn oddly_line(artificial: bool) -> Seq<char> {
    if artificial {
        Seq::empty()
    } else {
        "  - not artificial, oddly\n"@
    }
}

/// The lines that describe the payload of a variant.
pub open spec fn variant_info(view: SnapshotView, v: Variant) -> Seq<char> {
    "  - contains type: "@ + named_goff_text(view, v.member.ty_goff) + "\n"@ + "  - at offset: "@
        + dec_text(v.member.location as nat) + " bytes\n"@ + aligned_line("  "@, v.member.alignment)
}

/// The lines of a variant with an explicit discriminant value.
pub open spec fn explicit_info(view: SnapshotView, value: u64, v: Variant) -> Seq<char> {
    "- when discriminator == "@ + dec_text(value as nat) + "\n"@ + variant_info(view, v)
}

/// The lines of the fallback variant, where there is one.
pub open spec fn fallback_info(view: SnapshotView, fallback: Option<Variant>) -> Seq<char> {
    match fallback {
        Some(v) => "- any other discriminator value\n"@ + variant_info(view, v),
        None => Seq::empty(),
    }
}

/// The variants of a variant map: those with an explicit value first, then
/// the fallback.
pub open spec fn variants_info(view: SnapshotView, variants: VariantMap) -> Seq<char> {
    concat(
        Seq::new(
            variants.explicit@.len(),
            |i: int| explicit_info(view, variants.explicit@[i].0, variants.explicit@[i].1),
        ),
    ) + fallback_info(view, variants.fallback)
}

/// The line that states how many variants a discriminant tells apart.
pub open spec fn discriminant_line(view: SnapshotView, member: Member, variants: VariantMap) -> Seq<
    char,
> {
    let by = match view.name_from_goff(member.ty_goff) {
        Some(n) => n,
        None => "an anonymous type"@,
    };
    "- "@ + dec_text(variants@.len()) + " variants discriminated by "@ + by + " at offset "@
        + dec_text(member.location as nat) + "\n"@
}

/// The lines that describe the one variant of a sum type without a
/// discriminant.
pub open spec fn single_info(view: SnapshotView, v: Variant) -> Seq<char> {
    "- single variant enum w/o discriminator\n"@ + "  - content type: "@ + named_goff_text(
        view,
        v.member.ty_goff,
    ) + "\n"@ + "  - offset: "@ + dec_text(v.member.location as nat) + " bytes\n"@ + aligned_line(
        "  "@,
        v.member.alignment,
    ) + oddly_line(v.member.artificial)
}

/// The lines that describe the layout of a sum type.
pub open spec fn shape_info(view: SnapshotView, shape: VariantShape) -> Seq<char> {
    match shape {
        VariantShape::Zero => "- empty (uninhabited) enum\n"@,
        VariantShape::One(v) => single_info(view, v),
        VariantShape::Many { member, variants } => discriminant_line(view, member, variants)
            + oddly_line(member.artificial) + variants_info(view, variants),
    }
}

/// The line of one enumerator.
pub open spec fn enumerator_info(e: Enumerator) -> Seq<char> {
    "  - "@ + e.name@ + " = 0x"@ + hex_text(e.const_value as nat) + "\n"@
}

/// The summary of a struct.
pub open spec fn struct_info(view: SnapshotView, s: Struct) -> Seq<char> {
    (if s.tuple_like {
        "struct type (tuple-like)\n"@
    } else {
        "struct type\n"@
    }) + "- byte size: "@ + dec_text(s.byte_size as nat) + "\n"@ + alignment_line(s.alignment)
        + params_info(view, s.template_type_parameters@, "- template type parameters:\n"@)
        + members_info(view, s.members@)
}

/// The summary of a sum type.
pub open spec fn enum_info(view: SnapshotView, e: Enum) -> Seq<char> {
    "enum type\n"@ + "- byte size: "@ + dec_text(e.byte_size as nat) + "\n"@ + alignment_line(
        e.alignment,
    ) + params_info(view, e.template_type_parameters@, "- type parameters:\n"@) + shape_info(
        view,
        e.variant_part.shape,
    )
}

/// The summary of a C-style enumeration.
pub open spec fn cenum_info(c: CEnum) -> Seq<char> {
    "C-like enum type\n"@ + "- byte size: "@ + dec_text(c.byte_size as nat) + "\n"@
        + "- alignment: "@ + dec_text(c.alignment as nat) + "\n"@ + "- "@ + dec_text(
        c.enumerators@.len(),
    ) + " values defined\n"@ + concat(
        Seq::new(c.enumerators@.len(), |i: int| enumerator_info(c.enumerators@[i].1)),
    )
}

/// The summary of `ty`: what kind of entry it is, and what it holds. Unions
/// and subroutines have the empty summary.
pub open spec fn info_text(view: SnapshotView, ty: Type) -> Seq<char> {
    match ty {
        Type::Base(b) => "base type\n"@ + "- encoding: "@ + encoding_name(b.encoding) + "\n"@
            + "- byte size: "@ + dec_text(b.byte_size as nat) + "\n"@,
        Type::Pointer(p) => "pointer type\n"@ + "- points to: "@ + named_goff_text(view, p.ty_goff)
            + "\n"@,
        Type::Array(a) => "array type\n"@ + "- element type: "@ + named_goff_text(
            view,
            a.element_ty_goff,
        ) + "\n"@ + "- lower bound: "@ + dec_text(a.lower_bound as nat) + "\n"@ + (match a.count {
            Some(n) => "- count: "@ + dec_text(n as nat) + "\n"@,
            None => "- size not given\n"@,
        }),
        Type::Struct(s) => struct_info(view, s),
        Type::Enum(e) => enum_info(view, e),
        Type::CEnum(c) => cenum_info(c),
        Type::Union(_) => Seq::empty(),
        Type::Subroutine(_) => Seq::empty(),
    }
}

/// Adds to `out` a line made of `lead`, the number `n` and `tail`.
fn push_number(out: &mut String, lead: &str, n: u64, tail: &str)
    ensures
        final(out)@ == old(out)@ + (lead@ + dec_text(n as nat) + tail@),
{
    let ghost before = out@;
    out.append(lead);
    let digits = format_dec(n);
    out.append(digits.as_str());
    out.append(tail);
    assert(out@ =~= before + (lead@ + dec_text(n as nat) + tail@));
}

/// Adds to `out` a line made of `lead`, the entry under `goff` named for
/// display, and the end of the line.
fn push_named(out: &mut String, db: &Snapshot, lead: &str, goff: Goff)
    ensures
        final(out)@ == old(out)@ + (lead@ + named_goff_text(db@, goff) + "\n"@),
{
    let ghost before = out@;
    out.append(lead);
    let n = named_goff(db, goff);
    out.append(n.as_str());
    out.append("\n");
    assert(out@ =~= before + (lead@ + named_goff_text(db@, goff) + "\n"@));
}

fn push_alignment(out: &mut String, alignment: Option<u64>)
    ensures
        final(out)@ == old(out)@ + alignment_line(alignment),
{
    match alignment {
        Some(a) => push_number(out, "- alignment: ", a, "\n"),
        None => out.append("- not aligned\n"),
    }
}

fn push_aligned(out: &mut String, indent: &str, alignment: Option<u64>)
    ensures
        final(out)@ == old(out)@ + aligned_line(indent@, alignment),
{
    let ghost before = out@;
    match alignment {
        Some(a) => {
            out.append(indent);
            push_number(out, "- aligned: ", a, " bytes\n");
            assert(out@ =~= before + aligned_line(indent@, alignment));
        },
        None => {
            assert(out@ =~= before + aligned_line(indent@, alignment));
        },
    }
}

fn push_oddly(out: &mut String, artificial: bool)
    ensures
        final(out)@ == old(out)@ + oddly_line(artificial),
{
    if !artificial {
        out.append("  - not artificial, oddly\n");
    } else {
        assert(out@ =~= out@ + oddly_line(artificial));
    }
}

fn push_params_info(
    out: &mut String,
    db: &Snapshot,
    params: &Vec<TemplateTypeParameter>,
    heading: &str,
)
    ensures
        final(out)@ == old(out)@ + params_info(db@, params@, heading@),
{
    let ghost before = out@;
    let n = params.len();
    if n == 0 {
        assert(out@ =~= before + params_info(db@, params@, heading@));
        return ;
    }
    let ghost parts = Seq::new(params@.len(), |i: int| param_line(db@, params@[i]));
    out.append(heading);
    let mut i: usize = 0;
    proof {
        lemma_concat_step(parts, 0);
        assert(out@ =~= before + heading@ + concat(parts.take(0)));
    }
    while i < n
        invariant
            i <= n,
            n == params@.len(),
            parts == Seq::new(params@.len(), |i: int| param_line(db@, params@[i])),
            out@ == before + heading@ + concat(parts.take(i as int)),
        decreases n - i,
    {
        proof {
            lemma_concat_step(parts, i as int);
        }
        let mut line = String::from_str("  - ");
        line.append(params[i].name.as_str());
        line.append(" = ");
        push_named(&mut line, db, "", params[i].ty_goff);
        proof {
            reveal_strlit("");
            assert(line@ =~= parts[i as int]);
        }
        out.append(line.as_str());
        assert(out@ =~= before + heading@ + concat(parts.take(i + 1)));
        i = i + 1;
    }
    proof {
        lemma_concat_step(parts, 0);
        assert(out@ =~= before + params_info(db@, params@, heading@));
    }
}

fn member_summary(db: &Snapshot, m: &Member) -> (r: String)
    ensures
        r@ == member_info(db@, *m),
{
    let mut r = String::from_str("  - ");
    r.append(
        match &m.name {
            Some(n) => n.as_str(),
            None => "<unnamed>",
        },
    );
    push_named(&mut r, db, ": ", m.ty_goff);
    push_number(&mut r, "    - offset: ", m.location, " bytes\n");
    push_aligned(&mut r, "    ", m.alignment);
    if m.artificial {
        r.append("    - artificial\n");
    }
    assert(r@ =~= member_info(db@, *m));
    r
}

fn variant_summary(db: &Snapshot, v: &Variant) -> (r: String)
    ensures
        r@ == variant_info(db@, *v),
{
    let mut r = String::new();
    push_named(&mut r, db, "  - contains type: ", v.member.ty_goff);
    push_number(&mut r, "  - at offset: ", v.member.location, " bytes\n");
    push_aligned(&mut r, "  ", v.member.alignment);
    assert(r@ =~= variant_info(db@, *v));
    r
}

fn push_members_info(out: &mut String, db: &Snapshot, members: &crate::ordered::OrderedMap<Member>)
    ensures
        final(out)@ == old(out)@ + members_info(db@, members@),
{
    let ghost before = out@;
    let n = members.len();
    if n == 0 {
        out.append("- no members\n");
        return ;
    }
    let ghost parts = Seq::new(members@.len(), |i: int| member_info(db@, members@[i].1));
    out.append("- members:\n");
    let mut i: usize = 0;
    proof {
        lemma_concat_step(parts, 0);
        assert(out@ =~= before + "- members:\n"@ + concat(parts.take(0)));
    }
    while i < n
        invariant
            i <= n,
            n == members@.len(),
            parts == Seq::new(members@.len(), |i: int| member_info(db@, members@[i].1)),
            out@ == before + "- members:\n"@ + concat(parts.take(i as int)),
        decreases n - i,
    {
        proof {
            lemma_concat_step(parts, i as int);
        }
        let line = member_summary(db, members.value_at(i));
        out.append(line.as_str());
        assert(out@ =~= before + "- members:\n"@ + concat(parts.take(i + 1)));
        i = i + 1;
    }
    proof {
        lemma_concat_step(parts, 0);
        assert(out@ =~= before + members_info(db@, members@));
    }
}

fn push_variants_info(out: &mut String, db: &Snapshot, variants: &VariantMap)
    ensures
        final(out)@ == old(out)@ + variants_info(db@, *variants),
{
    let ghost before = out@;
    let ghost parts = Seq::new(
        variants.explicit@.len(),
        |i: int| explicit_info(db@, variants.explicit@[i].0, variants.explicit@[i].1),
    );
    let n = variants.explicit.len();
    let mut i: usize = 0;
    proof {
        assert(parts.take(0) =~= Seq::empty());
        assert(out@ =~= before + concat(parts.take(0)));
    }
    while i < n
        invariant
            i <= n,
            n == variants.explicit@.len(),
            parts == Seq::new(
                variants.explicit@.len(),
                |i: int| explicit_info(db@, variants.explicit@[i].0, variants.explicit@[i].1),
            ),
            out@ == before + concat(parts.take(i as int)),
        decreases n - i,
    {
        proof {
            lemma_concat_step(parts, i as int);
        }
        let mut line = String::new();
        push_number(&mut line, "- when discriminator == ", variants.explicit.key_at(i), "\n");
        let body = variant_summary(db, variants.explicit.value_at(i));
        line.append(body.as_str());
        assert(line@ =~= parts[i as int]);
        out.append(line.as_str());
        assert(out@ =~= before + concat(parts.take(i + 1)));
        i = i + 1;
    }
    assert(parts.take(n as int) =~= parts);
    match &variants.fallback {
        Some(v) => {
            out.append("- any other discriminator value\n");
            let body = variant_summary(db, v);
            out.append(body.as_str());
            assert(out@ =~= before + variants_info(db@, *variants));
        },
        None => {
            assert(out@ =~= before + variants_info(db@, *variants));
        },
    }
}

fn single_summary(db: &Snapshot, v: &Variant) -> (r: String)
    ensures
        r@ == single_info(db@, *v),
{
    let mut r = String::from_str("- single variant enum w/o discriminator\n");
    push_named(&mut r, db, "  - content type: ", v.member.ty_goff);
    push_number(&mut r, "  - offset: ", v.member.location, " bytes\n");
    push_aligned(&mut r, "  ", v.member.alignment);
    push_oddly(&mut r, v.member.artificial);
    assert(r@ =~= single_info(db@, *v));
    r
}

fn discriminant_summary(db: &Snapshot, member: &Member, variants: &VariantMap) -> (r: String)
    ensures
        r@ == discriminant_line(db@, *member, *variants),
{
    let mut r = String::from_str("- ");
    let count = format_count(variants.count());
    r.append(count.as_str());
    r.append(" variants discriminated by ");
    r.append(
        match db.name_from_goff(member.ty_goff) {
            Some(n) => n,
            None => "an anonymous type",
        },
    );
    push_number(&mut r, " at offset ", member.location, "\n");
    assert(r@ =~= discriminant_line(db@, *member, *variants));
    r
}

fn push_shape_info(out: &mut String, db: &Snapshot, shape: &VariantShape)
    ensures
        final(out)@ == old(out)@ + shape_info(db@, *shape),
{
    let ghost before = out@;
    match shape {
        VariantShape::Zero => {
            out.append("- empty (uninhabited) enum\n");
        },
        VariantShape::One(v) => {
            let text = single_summary(db, v);
            out.append(text.as_str());
        },
        VariantShape::Many { member, variants } => {
            let line = discriminant_summary(db, member, variants);
            out.append(line.as_str());
            push_oddly(out, member.artificial);
            push_variants_info(out, db, variants);
            assert(out@ =~= before + shape_info(db@, *shape));
        },
    }
}

fn cenum_summary(c: &CEnum) -> (r: String)
    ensures
        r@ == cenum_info(*c),
{
    let ghost parts = Seq::new(
        c.enumerators@.len(),
        |i: int| enumerator_info(c.enumerators@[i].1),
    );
    let mut out = String::from_str("C-like enum type\n");
    push_number(&mut out, "- byte size: ", c.byte_size, "\n");
    push_number(&mut out, "- alignment: ", c.alignment, "\n");
    let n = c.enumerators.len();
    out.append("- ");
    let count = format_count(n as u128);
    out.append(count.as_str());
    out.append(" values defined\n");
    let ghost head = out@;
    let mut i: usize = 0;
    proof {
        assert(parts.take(0) =~= Seq::empty());
        assert(out@ =~= head + concat(parts.take(0)));
    }
    while i < n
        invariant
            i <= n,
            n == c.enumerators@.len(),
            parts == Seq::new(
                c.enumerators@.len(),
                |i: int| enumerator_info(c.enumerators@[i].1),
            ),
            out@ == head + concat(parts.take(i as int)),
        decreases n - i,
    {
        proof {
            lemma_concat_step(parts, i as int);
        }
        let e = c.enumerators.value_at(i);
        let mut line = String::from_str("  - ");
        line.append(e.name.as_str());
        line.append(" = 0x");
        let digits = format_hex(e.const_value);
        line.append(digits.as_str());
        line.append("\n");
        assert(line@ =~= parts[i as int]);
        out.append(line.as_str());
        assert(out@ =~= head + concat(parts.take(i + 1)));
        i = i + 1;
    }
    assert(parts.take(n as int) =~= parts);
    assert(out@ =~= cenum_info(*c));
    out
}

/// The summary of `ty`.
pub fn info(db: &Snapshot, ty: &Type) -> (r: String)
    ensures
        r@ == info_text(db@, *ty),
{
    match ty {
        Type::Base(b) => {
            let mut out = String::from_str("base type\n");
            out.append("- encoding: ");
            out.append(encoding_label(b.encoding));
            out.append("\n");
            push_number(&mut out, "- byte size: ", b.byte_size, "\n");
            assert(out@ =~= info_text(db@, *ty));
            out
        },
        Type::Pointer(p) => {
            let mut out = String::from_str("pointer type\n");
            push_named(&mut out, db, "- points to: ", p.ty_goff);
            assert(out@ =~= info_text(db@, *ty));
            out
        },
        Type::Array(a) => {
            let mut out = String::from_str("array type\n");
            push_named(&mut out, db, "- element type: ", a.element_ty_goff);
            push_number(&mut out, "- lower bound: ", a.lower_bound, "\n");
            match a.count {
                Some(n) => push_number(&mut out, "- count: ", n, "\n"),
                None => out.append("- size not given\n"),
            }
            assert(out@ =~= info_text(db@, *ty));
            out
        },
        Type::Struct(s) => {
            let mut out = if s.tuple_like {
                String::from_str("struct type (tuple-like)\n")
            } else {
                String::from_str("struct type\n")
            };
            push_number(&mut out, "- byte size: ", s.byte_size, "\n");
            push_alignment(&mut out, s.alignment);
            push_params_info(
                &mut out,
                db,
                &s.template_type_parameters,
                "- template type parameters:\n",
            );
            push_members_info(&mut out, db, &s.members);
            assert(out@ =~= struct_info(db@, *s));
            out
        },
        Type::Enum(e) => {
            let mut out = String::from_str("enum type\n");
            push_number(&mut out, "- byte size: ", e.byte_size, "\n");
            push_alignment(&mut out, e.alignment);
            push_params_info(&mut out, db, &e.template_type_parameters, "- type parameters:\n");
            push_shape_info(&mut out, db, &e.variant_part.shape);
            assert(out@ =~= enum_info(db@, *e));
            out
        },
        Type::CEnum(c) => cenum_summary(c),
        Type::Union(_) => String::new(),
        Type::Subroutine(_) => String::new(),
    }
}

} // verus!
