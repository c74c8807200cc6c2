//! The type graph: what one decoded type entry holds.
//!
//! Entries refer to one another by global offset, never by ownership, so an
//! entry is a plain value and the graph is the snapshot that holds them.

use vstd::prelude::*;
use crate::goff::Goff;
use crate::ordered::{keys_ascend, OrderedMap};

verus! {

/// How the bits of a base type are read.
#[derive(Clone, Copy, Debug, PartialEq, Eq, Structural)]
pub enum Encoding {
    Unsigned,
    Signed,
    Float,
    Boolean,
    UnsignedChar,
    SignedChar,
    /// An encoding that has no place of its own here.
    Other,
}

/// A primitive type.
#[derive(Debug)]
pub struct Base {
    pub name: String,
    pub encoding: Encoding,
    pub byte_size: u64,
}

/// A pointer. Its name already tells what it points to.
#[derive(Debug)]
pub struct Pointer {
    pub name: String,
    pub ty_goff: Goff,
}

/// An array. Without a count its size is not known.
#[derive(Debug)]
pub struct Array {
    pub element_ty_goff: Goff,
    /// The index of the first element.
    pub lower_bound: u64,
    pub count: Option<u64>,
}

/// A type parameter of a generic type, with the type it stands for.
#[derive(Debug)]
pub struct TemplateTypeParameter {
    pub name: String,
    pub ty_goff: Goff,
}

/// A member of an aggregate. Without a name it is positional.
#[derive(Debug)]
pub struct Member {
    pub name: Option<String>,
    pub ty_goff: Goff,
    /// The byte offset within the aggregate.
    pub location: u64,
    pub alignment: Option<u64>,
    /// Whether the compiler made this member up.
    pub artificial: bool,
}

/// A struct. Its members are keyed by their byte offset and walked in that
/// order.
#[derive(Debug)]
pub struct Struct {
    pub name: String,
    pub byte_size: u64,
    pub alignment: Option<u64>,
    /// Whether the members are positional.
    pub tuple_like: bool,
    pub template_type_parameters: Vec<TemplateTypeParameter>,
    pub members: OrderedMap<Member>,
}

/// One variant of a sum type: the member that holds its payload.
#[derive(Debug)]
pub struct Variant {
    pub member: Member,
}

/// The variants of a sum type by discriminant value. The variants with an
/// explicit value are keyed by it; the fallback, if there is one, stands for
/// every value that is not listed.
#[derive(Debug)]
pub struct VariantMap {
    pub explicit: OrderedMap<Variant>,
    pub fallback: Option<Variant>,
}

/// The entries of a variant map with keys `explicit`: each under its value.
pub open spec fn explicit_entries(explicit: Seq<(u64, Variant)>) -> Seq<(Option<u64>, Variant)> {
    Seq::new(explicit.len(), |i: int| (Some(explicit[i].0), explicit[i].1))
}

/// The entry of the fallback, if there is one.
pub open spec fn fallback_entries(fallback: Option<Variant>) -> Seq<(Option<u64>, Variant)> {
    match fallback {
        Some(v) => seq![(None::<u64>, v)],
        None => Seq::empty(),
    }
}

/// Whether no key occurs twice in `s`: at most one entry has no value, and
/// the values of the others differ from one another.
pub open spec fn variant_keys_differ(s: Seq<(Option<u64>, Variant)>) -> bool {
    forall|i: int, j: int| 0 <= i < j < s.len() ==> s[i].0 != s[j].0
}

/// Whether an entry without a value, if there is one, is the last of `s`.
pub open spec fn fallback_is_last(s: Seq<(Option<u64>, Variant)>) -> bool {
    forall|i: int| 0 <= i < s.len() && (#[trigger] s[i]).0 is None ==> i == s.len() - 1
}

impl View for VariantMap {
    type V = Seq<(Option<u64>, Variant)>;

    /// The entries in the order in which the map is walked: the explicit
    /// values ascending, then the fallback.
    open spec fn view(&self) -> Seq<(Option<u64>, Variant)> {
        explicit_entries(self.explicit@) + fallback_entries(self.fallback)
    }
}

/// In a variant map whose explicit values ascend, no key occurs twice, and
/// the fallback comes last.
pub proof fn lemma_variant_keys(m: VariantMap)
    requires
        keys_ascend(m.explicit@),
    ensures
        variant_keys_differ(m@),
        fallback_is_last(m@),
{
}

impl VariantMap {
    /// The map without variants.
    pub fn new() -> (m: Self)
        ensures
            m@ == Seq::<(Option<u64>, Variant)>::empty(),
    {
        let m = VariantMap { explicit: OrderedMap::new(), fallback: None };
        assert(m@ =~= Seq::empty());
        m
    }

    /// The number of variants. In every map no key occurs twice, and the
    /// fallback comes last.
    pub fn count(&self) -> (n: u128)
        ensures
            n == self@.len(),
            variant_keys_differ(self@),
            fallback_is_last(self@),
    {
        let n = self.explicit.len() as u128;
        proof {
            lemma_variant_keys(*self);
        }
        match &self.fallback {
            Some(_) => n + 1,
            None => n,
        }
    }

    /// Puts `variant` under the discriminant value `key`, or makes it the
    /// fallback where `key` is `None`, in place of the variant that was there.
    pub fn insert(&mut self, key: Option<u64>, variant: Variant)
        ensures
            final(self).explicit@ == (match key {
                Some(k) => crate::ordered::with_entry(old(self).explicit@, k, variant),
                None => old(self).explicit@,
            }),
            final(self).fallback == (match key {
                Some(_) => old(self).fallback,
                None => Some(variant),
            }),
            variant_keys_differ(final(self)@),
            fallback_is_last(final(self)@),
    {
        match key {
            Some(k) => {
                self.explicit.insert(k, variant);
            },
            None => {
                self.fallback = Some(variant);
            },
        }
        let _ = self.explicit.len();
        proof {
            lemma_variant_keys(*self);
        }
    }
}

/// How a sum type is laid out.
#[derive(Debug)]
pub enum VariantShape {
    /// No variants: the type has no values.
    Zero,
    /// One variant and no discriminant.
    One(Variant),
    /// A discriminant member and the variants that its values select.
    Many { member: Member, variants: VariantMap },
}

/// The part of a sum type that varies.
#[derive(Debug)]
pub struct VariantPart {
    pub shape: VariantShape,
}

/// A sum type.
#[derive(Debug)]
pub struct Enum {
    pub name: String,
    pub byte_size: u64,
    pub alignment: Option<u64>,
    pub template_type_parameters: Vec<TemplateTypeParameter>,
    pub variant_part: VariantPart,
}

/// A named constant of a C-style enumeration.
#[derive(Debug)]
pub struct Enumerator {
    pub name: String,
    pub const_value: u64,
}

/// A C-style enumeration. Its enumerators are keyed by their value and walked
/// in that order.
#[derive(Debug)]
pub struct CEnum {
    pub name: String,
    pub byte_size: u64,
    pub alignment: u64,
    pub enumerators: OrderedMap<Enumerator>,
}

/// A union.
#[derive(Debug)]
pub struct Union {
    pub name: String,
    pub members: OrderedMap<Member>,
}

/// The signature of something that can be called.
#[derive(Debug)]
pub struct Subroutine {
    pub formal_parameters: Vec<Goff>,
    pub return_ty_goff: Option<Goff>,
}

/// One type entry.
#[derive(Debug)]
pub enum Type {
    Base(Base),
    Pointer(Pointer),
    Array(Array),
    Struct(Struct),
    Enum(Enum),
    CEnum(CEnum),
    Union(Union),
    Subroutine(Subroutine),
}

/// The name under which a text is declared: the text itself, or nothing
/// where it is empty.
pub open spec fn name_or_none(name: Seq<char>) -> Option<Seq<char>> {
    if name.len() == 0 {
        None
    } else {
        Some(name)
    }
}

/// The name that an entry declares. Arrays and subroutines declare none, and
/// an entry with an empty name is anonymous.
pub open spec fn declared_name(ty: Type) -> Option<Seq<char>> {
    match ty {
        Type::Base(b) => name_or_none(b.name@),
        Type::Pointer(p) => name_or_none(p.name@),
        Type::Struct(s) => name_or_none(s.name@),
        Type::Enum(e) => name_or_none(e.name@),
        Type::CEnum(c) => name_or_none(c.name@),
        Type::Union(u) => name_or_none(u.name@),
        Type::Array(_) => None,
        Type::Subroutine(_) => None,
    }
}

/// The view of an optional text.
pub open spec fn text_view(t: Option<&str>) -> Option<Seq<char>> {
    match t {
        Some(s) => Some(s@),
        None => None,
    }
}

fn non_empty(name: &String) -> (r: Option<&str>)
    ensures
        text_view(r) == name_or_none(name@),
{
    let s = name.as_str();
    if s.unicode_len() == 0 {
        None
    } else {
        Some(s)
    }
}

impl Type {
    /// The name that this entry declares, if it declares one.
    pub fn name(&self) -> (r: Option<&str>)
        ensures
            text_view(r) == declared_name(*self),
    {
        match self {
            Type::Base(b) => non_empty(&b.name),
            Type::Pointer(p) => non_empty(&p.name),
            Type::Struct(s) => non_empty(&s.name),
            Type::Enum(e) => non_empty(&e.name),
            Type::CEnum(c) => non_empty(&c.name),
            Type::Union(u) => non_empty(&u.name),
            Type::Array(_) => None,
            Type::Subroutine(_) => None,
        }
    }
}

} // verus!
