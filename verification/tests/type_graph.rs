use tysh::commands::{
    banner, cmd_addr2line, cmd_list, find_command, help, line_report, parse_address, prompt,
    run_command, run_line, Command, Step,
};
use tysh::goff::{Goff, Section};
use tysh::info::{info, named, named_goff};
use tysh::model::{
    Array, Base, CEnum, Encoding, Enum, Enumerator, Member, Pointer, Struct, Subroutine,
    TemplateTypeParameter, Type, Union, Variant, VariantMap, VariantPart, VariantShape,
};
use tysh::ordered::OrderedMap;
use tysh::query::{
    align_line, answer, cmd_alignof, cmd_def, cmd_info, cmd_sizeof, report, simple_query_cmd,
    size_line, Query,
};
use tysh::render::{definition, encoding_label, primitive};
use tysh::snapshot::{LineRange, LineRow, Snapshot};

fn at(offset: u64) -> Goff {
    Goff { section: Section::DebugInfo, offset }
}

fn base(name: &str, encoding: Encoding, byte_size: u64) -> Type {
    Type::Base(Base { name: name.to_string(), encoding, byte_size })
}

fn member(name: Option<&str>, ty: Goff, location: u64) -> Member {
    Member { name: name.map(|n| n.to_string()), ty_goff: ty, location, alignment: None, artificial: false }
}

fn members(list: Vec<Member>) -> OrderedMap<Member> {
    let mut m = OrderedMap::new();
    for x in list {
        m.insert(x.location, x);
    }
    m
}

fn structure(name: &str, tuple_like: bool, list: Vec<Member>) -> Struct {
    Struct {
        name: name.to_string(),
        byte_size: 8,
        alignment: Some(4),
        tuple_like,
        template_type_parameters: Vec::new(),
        members: members(list),
    }
}

fn param(name: &str, ty: Goff) -> TemplateTypeParameter {
    TemplateTypeParameter { name: name.to_string(), ty_goff: ty }
}

fn sum(name: &str, shape: VariantShape) -> Enum {
    Enum {
        name: name.to_string(),
        byte_size: 8,
        alignment: Some(4),
        template_type_parameters: Vec::new(),
        variant_part: VariantPart { shape },
    }
}

fn named_header(name: &str, goff: &str) -> String {
    format!("\x1b[1m{}\x1b[0m \x1b[2m{}\x1b[0m", name, goff)
}

/// u32 at 0x10, bool at 0x20, Pair at 0x30, a pointer at 0x40, an array of
/// four u32 at 0x50, an array of unknown length at 0x60.
fn small_db() -> Snapshot {
    let mut db = Snapshot::new(8);
    assert!(db.add_type(at(0x10), base("u32", Encoding::Unsigned, 4)));
    assert!(db.add_type(at(0x20), base("bool", Encoding::Boolean, 1)));
    assert!(db.add_type(
        at(0x30),
        Type::Struct(structure(
            "Pair",
            true,
            vec![member(None, at(0x10), 0), member(None, at(0x20), 4)],
        )),
    ));
    assert!(db.add_type(at(0x40), Type::Pointer(Pointer { name: "*const u32".to_string(), ty_goff: at(0x10) })));
    assert!(db.add_type(
        at(0x50),
        Type::Array(Array { element_ty_goff: at(0x10), lower_bound: 0, count: Some(4) }),
    ));
    assert!(db.add_type(
        at(0x60),
        Type::Array(Array { element_ty_goff: at(0x10), lower_bound: 0, count: None }),
    ));
    db
}

fn def_of(db: &Snapshot, ty: &Type) -> String {
    match definition(db, ty) {
        Ok(text) => text,
        Err(e) => panic!("unresolved {:?}", e),
    }
}

#[test]
fn snapshot_finds_entries_by_offset() {
    let db = small_db();
    assert_eq!(db.type_count(), 6);
    assert_eq!(db.pointer_bytes(), 8);
    assert!(matches!(db.type_from_goff(at(0x10)), Some(Type::Base(_))));
    assert!(matches!(db.type_from_goff(at(0x30)), Some(Type::Struct(_))));
    assert!(db.type_from_goff(at(0x11)).is_none());
    assert!(db.type_from_goff(Goff { section: Section::DebugTypes, offset: 0x10 }).is_none());
    assert_eq!(db.goff_at(2), at(0x30));
    assert!(matches!(db.type_at(3), Type::Pointer(_)));
}

#[test]
fn snapshot_holds_each_offset_once() {
    let mut db = small_db();
    assert!(!db.add_type(at(0x10), base("other", Encoding::Signed, 2)));
    assert_eq!(db.type_count(), 6);
    assert_eq!(db.name_from_goff(at(0x10)), Some("u32"));
    assert!(db.add_type(Goff { section: Section::DebugTypes, offset: 0x10 }, base("other", Encoding::Signed, 2)));
    assert_eq!(db.type_count(), 7);
}

#[test]
fn every_offset_has_a_name_or_none() {
    let mut db = small_db();
    assert!(db.add_type(at(0x70), Type::Struct(structure("", false, vec![]))));
    assert!(db.add_type(at(0x80), Type::Subroutine(Subroutine { formal_parameters: vec![], return_ty_goff: None })));
    assert!(db.add_type(at(0x90), Type::Union(Union { name: "U".to_string(), members: OrderedMap::new() })));
    let mut named_count = 0;
    let mut anonymous = 0;
    for i in 0..db.type_count() {
        match db.name_from_goff(db.goff_at(i)) {
            Some(n) => {
                assert!(!n.is_empty());
                assert_eq!(db.type_at(i).name(), Some(n));
                named_count += 1;
            }
            None => anonymous += 1,
        }
    }
    assert_eq!(named_count, 5);
    assert_eq!(anonymous, 4);
    assert_eq!(db.name_from_goff(at(0x10)), Some("u32"));
    assert_eq!(db.name_from_goff(at(0x40)), Some("*const u32"));
    assert_eq!(db.name_from_goff(at(0x50)), None);
    assert_eq!(db.name_from_goff(at(0x70)), None);
    assert_eq!(db.name_from_goff(at(0x80)), None);
    assert_eq!(db.name_from_goff(at(0x90)), Some("U"));
    assert_eq!(db.name_from_goff(at(0x999)), None);
}

#[test]
fn entries_are_found_by_name_in_order() {
    let mut db = small_db();
    assert!(db.add_type(at(0x100), Type::Struct(structure("Pair", false, vec![]))));
    assert!(db.add_type(at(0x08), Type::Struct(structure("Pair", false, vec![]))));
    let found = db.types_by_name("Pair");
    let goffs: Vec<Goff> = found.iter().map(|e| e.0).collect();
    assert_eq!(goffs, vec![at(0x30), at(0x100), at(0x08)]);
    assert!(found.iter().all(|e| e.1.name() == Some("Pair")));
    assert_eq!(db.types_by_name("u32").len(), 1);
    assert_eq!(db.types_by_name("Pai").len(), 0);
    assert_eq!(db.types_by_name("pair").len(), 0);
    assert_eq!(db.types_by_name("").len(), 0);
}

#[test]
fn sizes_of_plain_entries() {
    let db = small_db();
    assert_eq!(base("u32", Encoding::Unsigned, 4).byte_size(&db), Some(4));
    assert_eq!(base("u32", Encoding::Unsigned, 4).alignment(&db), Some(4));
    assert_eq!(db.type_at(3).byte_size(&db), Some(8));
    assert_eq!(db.type_at(3).alignment(&db), Some(8));
    assert_eq!(db.type_at(2).byte_size(&db), Some(8));
    assert_eq!(db.type_at(2).alignment(&db), Some(4));
    let mut s = structure("S", false, vec![]);
    s.alignment = None;
    s.byte_size = 24;
    assert_eq!(Type::Struct(s).alignment(&db), None);
    let mut e = sum("E", VariantShape::Zero);
    e.alignment = None;
    e.byte_size = 3;
    let e = Type::Enum(e);
    assert_eq!(e.byte_size(&db), Some(3));
    assert_eq!(e.alignment(&db), None);
    let c = Type::CEnum(CEnum { name: "C".to_string(), byte_size: 2, alignment: 1, enumerators: OrderedMap::new() });
    assert_eq!(c.byte_size(&db), Some(2));
    assert_eq!(c.alignment(&db), Some(1));
    let u = Type::Union(Union { name: "U".to_string(), members: OrderedMap::new() });
    assert_eq!(u.byte_size(&db), None);
    assert_eq!(u.alignment(&db), None);
    let f = Type::Subroutine(Subroutine { formal_parameters: vec![], return_ty_goff: None });
    assert_eq!(f.byte_size(&db), None);
    assert_eq!(f.alignment(&db), None);
}

#[test]
fn pointer_size_is_that_of_the_program() {
    let db32 = Snapshot::new(4);
    let p = Type::Pointer(Pointer { name: "*mut T".to_string(), ty_goff: at(0x999) });
    assert_eq!(p.byte_size(&db32), Some(4));
    assert_eq!(p.alignment(&db32), Some(4));
    assert_eq!(p.byte_size(&Snapshot::new(8)), Some(8));
}

#[test]
fn array_size_is_element_size_times_count() {
    let db = small_db();
    let array = |count| Type::Array(Array { element_ty_goff: at(0x10), lower_bound: 0, count });
    assert_eq!(array(Some(4)).byte_size(&db), Some(16));
    assert_eq!(array(Some(1)).byte_size(&db), Some(4));
    assert_eq!(array(Some(0)).byte_size(&db), Some(0));
    assert_eq!(array(Some(1000)).byte_size(&db), Some(4000));
    assert_eq!(array(None).byte_size(&db), None);
    assert_eq!(array(Some(4)).alignment(&db), Some(4));
    assert_eq!(array(None).alignment(&db), Some(4));
    assert_eq!(db.type_at(4).byte_size(&db), Some(16));
    assert_eq!(db.type_at(5).byte_size(&db), None);
}

#[test]
fn array_of_arrays_is_followed() {
    let db = small_db();
    let outer = Type::Array(Array { element_ty_goff: at(0x50), lower_bound: 0, count: Some(3) });
    assert_eq!(outer.byte_size(&db), Some(48));
    assert_eq!(outer.alignment(&db), Some(4));
    let of_unsized = Type::Array(Array { element_ty_goff: at(0x60), lower_bound: 0, count: Some(3) });
    assert_eq!(of_unsized.byte_size(&db), None);
    assert_eq!(of_unsized.alignment(&db), Some(4));
    let of_pointers = Type::Array(Array { element_ty_goff: at(0x40), lower_bound: 0, count: Some(5) });
    assert_eq!(of_pointers.byte_size(&db), Some(40));
}

#[test]
fn array_size_is_unknown_where_it_cannot_be_found() {
    let mut db = small_db();
    let dangling = Type::Array(Array { element_ty_goff: at(0x999), lower_bound: 0, count: Some(3) });
    assert_eq!(dangling.byte_size(&db), None);
    assert_eq!(dangling.alignment(&db), None);
    assert!(db.add_type(at(0x200), base("huge", Encoding::Unsigned, u64::MAX)));
    let too_big = Type::Array(Array { element_ty_goff: at(0x200), lower_bound: 0, count: Some(2) });
    assert_eq!(too_big.byte_size(&db), None);
    let just_fits = Type::Array(Array { element_ty_goff: at(0x200), lower_bound: 0, count: Some(1) });
    assert_eq!(just_fits.byte_size(&db), Some(u64::MAX));
    assert!(db.add_type(
        at(0x300),
        Type::Array(Array { element_ty_goff: at(0x300), lower_bound: 0, count: Some(2) }),
    ));
    assert_eq!(db.type_at(db.type_count() - 1).byte_size(&db), None);
    assert_eq!(db.type_at(db.type_count() - 1).alignment(&db), None);
}

#[test]
fn long_chain_of_arrays_is_followed_to_its_end() {
    let mut db = Snapshot::new(8);
    assert!(db.add_type(at(0), base("u8", Encoding::Unsigned, 1)));
    for i in 1..20u64 {
        assert!(db.add_type(
            at(i),
            Type::Array(Array { element_ty_goff: at(i - 1), lower_bound: 0, count: Some(2) }),
        ));
    }
    assert_eq!(db.type_at(19).byte_size(&db), Some(1 << 19));
    let top = Type::Array(Array { element_ty_goff: at(19), lower_bound: 0, count: Some(2) });
    assert_eq!(top.byte_size(&db), Some(1 << 20));
    assert_eq!(top.alignment(&db), Some(1));
}

#[test]
fn primitive_round_trip() {
    assert_eq!(primitive(Encoding::Unsigned, 4), "u32");
    assert_eq!(primitive(Encoding::Float, 8), "f64");
    assert_eq!(primitive(Encoding::Boolean, 1), "bool");
    let db = small_db();
    assert_eq!(def_of(&db, &base("u32", Encoding::Unsigned, 4)), "type _ = u32;\n");
    assert_eq!(def_of(&db, &base("f64", Encoding::Float, 8)), "type _ = f64;\n");
    assert_eq!(def_of(&db, &base("bool", Encoding::Boolean, 1)), "type _ = bool;\n");
}

#[test]
fn primitives_of_the_table() {
    let table = [
        (Encoding::Unsigned, 1, "u8"),
        (Encoding::Unsigned, 2, "u16"),
        (Encoding::Unsigned, 4, "u32"),
        (Encoding::Unsigned, 8, "u64"),
        (Encoding::Unsigned, 16, "u128"),
        (Encoding::Signed, 1, "i8"),
        (Encoding::Signed, 2, "i16"),
        (Encoding::Signed, 4, "i32"),
        (Encoding::Signed, 8, "i64"),
        (Encoding::Signed, 16, "i128"),
        (Encoding::Float, 4, "f32"),
        (Encoding::Float, 8, "f64"),
        (Encoding::Boolean, 1, "bool"),
        (Encoding::UnsignedChar, 4, "char"),
        (Encoding::UnsignedChar, 1, "c_uchar"),
        (Encoding::SignedChar, 1, "c_schar"),
    ];
    for (encoding, size, name) in table {
        assert_eq!(primitive(encoding, size), name);
    }
    for encoding in [Encoding::Unsigned, Encoding::Signed, Encoding::Float, Encoding::Boolean, Encoding::UnsignedChar, Encoding::SignedChar, Encoding::Other] {
        assert_eq!(primitive(encoding, 0), "()");
    }
}

#[test]
fn primitives_outside_the_table_are_marked() {
    assert_eq!(primitive(Encoding::Float, 2), "UnhandledFloat2");
    assert_eq!(primitive(Encoding::Unsigned, 3), "UnhandledUnsigned3");
    assert_eq!(primitive(Encoding::Signed, 32), "UnhandledSigned32");
    assert_eq!(primitive(Encoding::Boolean, 4), "UnhandledBoolean4");
    assert_eq!(primitive(Encoding::UnsignedChar, 2), "UnhandledUnsignedChar2");
    assert_eq!(primitive(Encoding::SignedChar, 4), "UnhandledSignedChar4");
    assert_eq!(primitive(Encoding::Other, 8), "UnhandledOther8");
    assert_eq!(encoding_label(Encoding::UnsignedChar), "UnsignedChar");
}

#[test]
fn tuple_struct() {
    let db = small_db();
    assert_eq!(def_of(&db, db.type_at(2)), "struct Pair(\n    u32,\n    bool,\n);\n");
}

#[test]
fn struct_members_come_in_offset_order() {
    let db = small_db();
    let s = structure(
        "Rec",
        false,
        vec![member(Some("flag"), at(0x20), 4), member(None, at(0x40), 8), member(Some("n"), at(0x10), 0)],
    );
    assert_eq!(
        def_of(&db, &Type::Struct(s)),
        "struct Rec {\n    n: u32,\n    flag: bool,\n    ANON: *const u32,\n}\n"
    );
}

#[test]
fn struct_without_members_and_with_parameters() {
    let db = small_db();
    assert_eq!(def_of(&db, &Type::Struct(structure("Unit", false, vec![]))), "struct Unit;\n");
    assert_eq!(def_of(&db, &Type::Struct(structure("Unit", true, vec![]))), "struct Unit;\n");
    let mut s = structure("Wrap", true, vec![member(None, at(0x10), 0)]);
    s.template_type_parameters = vec![param("T", at(0x10)), param("U", at(0x20))];
    assert_eq!(def_of(&db, &Type::Struct(s)), "struct Wrap<T,U,>(\n    u32,\n);\n");
}

#[test]
fn pointers_and_arrays_are_defined_by_name() {
    let db = small_db();
    assert_eq!(def_of(&db, db.type_at(3)), "*const u32\n");
    assert_eq!(def_of(&db, db.type_at(4)), "[u32; 4]\n");
    assert_eq!(def_of(&db, db.type_at(5)), "[u32]\n");
    let u = Type::Union(Union { name: "U".to_string(), members: OrderedMap::new() });
    assert_eq!(def_of(&db, &u), "");
}

#[test]
fn definition_fails_on_a_name_that_does_not_resolve() {
    let db = small_db();
    let missing = Type::Array(Array { element_ty_goff: at(0x999), lower_bound: 0, count: Some(2) });
    assert_eq!(definition(&db, &missing).unwrap_err().goff, at(0x999));
    let anonymous = Type::Array(Array { element_ty_goff: at(0x50), lower_bound: 0, count: None });
    assert_eq!(definition(&db, &anonymous).unwrap_err().goff, at(0x50));
    let s = structure("S", false, vec![member(Some("a"), at(0x10), 0), member(Some("b"), at(0x777), 4)]);
    assert_eq!(definition(&db, &Type::Struct(s)).unwrap_err().goff, at(0x777));
    let f = Subroutine { formal_parameters: vec![at(0x10), at(0x60)], return_ty_goff: None };
    assert_eq!(definition(&db, &Type::Subroutine(f)).unwrap_err().goff, at(0x60));
    let g = Subroutine { formal_parameters: vec![], return_ty_goff: Some(at(0x888)) };
    assert_eq!(definition(&db, &Type::Subroutine(g)).unwrap_err().goff, at(0x888));
    let e = sum("E", VariantShape::One(Variant { member: member(Some("A"), at(0x555), 0) }));
    assert_eq!(definition(&db, &Type::Enum(e)).unwrap_err().goff, at(0x555));
}

#[test]
fn the_first_name_that_does_not_resolve_is_reported() {
    let db = small_db();
    let s = structure(
        "S",
        false,
        vec![member(Some("c"), at(0x703), 8), member(Some("a"), at(0x10), 0), member(Some("b"), at(0x702), 4)],
    );
    assert_eq!(definition(&db, &Type::Struct(s)).unwrap_err().goff, at(0x702));
    let f = Subroutine { formal_parameters: vec![at(0x10), at(0x801), at(0x802)], return_ty_goff: Some(at(0x803)) };
    assert_eq!(definition(&db, &Type::Subroutine(f)).unwrap_err().goff, at(0x801));
    let g = Subroutine { formal_parameters: vec![at(0x10)], return_ty_goff: Some(at(0x803)) };
    assert_eq!(definition(&db, &Type::Subroutine(g)).unwrap_err().goff, at(0x803));
    let mut map = VariantMap::new();
    map.insert(None, Variant { member: member(Some("Z"), at(0x901), 0) });
    map.insert(Some(5), Variant { member: member(Some("B"), at(0x902), 0) });
    map.insert(Some(2), Variant { member: member(Some("A"), at(0x30), 0) });
    let e = sum("E", VariantShape::Many { member: member(None, at(0x10), 0), variants: map });
    assert_eq!(definition(&db, &Type::Enum(e)).unwrap_err().goff, at(0x902));
    let mut db = small_db();
    assert!(db.add_type(
        at(0xa00),
        Type::Struct(structure("Inner", true, vec![member(None, at(0x10), 0), member(None, at(0xa01), 4)])),
    ));
    let one = sum("O", VariantShape::One(Variant { member: member(Some("V"), at(0xa00), 0) }));
    assert_eq!(definition(&db, &Type::Enum(one)).unwrap_err().goff, at(0xa01));
    let mut twice = Snapshot::new(8);
    assert!(twice.add_type(at(1), Type::Struct(structure("Same", false, vec![member(Some("x"), at(0xb01), 0)]))));
    assert!(twice.add_type(at(2), Type::Struct(structure("Same", false, vec![member(Some("x"), at(0xb02), 0)]))));
    assert_eq!(cmd_def(&twice, "Same").unwrap_err().goff, at(0xb01));
}

fn result_db() -> Snapshot {
    let mut db = small_db();
    assert!(db.add_type(
        at(0x100),
        Type::Struct(structure("Ok", true, vec![member(Some("__0"), at(0x10), 4)])),
    ));
    assert!(db.add_type(
        at(0x110),
        Type::Struct(structure("Err", false, vec![member(Some("code"), at(0x10), 4), member(None, at(0x20), 8)])),
    ));
    assert!(db.add_type(at(0x120), Type::Struct(structure("Nothing", false, vec![]))));
    db
}

fn variants(list: Vec<(Option<u64>, &str, u64)>) -> VariantMap {
    let mut m = VariantMap::new();
    for (key, name, ty) in list {
        m.insert(key, Variant { member: member(Some(name), at(ty), 0) });
    }
    m
}

#[test]
fn two_variant_enum_with_fallback() {
    let db = result_db();
    let expected = "enum Result {\n    Ok(\n        u32,\n    ),\n    Err {\n        code: u32,\n        ANON: bool,\n    },\n}\n";
    let first = sum(
        "Result",
        VariantShape::Many {
            member: member(None, at(0x10), 0),
            variants: variants(vec![(Some(0), "Ok", 0x100), (None, "Err", 0x110)]),
        },
    );
    assert_eq!(def_of(&db, &Type::Enum(first)), expected);
    let other_way = sum(
        "Result",
        VariantShape::Many {
            member: member(None, at(0x10), 0),
            variants: variants(vec![(None, "Err", 0x110), (Some(0), "Ok", 0x100)]),
        },
    );
    assert_eq!(def_of(&db, &Type::Enum(other_way)), expected);
}

#[test]
fn variant_map_holds_each_key_once() {
    let mut m = variants(vec![(Some(3), "C", 0x120), (None, "X", 0x120), (Some(1), "A", 0x120), (None, "Y", 0x120), (Some(3), "D", 0x120)]);
    assert_eq!(m.count(), 3);
    assert_eq!(m.explicit.len(), 2);
    assert_eq!(m.explicit.key_at(0), 1);
    assert_eq!(m.explicit.key_at(1), 3);
    assert_eq!(m.explicit.value_at(1).member.name.as_deref(), Some("D"));
    assert_eq!(m.fallback.as_ref().unwrap().member.name.as_deref(), Some("Y"));
    m.insert(Some(0), Variant { member: member(Some("Z"), at(0x120), 0) });
    assert_eq!(m.count(), 4);
    assert_eq!(VariantMap::new().count(), 0);
    let db = result_db();
    let e = sum("E", VariantShape::Many { member: member(None, at(0x10), 0), variants: m });
    assert_eq!(def_of(&db, &Type::Enum(e)), "enum E {\n    Z,\n    A,\n    D,\n    Y,\n}\n");
}

#[test]
fn enums_of_other_shapes() {
    let db = result_db();
    assert_eq!(def_of(&db, &Type::Enum(sum("Never", VariantShape::Zero))), "enum Never {\n}\n");
    let one = sum("Only", VariantShape::One(Variant { member: member(Some("It"), at(0x110), 0) }));
    assert_eq!(
        def_of(&db, &Type::Enum(one)),
        "enum Only {\n    It {\n        code: u32,\n        ANON: bool,\n    },\n}\n"
    );
    let odd = sum("Odd", VariantShape::One(Variant { member: member(None, at(0x10), 0) }));
    assert_eq!(def_of(&db, &Type::Enum(odd)), "enum Odd {\n    ANON(unexpected weirdness),\n}\n");
    let mut generic = sum("Opt", VariantShape::One(Variant { member: member(Some("None"), at(0x120), 0) }));
    generic.template_type_parameters = vec![param("T", at(0x10)), param("E", at(0x20))];
    assert_eq!(def_of(&db, &Type::Enum(generic)), "enum Opt<TE> {\n    None,\n}\n");
}

fn colours() -> CEnum {
    let mut enumerators = OrderedMap::new();
    for (name, value) in [("Blue", 255u64), ("Red", 0), ("Green", 16)] {
        enumerators.insert(value, Enumerator { name: name.to_string(), const_value: value });
    }
    CEnum { name: "Colour".to_string(), byte_size: 1, alignment: 1, enumerators }
}

#[test]
fn c_style_enumerations_list_their_values() {
    let db = small_db();
    assert_eq!(
        def_of(&db, &Type::CEnum(colours())),
        "enum Colour {\n    Red = 0x0,\n    Green = 0x10,\n    Blue = 0xff,\n}\n"
    );
    let empty = CEnum { name: "E".to_string(), byte_size: 1, alignment: 1, enumerators: OrderedMap::new() };
    assert_eq!(def_of(&db, &Type::CEnum(empty)), "enum E {\n}\n");
}

#[test]
fn subroutines_are_defined_as_functions() {
    let db = small_db();
    let tail = "    // code goes here\n    // (this is a subroutine type, _not_ a fn ptr)\n    unimplemented!();\n}\n";
    let f = Subroutine { formal_parameters: vec![at(0x10), at(0x20)], return_ty_goff: Some(at(0x30)) };
    assert_eq!(
        def_of(&db, &Type::Subroutine(f)),
        format!("fn(\n    u32,\n    bool,\n) -> Pair {{\n{}", tail)
    );
    let g = Subroutine { formal_parameters: vec![], return_ty_goff: None };
    assert_eq!(def_of(&db, &Type::Subroutine(g)), format!("fn(\n) {{\n{}", tail));
}

#[test]
fn entries_are_named_for_display() {
    let db = small_db();
    assert_eq!(named_goff(&db, at(0x30)), named_header("Pair", "<.debug_info+0x00000030>"));
    assert_eq!(named_goff(&db, at(0x50)), named_header("<anonymous type>", "<.debug_info+0x00000050>"));
    assert_eq!(named_goff(&db, at(0x999)), named_header("<anonymous type>", "<.debug_info+0x00000999>"));
    assert_eq!(
        named(Some("x"), Goff { section: Section::DebugTypes, offset: 1 }),
        named_header("x", "<.debug_types+0x00000001>")
    );
}

#[test]
fn summaries_of_simple_entries() {
    let db = small_db();
    assert_eq!(info(&db, db.type_at(0)), "base type\n- encoding: Unsigned\n- byte size: 4\n");
    assert_eq!(
        info(&db, db.type_at(3)),
        format!("pointer type\n- points to: {}\n", named_header("u32", "<.debug_info+0x00000010>"))
    );
    assert_eq!(
        info(&db, db.type_at(4)),
        format!(
            "array type\n- element type: {}\n- lower bound: 0\n- count: 4\n",
            named_header("u32", "<.debug_info+0x00000010>")
        )
    );
    assert_eq!(
        info(&db, db.type_at(5)),
        format!(
            "array type\n- element type: {}\n- lower bound: 0\n- size not given\n",
            named_header("u32", "<.debug_info+0x00000010>")
        )
    );
    let u = Type::Union(Union { name: "U".to_string(), members: OrderedMap::new() });
    assert_eq!(info(&db, &u), "");
    let f = Type::Subroutine(Subroutine { formal_parameters: vec![at(0x10)], return_ty_goff: None });
    assert_eq!(info(&db, &f), "");
}

#[test]
fn summary_of_a_struct() {
    let db = small_db();
    let u32_h = named_header("u32", "<.debug_info+0x00000010>");
    let bool_h = named_header("bool", "<.debug_info+0x00000020>");
    assert_eq!(
        info(&db, db.type_at(2)),
        format!(
            "struct type (tuple-like)\n- byte size: 8\n- alignment: 4\n- members:\n  - <unnamed>: {}\n    - offset: 0 bytes\n  - <unnamed>: {}\n    - offset: 4 bytes\n",
            u32_h, bool_h
        )
    );
    let mut m = member(Some("x"), at(0x10), 16);
    m.alignment = Some(8);
    m.artificial = true;
    let mut s = structure("S", false, vec![m]);
    s.alignment = None;
    s.byte_size = 24;
    s.template_type_parameters = vec![param("T", at(0x20))];
    assert_eq!(
        info(&db, &Type::Struct(s)),
        format!(
            "struct type\n- byte size: 24\n- not aligned\n- template type parameters:\n  - T = {}\n- members:\n  - x: {}\n    - offset: 16 bytes\n    - aligned: 8 bytes\n    - artificial\n",
            bool_h, u32_h
        )
    );
    assert_eq!(
        info(&db, &Type::Struct(structure("E", false, vec![]))),
        "struct type\n- byte size: 8\n- alignment: 4\n- no members\n"
    );
}

#[test]
fn summary_of_an_enum() {
    let db = result_db();
    let ok_h = named_header("Ok", "<.debug_info+0x00000100>");
    let err_h = named_header("Err", "<.debug_info+0x00000110>");
    assert_eq!(
        info(&db, &Type::Enum(sum("Never", VariantShape::Zero))),
        "enum type\n- byte size: 8\n- alignment: 4\n- empty (uninhabited) enum\n"
    );
    let mut only = member(Some("It"), at(0x100), 4);
    only.alignment = Some(2);
    let mut one = sum("Only", VariantShape::One(Variant { member: only }));
    one.template_type_parameters = vec![param("T", at(0x110))];
    assert_eq!(
        info(&db, &Type::Enum(one)),
        format!(
            "enum type\n- byte size: 8\n- alignment: 4\n- type parameters:\n  - T = {}\n- single variant enum w/o discriminator\n  - content type: {}\n  - offset: 4 bytes\n  - aligned: 2 bytes\n  - not artificial, oddly\n",
            err_h, ok_h
        )
    );
    let mut tag = member(None, at(0x10), 0);
    tag.artificial = true;
    let many = sum(
        "Result",
        VariantShape::Many {
            member: tag,
            variants: variants(vec![(None, "Err", 0x110), (Some(7), "Ok", 0x100)]),
        },
    );
    assert_eq!(
        info(&db, &Type::Enum(many)),
        format!(
            "enum type\n- byte size: 8\n- alignment: 4\n- 2 variants discriminated by u32 at offset 0\n- when discriminator == 7\n  - contains type: {}\n  - at offset: 0 bytes\n- any other discriminator value\n  - contains type: {}\n  - at offset: 0 bytes\n",
            ok_h, err_h
        )
    );
    let anon = sum(
        "A",
        VariantShape::Many { member: member(None, at(0x50), 2), variants: VariantMap::new() },
    );
    assert_eq!(
        info(&db, &Type::Enum(anon)),
        "enum type\n- byte size: 8\n- alignment: 4\n- 0 variants discriminated by an anonymous type at offset 2\n  - not artificial, oddly\n"
    );
}

#[test]
fn summary_of_a_c_style_enumeration() {
    let db = small_db();
    assert_eq!(
        info(&db, &Type::CEnum(colours())),
        "C-like enum type\n- byte size: 1\n- alignment: 1\n- 3 values defined\n  - Red = 0x0\n  - Green = 0x10\n  - Blue = 0xff\n"
    );
}

#[test]
fn size_and_alignment_lines() {
    assert_eq!(size_line(Some(16)), "16 bytes\n");
    assert_eq!(size_line(None), "unsized\n");
    assert_eq!(align_line(Some(4)), "align to 4 bytes\n");
    assert_eq!(align_line(None), "no alignment information\n");
}

#[test]
fn answers_to_each_query() {
    let db = small_db();
    let pair = db.type_at(2);
    assert_eq!(answer(&db, Query::Sizeof, pair).unwrap(), "8 bytes\n");
    assert_eq!(answer(&db, Query::Alignof, pair).unwrap(), "align to 4 bytes\n");
    assert_eq!(answer(&db, Query::Def, pair).unwrap(), "\nstruct Pair(\n    u32,\n    bool,\n);\n");
    assert_eq!(answer(&db, Query::Info, db.type_at(0)).unwrap(), "base type\n- encoding: Unsigned\n- byte size: 4\n");
    assert_eq!(answer(&db, Query::Sizeof, db.type_at(5)).unwrap(), "unsized\n");
}

fn three_db() -> Snapshot {
    let mut db = small_db();
    let mut a = structure("Same", false, vec![]);
    a.byte_size = 1;
    let mut b = structure("Same", false, vec![]);
    b.byte_size = 2;
    let mut c = structure("Same", false, vec![]);
    c.byte_size = 3;
    assert!(db.add_type(at(0x300), Type::Struct(a)));
    assert!(db.add_type(at(0x100), Type::Struct(b)));
    assert!(db.add_type(at(0x200), Type::Struct(c)));
    db
}

#[test]
fn multiplicity_handling() {
    let db = three_db();
    let out = cmd_sizeof(&db, "Same");
    let h1 = named_header("Same", "<.debug_info+0x00000300>");
    let h2 = named_header("Same", "<.debug_info+0x00000100>");
    let h3 = named_header("Same", "<.debug_info+0x00000200>");
    assert_eq!(
        out,
        format!(
            "\x1b[33mnote: \x1b[0m3 types found with that name:\n\n{}: 1 bytes\n\n{}: 2 bytes\n\n{}: 3 bytes\n",
            h1, h2, h3
        )
    );
    let lines: Vec<&str> = out.lines().collect();
    let headers: Vec<usize> = (0..lines.len()).filter(|&i| lines[i].contains("Same")).collect();
    assert_eq!(headers.len(), 3);
    let blank_between = (headers[0]..headers[2]).filter(|&i| lines[i].is_empty()).count();
    assert_eq!(blank_between, 2);
    let found = db.types_by_name("Same");
    assert_eq!(found.len(), 3);
    assert_eq!(report(&db, Query::Sizeof, &found).unwrap(), out);
}

#[test]
fn one_match_has_a_header_and_no_note() {
    let db = small_db();
    let header = named_header("Pair", "<.debug_info+0x00000030>");
    assert_eq!(cmd_sizeof(&db, "Pair"), format!("{}: 8 bytes\n", header));
    assert_eq!(cmd_sizeof(&db, "  Pair \t"), format!("{}: 8 bytes\n", header));
    assert_eq!(cmd_alignof(&db, "Pair"), format!("{}: align to 4 bytes\n", header));
    assert_eq!(cmd_sizeof(&db, "<.debug_info+0x00000030>"), format!("{}: 8 bytes\n", header));
    assert_eq!(cmd_sizeof(&db, "<.debug_info+0x30>"), format!("{}: 8 bytes\n", header));
    assert_eq!(
        cmd_def(&db, "Pair").unwrap(),
        format!("{}: \nstruct Pair(\n    u32,\n    bool,\n);\n", header)
    );
    assert_eq!(
        cmd_info(&db, "u32"),
        format!("{}: base type\n- encoding: Unsigned\n- byte size: 4\n", named_header("u32", "<.debug_info+0x00000010>"))
    );
    assert_eq!(
        cmd_sizeof(&db, "<.debug_info+0x00000060>"),
        format!("{}: unsized\n", named_header("<anonymous type>", "<.debug_info+0x00000060>"))
    );
}

#[test]
fn no_match_is_reported_and_is_no_failure() {
    let db = small_db();
    let none = "\x1b[31mNo types found.\x1b[0m\n";
    assert_eq!(cmd_sizeof(&db, "Nope"), none);
    assert_eq!(cmd_info(&db, ""), none);
    assert_eq!(cmd_alignof(&db, "<.debug_info+0x00000031>"), none);
    assert_eq!(cmd_def(&db, "<.debug_types+0x00000030>").unwrap(), none);
    assert_eq!(report(&db, Query::Info, &Vec::new()).unwrap(), none);
}

#[test]
fn unreadable_arguments_are_reported() {
    let db = small_db();
    assert_eq!(cmd_sizeof(&db, "<.debug_info+0xzz>"), "can't parse zz as hex\n");
    assert_eq!(cmd_info(&db, " <.debug_nope+0x10> "), "bad offset reference: <.debug_nope+0x10>\n");
    assert_eq!(cmd_def(&db, "<.debug_types+0x>").unwrap(), "can't parse  as hex\n");
    assert_eq!(cmd_sizeof(&db, "<.debug_info+0x00000030"), "bad offset reference: <.debug_info+0x00000030\n");
    assert_eq!(
        simple_query_cmd(&db, "<.debug_info+0x1ffffffffffffffff>", Query::Alignof).unwrap(),
        "can't parse 1ffffffffffffffff as hex\n"
    );
}

#[test]
fn definition_command_fails_on_an_unresolved_name() {
    let mut db = small_db();
    assert!(db.add_type(
        at(0x400),
        Type::Struct(structure("Broken", false, vec![member(Some("x"), at(0x404), 0)])),
    ));
    assert_eq!(cmd_def(&db, "Broken").unwrap_err().goff, at(0x404));
    assert!(cmd_info(&db, "Broken").contains("struct type"));
    assert_eq!(cmd_def(&db, "<.debug_info+0x00000050>").unwrap(), format!("{}: \n[u32; 4]\n", named_header("<anonymous type>", "<.debug_info+0x00000050>")));
}

#[test]
fn list_shows_all_or_those_that_hold_the_argument() {
    let db = small_db();
    let line = |name: &str, goff: &str| format!("{}\n", named_header(name, goff));
    let u32_l = line("u32", "<.debug_info+0x00000010>");
    let bool_l = line("bool", "<.debug_info+0x00000020>");
    let pair_l = line("Pair", "<.debug_info+0x00000030>");
    let ptr_l = line("*const u32", "<.debug_info+0x00000040>");
    let a1 = line("<anonymous type>", "<.debug_info+0x00000050>");
    let a2 = line("<anonymous type>", "<.debug_info+0x00000060>");
    assert_eq!(cmd_list(&db, ""), format!("{}{}{}{}{}{}", u32_l, bool_l, pair_l, ptr_l, a1, a2));
    assert_eq!(cmd_list(&db, "u32"), format!("{}{}{}{}", u32_l, ptr_l, a1, a2));
    assert_eq!(cmd_list(&db, "oo"), format!("{}{}{}", bool_l, a1, a2));
    assert_eq!(cmd_list(&db, "zzz"), format!("{}{}", a1, a2));
    assert_eq!(cmd_list(&Snapshot::new(8), ""), "");
}

fn row(file: &str, line: Option<u64>, column: Option<u64>) -> LineRow {
    LineRow { file: file.to_string(), line, column }
}

fn lines_db() -> Snapshot {
    let mut db = small_db();
    db.add_line_range(LineRange { start: 0x1000, end: 0x1010, row: row("src/main.rs", Some(12), Some(5)) });
    db.add_line_range(LineRange { start: 0x1010, end: 0x1020, row: row("src/lib.rs", Some(7), None) });
    db.add_line_range(LineRange { start: 0x1008, end: 0x1030, row: row("other.rs", None, None) });
    db
}

#[test]
fn addresses_are_looked_up_in_the_line_table() {
    let db = lines_db();
    assert_eq!(db.lookup_line_row(0x1000).unwrap().file, "src/main.rs");
    assert_eq!(db.lookup_line_row(0x100f).unwrap().file, "src/main.rs");
    assert_eq!(db.lookup_line_row(0x1010).unwrap().file, "src/lib.rs");
    assert_eq!(db.lookup_line_row(0x1020).unwrap().file, "other.rs");
    assert!(db.lookup_line_row(0xfff).is_none());
    assert!(db.lookup_line_row(0x1030).is_none());
    assert_eq!(cmd_addr2line(&db, "0x1004"), "src/main.rs:12:5\n");
    assert_eq!(cmd_addr2line(&db, "4112"), "src/lib.rs:7:?\n");
    assert_eq!(cmd_addr2line(&db, "0x102F"), "other.rs:?:?\n");
}

#[test]
fn address_lookup_miss() {
    let db = lines_db();
    assert_eq!(cmd_addr2line(&db, "0x2000"), "no line number information available for address\n");
    assert_eq!(cmd_addr2line(&db, "0"), "no line number information available for address\n");
    assert_eq!(cmd_addr2line(&small_db(), "0x1004"), "no line number information available for address\n");
    assert_eq!(line_report(None), "no line number information available for address\n");
    assert_eq!(line_report(Some(&row("a.c", Some(1), Some(2)))), "a.c:1:2\n");
}

#[test]
fn malformed_address() {
    let db = lines_db();
    assert_eq!(cmd_addr2line(&db, "abc"), "can't parse abc as an address\n");
    assert_eq!(cmd_addr2line(&db, ""), "can't parse  as an address\n");
    assert_eq!(cmd_addr2line(&db, "0x"), "can't parse 0x as an address\n");
    assert_eq!(cmd_addr2line(&db, "0xg"), "can't parse 0xg as an address\n");
    assert_eq!(cmd_addr2line(&db, "1000 "), "can't parse 1000  as an address\n");
    assert_eq!(cmd_addr2line(&db, "0X1000"), "can't parse 0X1000 as an address\n");
    assert_eq!(parse_address("abc"), None);
    assert_eq!(parse_address("0x10"), Some(16));
    assert_eq!(parse_address("10"), Some(10));
    assert_eq!(parse_address("0x+10"), Some(16));
    assert_eq!(parse_address("18446744073709551616"), None);
}

#[test]
fn help_lists_the_commands() {
    assert_eq!(
        help(),
        "commands:\nlist         print names of ALL types, or types containing a string\ninfo         print a summary of a type\ndef          print a type as a pseudo-Rust definition\nsizeof       print size of type in bytes\nalignof      print alignment of type in bytes\naddr2line    look up line number information\n"
    );
    assert_eq!(find_command("list"), Some(Command::List));
    assert_eq!(find_command("addr2line"), Some(Command::Addr2line));
    assert_eq!(find_command("help"), None);
    assert_eq!(find_command("List"), None);
    assert_eq!(find_command(""), None);
}

fn printed(step: Step) -> String {
    match step {
        Step::Print(text) => text,
        other => panic!("{:?}", other),
    }
}

#[test]
fn lines_of_input_are_dispatched() {
    let db = lines_db();
    assert!(matches!(run_line(&db, ""), Step::Skip));
    assert!(matches!(run_line(&db, "   \t"), Step::Skip));
    assert!(matches!(run_line(&db, "exit"), Step::Exit));
    assert!(matches!(run_line(&db, "  exit now "), Step::Exit));
    assert_eq!(printed(run_line(&db, "help")), help());
    assert_eq!(printed(run_line(&db, "frob x")), "unknown command: frob\nfor help, try: help\n");
    assert_eq!(printed(run_line(&db, "exits")), "unknown command: exits\nfor help, try: help\n");
    assert_eq!(printed(run_line(&db, "sizeof Pair")), cmd_sizeof(&db, "Pair"));
    assert_eq!(printed(run_line(&db, " sizeof\tPair ")), cmd_sizeof(&db, "Pair"));
    assert_eq!(printed(run_line(&db, "alignof Pair")), cmd_alignof(&db, "Pair"));
    assert_eq!(printed(run_line(&db, "info u32")), cmd_info(&db, "u32"));
    assert_eq!(printed(run_line(&db, "def Pair")), cmd_def(&db, "Pair").unwrap());
    assert_eq!(printed(run_line(&db, "list")), cmd_list(&db, ""));
    assert_eq!(printed(run_line(&db, "list oo")), cmd_list(&db, "oo"));
    match run_line(&db, "addr2line 0x1004") {
        Step::Lookup(address) => {
            assert_eq!(address, 0x1004);
            assert_eq!(line_report(db.lookup_line_row(address)), "src/main.rs:12:5\n");
        }
        other => panic!("{:?}", other),
    }
    assert!(matches!(run_line(&db, "addr2line 77"), Step::Lookup(77)));
    assert_eq!(printed(run_line(&db, "addr2line abc")), "can't parse abc as an address\n");
    assert_eq!(printed(run_line(&db, "addr2line")), "can't parse  as an address\n");
    assert_eq!(printed(run_line(&db, "addr2line  0x1004")), "can't parse  0x1004 as an address\n");
    assert_eq!(printed(run_line(&db, "sizeof")), "\x1b[31mNo types found.\x1b[0m\n");
    assert_eq!(printed(run_command(&db, Command::Sizeof, "Pair")), cmd_sizeof(&db, "Pair"));
}

#[test]
fn a_definition_that_fails_aborts_the_line() {
    let mut db = small_db();
    assert!(db.add_type(
        at(0x400),
        Type::Struct(structure("Broken", false, vec![member(Some("x"), at(0x404), 0)])),
    ));
    match run_line(&db, "def Broken") {
        Step::Abort(e) => assert_eq!(e.goff, at(0x404)),
        other => panic!("{:?}", other),
    }
}

#[test]
fn prompt_and_banner() {
    assert_eq!(prompt(), "\x1b[32m>> \x1b[0m");
    assert_eq!(banner(&small_db()), "Loaded; 6 types found in program.\nTo quit: ^D or exit\n");
    assert_eq!(banner(&Snapshot::new(4)), "Loaded; 0 types found in program.\nTo quit: ^D or exit\n");
}
