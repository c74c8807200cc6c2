//! Global offsets: the addresses by which type entries are found, their
//! canonical text, and the reading of a query's argument as a name or an
//! offset.

use vstd::prelude::*;
use crate::num::{format_hex8, hex8_text, lemma_parse_hex8, parse_number, parse_radix};
use crate::text::{chars_of, ends_with, has_prefix, has_suffix, starts_with};

verus! {

/// The section of the debug information that an offset counts from.
#[derive(Clone, Copy, Debug, PartialEq, Eq, Structural, Hash)]
pub enum Section {
    /// The primary information section.
    DebugInfo,
    /// The auxiliary types section.
    DebugTypes,
}

/// The address of one type entry: a section and an offset into it. Two
/// offsets are equal exactly when they name the same entry.
#[derive(Clone, Copy, Debug, PartialEq, Eq, Structural, Hash)]
pub struct Goff {
    pub section: Section,
    pub offset: u64,
}

/// What stands before the digits in the text of an offset into `section`.
pub open spec fn section_lead(section: Section) -> Seq<char> {
    match section {
        Section::DebugInfo => "<.debug_info+0x"@,
        Section::DebugTypes => "<.debug_types+0x"@,
    }
}

/// The canonical text of an offset: the section's name, the offset in
/// lowercase hexadecimal padded to eight digits, in angle brackets.
pub open spec fn goff_text(g: Goff) -> Seq<char> {
    section_lead(g.section) + hex8_text(g.offset as nat) + ">"@
}

/// A query's argument, read: the name of a type, or the offset of one.
pub enum ParsedName {
    Name(Seq<char>),
    Goff(Goff),
}

/// Why a query's argument was refused.
pub enum NameFault {
    /// It has the shape of an offset, but these are not hexadecimal digits
    /// of a number that fits.
    BadHex(Seq<char>),
    /// It begins as an offset does, but it does not end with `>` or names
    /// a section that is not known.
    BadReference(Seq<char>),
}

/// How a query's argument is read. A text that begins with `<.debug_` is
/// an offset and must be a well-formed one: it ends with `>`, names one of
/// the two sections, and holds hexadecimal digits of a number that fits.
/// Every text without that lead is a name.
pub open spec fn parsed_name(s: Seq<char>) -> Result<ParsedName, NameFault> {
    if !has_prefix(s, "<.debug_"@) {
        Ok(ParsedName::Name(s))
    } else if !has_suffix(s, ">"@) {
        Err(NameFault::BadReference(s))
    } else {
        let rest = s.skip("<.debug_"@.len() as int);
        if has_prefix(rest, "info+0x"@) {
            let digits = rest.subrange("info+0x"@.len() as int, rest.len() - 1);
            match parse_radix(digits, 16) {
                Some(offset) => Ok(ParsedName::Goff(Goff { section: Section::DebugInfo, offset })),
                None => Err(NameFault::BadHex(digits)),
            }
        } else if has_prefix(rest, "types+0x"@) {
            let digits = rest.subrange("types+0x"@.len() as int, rest.len() - 1);
            match parse_radix(digits, 16) {
                Some(offset) => Ok(
                    ParsedName::Goff(Goff { section: Section::DebugTypes, offset }),
                ),
                None => Err(NameFault::BadHex(digits)),
            }
        } else {
            Err(NameFault::BadReference(s))
        }
    }
}

/// A query's argument, read.
#[derive(Debug)]
pub enum ParsedTypeName {
    Name(String),
    Goff(Goff),
}

impl View for ParsedTypeName {
    type V = ParsedName;

    open spec fn view(&self) -> ParsedName {
        match self {
            ParsedTypeName::Name(n) => ParsedName::Name(n@),
            ParsedTypeName::Goff(g) => ParsedName::Goff(*g),
        }
    }
}

/// Why a query's argument was refused, with the text at fault.
#[derive(Debug)]
pub enum ParseError {
    BadHex(String),
    BadReference(String),
}

impl View for ParseError {
    type V = NameFault;

    open spec fn view(&self) -> NameFault {
        match self {
            ParseError::BadHex(t) => NameFault::BadHex(t@),
            ParseError::BadReference(t) => NameFault::BadReference(t@),
        }
    }
}

/// The line that reports a refused argument.
pub open spec fn fault_text(fault: NameFault) -> Seq<char> {
    match fault {
        NameFault::BadHex(digits) => "can't parse "@ + digits + " as hex"@,
        NameFault::BadReference(s) => "bad offset reference: "@ + s,
    }
}

impl ParseError {
    /// The line that reports this error.
    pub fn message(&self) -> (r: String)
        ensures
            r@ == fault_text(self@),
    {
        match self {
            ParseError::BadHex(digits) => {
                let mut r = String::from_str("can't parse ");
                r.append(digits.as_str());
                r.append(" as hex");
                r
            },
            ParseError::BadReference(s) => {
                let mut r = String::from_str("bad offset reference: ");
                r.append(s.as_str());
                r
            },
        }
    }
}

/// The view of a reading, whichever way it went.
pub open spec fn reading_view(r: Result<ParsedTypeName, ParseError>) -> Result<
    ParsedName,
    NameFault,
> {
    match r {
        Ok(p) => Ok(p@),
        Err(e) => Err(e@),
    }
}

impl Goff {
    /// The canonical text of this offset.
    pub fn text(&self) -> (r: String)
        ensures
            r@ == goff_text(*self),
    {
        let mut r = match self.section {
            Section::DebugInfo => String::from_str("<.debug_info+0x"),
            Section::DebugTypes => String::from_str("<.debug_types+0x"),
        };
        let digits = format_hex8(self.offset);
        r.append(digits.as_str());
        r.append(">");
        r
    }
}

/// Reads the digits of an offset: what stands in `rest` between a lead of
/// `lead` characters and the closing bracket.
fn parse_offset(s: &str, rest_from: usize, lead: usize, section: Section) -> (r: Result<
    ParsedTypeName,
    ParseError,
>)
    requires
        rest_from + lead + 1 <= s@.len(),
    ensures
        reading_view(r) == ({
            let rest = s@.skip(rest_from as int);
            let digits = rest.subrange(lead as int, rest.len() - 1);
            match parse_radix(digits, 16) {
                Some(offset) => Ok::<ParsedName, NameFault>(
                    ParsedName::Goff(Goff { section, offset }),
                ),
                None => Err(NameFault::BadHex(digits)),
            }
        }),
{
    let len = s.unicode_len();
    let digits = s.substring_char(rest_from + lead, len - 1);
    assert(digits@ =~= s@.skip(rest_from as int).subrange(
        lead as int,
        s@.skip(rest_from as int).len() - 1,
    ));
    let v = chars_of(digits);
    match parse_number(&v, 16) {
        Some(offset) => Ok(ParsedTypeName::Goff(Goff { section, offset })),
        None => Err(ParseError::BadHex(String::from_str(digits))),
    }
}

/// Reads a query's argument as the name of a type or as the offset of one.
pub fn parse_type_name(s: &str) -> (r: Result<ParsedTypeName, ParseError>)
    ensures
        reading_view(r) == parsed_name(s@),
{
    let v = chars_of(s);
    let open = chars_of("<.debug_");
    let close = chars_of(">");
    if !starts_with(&v, &open) {
        Ok(ParsedTypeName::Name(String::from_str(s)))
    } else if !ends_with(&v, &close) {
        Err(ParseError::BadReference(String::from_str(s)))
    } else {
        let info = chars_of("info+0x");
        let types = chars_of("types+0x");
        let mut rest: Vec<char> = Vec::new();
        let mut i: usize = open.len();
        while i < v.len()
            invariant
                open@.len() <= i <= v@.len(),
                rest@ == v@.subrange(open@.len() as int, i as int),
            decreases v@.len() - i,
        {
            rest.push(v[i]);
            i = i + 1;
            assert(rest@ =~= v@.subrange(open@.len() as int, i as int));
        }
        assert(rest@ =~= s@.skip("<.debug_"@.len() as int));
        proof {
            reveal_strlit(">");
            reveal_strlit("info+0x");
            reveal_strlit("types+0x");
            assert(v@.skip(v@.len() - 1) == ">"@);
            assert(v@.skip(v@.len() - 1)[0] == '>');
            assert(rest@.len() > 0 ==> rest@.last() == '>');
        }
        if starts_with(&rest, &info) {
            proof {
                if rest@.len() == 7 {
                    assert(rest@.take(7)[6] == 'x');
                }
            }
            parse_offset(s, open.len(), info.len(), Section::DebugInfo)
        } else if starts_with(&rest, &types) {
            proof {
                if rest@.len() == 8 {
                    assert(rest@.take(8)[7] == 'x');
                }
            }
            parse_offset(s, open.len(), types.len(), Section::DebugTypes)
        } else {
            Err(ParseError::BadReference(String::from_str(s)))
        }
    }
}

/// Writing an offset and reading the text back gives the offset again.
pub proof fn lemma_goff_round_trip(g: Goff)
    ensures
        parsed_name(goff_text(g)) == Ok::<ParsedName, NameFault>(ParsedName::Goff(g)),
{
    reveal_strlit("<.debug_info+0x");
    reveal_strlit("<.debug_types+0x");
    reveal_strlit("<.debug_");
    reveal_strlit("info+0x");
    reveal_strlit("types+0x");
    reveal_strlit(">");
    let digits = hex8_text(g.offset as nat);
    let s = goff_text(g);
    lemma_parse_hex8(g.offset);
    assert(s.take(8) =~= "<.debug_"@);
    assert(s.skip(s.len() - 1) =~= ">"@);
    let rest = s.skip(8);
    match g.section {
        Section::DebugInfo => {
            assert(rest.take(7) =~= "info+0x"@);
            assert(rest.subrange(7, rest.len() - 1) =~= digits);
        },
        Section::DebugTypes => {
            assert(rest[0] == 't');
            assert(rest.take(7)[0] == 't');
            assert("info+0x"@[0] == 'i');
            assert(rest.take(8) =~= "types+0x"@);
            assert(rest.subrange(8, rest.len() - 1) =~= digits);
        },
    }
}

} // verus!
