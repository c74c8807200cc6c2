//! Queries: the commands that take the name or the offset of a type and say
//! something of each entry that it stands for.

use vstd::prelude::*;
use crate::goff::{fault_text, parse_type_name, parsed_name, Goff, ParsedName, ParsedTypeName};
use crate::info::{info, info_text, named_goff, named_goff_text};
use crate::model::Type;
use crate::num::{dec_text, format_count, format_dec};
use crate::render::{def_text, definition, renders, wrap, Rendered, Unresolved};
use crate::snapshot::{Snapshot, SnapshotView};
use crate::style::{tinted, tinted_text, Tint};
use crate::text::{concat_all, lemma_concat_all_prefix, lemma_concat_all_step, trim, trim_text};

verus! {

/// What a query asks of an entry.
#[derive(Clone, Copy, Debug, PartialEq, Eq, Structural)]
pub enum Query {
    /// A summary, field by field.
    Info,
    /// A definition in the manner of source code.
    Def,
    /// The size in bytes.
    Sizeof,
    /// The alignment in bytes.
    Alignof,
}

/// The line that states a size, or that there is none.
pub open spec fn size_answer(size: Option<u64>) -> Seq<char> {
    match size {
        Some(n) => dec_text(n as nat) + " bytes\n"@,
        None => "unsized\n"@,
    }
}

/// The line that states an alignment, or that there is none.
pub open spec fn align_answer(alignment: Option<u64>) -> Seq<char> {
    match alignment {
        Some(n) => "align to "@ + dec_text(n as nat) + " bytes\n"@,
        None => "no alignment information\n"@,
    }
}

/// What `query` says of the entry `ty`. Only a definition can be missing.
pub open spec fn answer_text(view: SnapshotView, query: Query, ty: Type) -> Rendered {
    match query {
        Query::Info => Ok(info_text(view, ty)),
        Query::Def => wrap("\n"@, def_text(view, ty), Seq::empty()),
        Query::Sizeof => Ok(size_answer(view.size_of(ty))),
        Query::Alignof => Ok(align_answer(view.align_of(ty))),
    }
}

/// One entry of the result: a blank line where there are several entries,
/// the entry named for display as a header, and the answer.
pub open spec fn entry_text(
    view: SnapshotView,
    query: Query,
    many: bool,
    goff: Goff,
    ty: Type,
) -> Rendered {
    let blank = if many {
        "\n"@
    } else {
        Seq::empty()
    };
    wrap(blank + named_goff_text(view, goff) + ": "@, answer_text(view, query, ty), Seq::empty())
}

/// The entries that an argument stands for: every entry of the name, in the
/// snapshot's order, or the entry under the offset, if there is one.
pub open spec fn matches_of(view: SnapshotView, parsed: ParsedName) -> Seq<(Goff, Type)> {
    match parsed {
        ParsedName::Name(n) => view.types_by_name(n),
        ParsedName::Goff(g) => match view.type_from_goff(g) {
            Some(ty) => seq![(g, ty)],
            None => Seq::empty(),
        },
    }
}

/// The note that stands before several entries.
pub open spec fn note_text(count: nat) -> Seq<char> {
    tinted_text(Tint::Yellow, "note: "@) + dec_text(count) + " types found with that name:\n"@
}

/// The line that reports that nothing was found.
pub open spec fn none_found_text() -> Seq<char> {
    tinted_text(Tint::Red, "No types found."@) + "\n"@
}

/// What `query` says of the entries `found`: that there are none; or the
/// one entry; or a note with their number and then each of them in order,
/// with a blank line before it.
pub open spec fn found_text(view: SnapshotView, query: Query, found: Seq<(Goff, Type)>) -> Rendered {
    if found.len() == 0 {
        Ok(none_found_text())
    } else {
        let many = found.len() > 1;
        let head = if many {
            note_text(found.len())
        } else {
            Seq::empty()
        };
        wrap(
            head,
            concat_all(
                Seq::new(
                    found.len(),
                    |i: int| entry_text(view, query, many, found[i].0, found[i].1),
                ),
            ),
            Seq::empty(),
        )
    }
}

/// What a query command prints for the argument `args`: the report of an
/// argument that cannot be read, or what the query says of the entries that
/// the argument stands for. White space around the argument does not count.
pub open spec fn query_text(view: SnapshotView, query: Query, args: Seq<char>) -> Rendered {
    match parsed_name(trim_text(args)) {
        Ok(parsed) => found_text(view, query, matches_of(view, parsed)),
        Err(fault) => Ok(fault_text(fault) + "\n"@),
    }
}

/// The line that states the size `size`.
pub fn size_line(size: Option<u64>) -> (r: String)
    ensures
        r@ == size_answer(size),
{
    match size {
        Some(n) => {
            let mut r = format_dec(n);
            r.append(" bytes\n");
            r
        },
        None => String::from_str("unsized\n"),
    }
}

/// The line that states the alignment `alignment`.
pub fn align_line(alignment: Option<u64>) -> (r: String)
    ensures
        r@ == align_answer(alignment),
{
    match alignment {
        Some(n) => {
            let mut r = String::from_str("align to ");
            let digits = format_dec(n);
            r.append(digits.as_str());
            r.append(" bytes\n");
            r
        },
        None => String::from_str("no alignment information\n"),
    }
}

/// What `query` says of the entry `ty`.
pub fn answer(db: &Snapshot, query: Query, ty: &Type) -> (r: Result<String, Unresolved>)
    ensures
        renders(db@, r, answer_text(db@, query, *ty)),
        query != Query::Def ==> r is Ok,
{
    match query {
        Query::Info => Ok(info(db, ty)),
        Query::Def => match definition(db, ty) {
            Ok(text) => {
                let mut r = String::from_str("\n");
                r.append(text.as_str());
                assert(r@ =~= "\n"@ + text@ + Seq::<char>::empty());
                Ok(r)
            },
            Err(e) => Err(e),
        },
        Query::Sizeof => Ok(size_line(ty.byte_size(db))),
        Query::Alignof => Ok(align_line(ty.alignment(db))),
    }
}

/// The entries that `found` refers to.
pub open spec fn entries_of(found: Seq<(Goff, &Type)>) -> Seq<(Goff, Type)> {
    Seq::new(found.len(), |i: int| (found[i].0, *found[i].1))
}

/// What `query` says of the entries `found`.
pub fn report(db: &Snapshot, query: Query, found: &Vec<(Goff, &Type)>) -> (r: Result<
    String,
    Unresolved,
>)
    ensures
        renders(db@, r, found_text(db@, query, entries_of(found@))),
        query != Query::Def ==> r is Ok,
{
    let ghost entries = entries_of(found@);
    let n = found.len();
    if n == 0 {
        let mut out = tinted(Tint::Red, "No types found.");
        out.append("\n");
        return Ok(out);
    }
    let many = n > 1;
    let ghost parts = Seq::new(
        entries.len(),
        |i: int| entry_text(db@, query, many, entries[i].0, entries[i].1),
    );
    let mut out = String::new();
    if many {
        out = tinted(Tint::Yellow, "note: ");
        let count = format_count(n as u128);
        out.append(count.as_str());
        out.append(" types found with that name:\n");
    }
    let ghost head = out@;
    let mut i: usize = 0;
    proof {
        assert(parts.take(0) =~= Seq::empty());
        assert(out@ =~= head + concat_all(parts.take(0))->Ok_0);
    }
    while i < n
        invariant
            i <= n,
            n == found@.len(),
            many == (n > 1),
            entries == entries_of(found@),
            parts == Seq::new(
                entries.len(),
                |i: int| entry_text(db@, query, many, entries[i].0, entries[i].1),
            ),
            concat_all(parts.take(i as int)) is Ok,
            out@ == head + concat_all(parts.take(i as int))->Ok_0,
        decreases n - i,
    {
        proof {
            lemma_concat_all_step(parts, i as int);
        }
        let goff = found[i].0;
        let ty = found[i].1;
        let mut entry = if many {
            String::from_str("\n")
        } else {
            String::new()
        };
        let header = named_goff(db, goff);
        entry.append(header.as_str());
        entry.append(": ");
        match answer(db, query, ty) {
            Ok(text) => {
                entry.append(text.as_str());
                assert(Ok::<Seq<char>, Goff>(entry@) =~= parts[i as int]);
                out.append(entry.as_str());
                assert(out@ =~= head + concat_all(parts.take(i + 1))->Ok_0);
            },
            Err(e) => {
                proof {
                    lemma_concat_all_prefix(parts, i + 1);
                }
                return Err(e);
            },
        }
        i = i + 1;
    }
    proof {
        assert(parts.take(n as int) =~= parts);
        assert(out@ =~= head + concat_all(parts)->Ok_0 + Seq::<char>::empty());
    }
    Ok(out)
}

/// Answers a query command: reads the argument as a name or an offset,
/// finds the entries that it stands for, and says of each what `query`
/// asks. Only a definition can fail, on a name that does not resolve.
pub fn simple_query_cmd(db: &Snapshot, args: &str, query: Query) -> (r: Result<
    String,
    Unresolved,
>)
    ensures
        renders(db@, r, query_text(db@, query, args@)),
        query != Query::Def ==> r is Ok,
{
    let wanted = trim(args);
    match parse_type_name(wanted) {
        Err(e) => {
            let mut out = e.message();
            out.append("\n");
            Ok(out)
        },
        Ok(ParsedTypeName::Name(n)) => {
            let found = db.types_by_name(n.as_str());
            assert(entries_of(found@) =~= db@.types_by_name(n@));
            report(db, query, &found)
        },
        Ok(ParsedTypeName::Goff(g)) => {
            let mut found: Vec<(Goff, &Type)> = Vec::new();
            match db.type_from_goff(g) {
                Some(ty) => {
                    found.push((g, ty));
                    assert(entries_of(found@) =~= seq![(g, *ty)]);
                },
                None => {
                    assert(entries_of(found@) =~= Seq::empty());
                },
            }
            report(db, query, &found)
        },
    }
}

/// The text of an outcome that cannot fail.
fn certain(r: Result<String, Unresolved>) -> (text: String)
    requires
        r is Ok,
    ensures
        r == Ok::<String, Unresolved>(text),
{
    match r {
        Ok(text) => text,
        Err(_) => String::new(),
    }
}

/// The command `info`: a summary of each entry that the argument stands for.
pub fn cmd_info(db: &Snapshot, args: &str) -> (r: String)
    ensures
        query_text(db@, Query::Info, args@) == Ok::<Seq<char>, Goff>(r@),
{
    certain(simple_query_cmd(db, args, Query::Info))
}

/// The command `sizeof`: the size in bytes of each entry that the argument
/// stands for, or that it is unsized.
pub fn cmd_sizeof(db: &Snapshot, args: &str) -> (r: String)
    ensures
        query_text(db@, Query::Sizeof, args@) == Ok::<Seq<char>, Goff>(r@),
{
    certain(simple_query_cmd(db, args, Query::Sizeof))
}

/// The command `alignof`: the alignment in bytes of each entry that the
/// argument stands for, or that none is known.
pub fn cmd_alignof(db: &Snapshot, args: &str) -> (r: String)
    ensures
        query_text(db@, Query::Alignof, args@) == Ok::<Seq<char>, Goff>(r@),
{
    certain(simple_query_cmd(db, args, Query::Alignof))
}

/// The command `def`: the definition of each entry that the argument stands
/// for. It fails where a definition needs the name of an entry that has
/// none, and names the offset of the first such entry.
pub fn cmd_def(db: &Snapshot, args: &str) -> (r: Result<String, Unresolved>)
    ensures
        renders(db@, r, query_text(db@, Query::Def, args@)),
{
    simple_query_cmd(db, args, Query::Def)
}

} // verus!
