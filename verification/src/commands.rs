//! The commands of the interactive session, each from the text of its
//! argument to the text that it prints, and the reading of one line of input.

use vstd::prelude::*;
use crate::goff::Goff;
use crate::info::{named, named_text};
use crate::model::declared_name;
use crate::num::{dec_text, format_dec, parse_number, parse_radix};
use crate::query::{cmd_alignof, cmd_def, cmd_info, cmd_sizeof, query_text, Query};
use crate::render::Unresolved;
use crate::snapshot::{row_view, LineRow, Snapshot, SnapshotView};
use crate::style::{tinted, tinted_text, Tint};
use crate::text::{
    chars_of, concat, contains, contains_text, has_prefix, is_space, is_space_char,
    lemma_concat_step, lemma_word_len_is, same_text, starts_with, trim, trim_text, word_len,
};

verus! {

/// Whether the command `list` shows an entry with the declared name `name`
/// for the argument `args`: every entry where the argument is empty, else
/// the entries whose name holds the argument. An entry without a name has
/// nothing to hold it against and is always shown.
pub open spec fn listed(name: Option<Seq<char>>, args: Seq<char>) -> bool {
    args.len() == 0 || match name {
        Some(n) => contains_text(n, args),
        None => true,
    }
}

/// What the command `list` prints: a line for each entry that it shows, in
/// the snapshot's order, with the entry named for display.
pub open spec fn list_text(view: SnapshotView, args: Seq<char>) -> Seq<char> {
    concat(
        Seq::new(
            view.types.len(),
            |i: int|
                if listed(declared_name(view.types[i].1), args) {
                    named_text(declared_name(view.types[i].1), view.types[i].0) + "\n"@
                } else {
                    Seq::empty()
                },
        ),
    )
}

/// The command `list`: the names of all types, or of those whose name holds
/// the argument.
pub fn cmd_list(db: &Snapshot, args: &str) -> (r: String)
    ensures
        r@ == list_text(db@, args@),
{
    let ghost parts = Seq::new(
        db@.types.len(),
        |i: int|
            if listed(declared_name(db@.types[i].1), args@) {
                named_text(declared_name(db@.types[i].1), db@.types[i].0) + "\n"@
            } else {
                Seq::empty()
            },
    );
    let wanted = chars_of(args);
    let mut out = String::new();
    let n = db.type_count();
    let mut i: usize = 0;
    proof {
        assert(parts.take(0) =~= Seq::empty());
    }
    while i < n
        invariant
            i <= n,
            n == db@.types.len(),
            wanted@ == args@,
            parts == Seq::new(
                db@.types.len(),
                |i: int|
                    if listed(declared_name(db@.types[i].1), args@) {
                        named_text(declared_name(db@.types[i].1), db@.types[i].0) + "\n"@
                    } else {
                        Seq::empty()
                    },
            ),
            out@ == concat(parts.take(i as int)),
        decreases n - i,
    {
        proof {
            lemma_concat_step(parts, i as int);
        }
        let name = db.type_at(i).name();
        let shown = wanted.len() == 0 || match name {
            Some(declared) => {
                let d = chars_of(declared);
                contains(&d, &wanted)
            },
            None => true,
        };
        if shown {
            let line = named(name, db.goff_at(i));
            out.append(line.as_str());
            out.append("\n");
        }
        assert(out@ =~= concat(parts.take(i + 1)));
        i = i + 1;
    }
    assert(parts.take(n as int) =~= parts);
    out
}

/// The address that the argument of `addr2line` writes: hexadecimal after
/// `0x`, else decimal. Nothing where it writes none that fits in 64 bits.
pub open spec fn address_of(args: Seq<char>) -> Option<u64> {
    if has_prefix(args, "0x"@) {
        parse_radix(args.skip("0x"@.len() as int), 16)
    } else {
        parse_radix(args, 10)
    }
}

/// A number, or a question mark where it is not known.
pub open spec fn known_or_not(n: Option<u64>) -> Seq<char> {
    match n {
        Some(n) => dec_text(n as nat),
        None => "?"@,
    }
}

/// What is reported of the source position of an address: the file, the
/// line and the column, or that the line table has nothing on the address.
pub open spec fn row_text(row: Option<LineRow>) -> Seq<char> {
    match row {
        Some(row) => row.file@ + ":"@ + known_or_not(row.line) + ":"@ + known_or_not(row.column)
            + "\n"@,
        None => "no line number information available for address\n"@,
    }
}

/// The report of an argument that is no address.
pub open spec fn bad_address_text(args: Seq<char>) -> Seq<char> {
    "can't parse "@ + args + " as an address\n"@
}

/// What the command `addr2line` prints: the report of an argument that is
/// no address, and nothing more; else the source position of the address.
pub open spec fn addr2line_text(view: SnapshotView, args: Seq<char>) -> Seq<char> {
    match address_of(args) {
        Some(address) => row_text(view.lookup_line_row(address)),
        None => bad_address_text(args),
    }
}

/// Reads the argument of `addr2line` as an address.
pub fn parse_address(args: &str) -> (r: Option<u64>)
    ensures
        r == address_of(args@),
{
    let v = chars_of(args);
    let lead = chars_of("0x");
    if starts_with(&v, &lead) {
        let mut digits: Vec<char> = Vec::new();
        let mut i: usize = lead.len();
        while i < v.len()
            invariant
                lead@.len() <= i <= v@.len(),
                digits@ == v@.subrange(lead@.len() as int, i as int),
            decreases v@.len() - i,
        {
            digits.push(v[i]);
            i = i + 1;
            assert(digits@ =~= v@.subrange(lead@.len() as int, i as int));
        }
        assert(digits@ =~= args@.skip("0x"@.len() as int));
        parse_number(&digits, 16)
    } else {
        parse_number(&v, 10)
    }
}

fn push_known(out: &mut String, n: Option<u64>)
    ensures
        final(out)@ == old(out)@ + known_or_not(n),
{
    match n {
        Some(n) => {
            let digits = format_dec(n);
            out.append(digits.as_str());
        },
        None => out.append("?"),
    }
}

/// What is reported of the source position `row` of an address.
pub fn line_report(row: Option<&LineRow>) -> (r: String)
    ensures
        r@ == row_text(row_view(row)),
{
    match row {
        Some(row) => {
            let mut r = String::from_str(row.file.as_str());
            r.append(":");
            push_known(&mut r, row.line);
            r.append(":");
            push_known(&mut r, row.column);
            r.append("\n");
            r
        },
        None => String::from_str("no line number information available for address\n"),
    }
}

/// The report of an argument that is no address.
pub fn bad_address(args: &str) -> (r: String)
    ensures
        r@ == bad_address_text(args@),
{
    let mut r = String::from_str("can't parse ");
    r.append(args);
    r.append(" as an address\n");
    r
}

/// The command `addr2line`: the source position of an address, from the
/// line table of the snapshot.
pub fn cmd_addr2line(db: &Snapshot, args: &str) -> (r: String)
    ensures
        r@ == addr2line_text(db@, args@),
{
    match parse_address(args) {
        Some(address) => line_report(db.lookup_line_row(address)),
        None => bad_address(args),
    }
}

/// A command that works on the snapshot.
#[derive(Clone, Copy, Debug, PartialEq, Eq, Structural)]
pub enum Command {
    List,
    Info,
    Def,
    Sizeof,
    Alignof,
    Addr2line,
}

/// The name by which a command is called.
pub open spec fn command_name(c: Command) -> Seq<char> {
    match c {
        Command::List => "list"@,
        Command::Info => "info"@,
        Command::Def => "def"@,
        Command::Sizeof => "sizeof"@,
        Command::Alignof => "alignof"@,
        Command::Addr2line => "addr2line"@,
    }
}

/// What a command does, in a line.
pub open spec fn command_help(c: Command) -> Seq<char> {
    match c {
        Command::List => "print names of ALL types, or types containing a string"@,
        Command::Info => "print a summary of a type"@,
        Command::Def => "print a type as a pseudo-Rust definition"@,
        Command::Sizeof => "print size of type in bytes"@,
        Command::Alignof => "print alignment of type in bytes"@,
        Command::Addr2line => "look up line number information"@,
    }
}

/// The command of the name `name`: the first of the table that bears it.
pub open spec fn command_named(name: Seq<char>) -> Option<Command> {
    if name == command_name(Command::List) {
        Some(Command::List)
    } else if name == command_name(Command::Info) {
        Some(Command::Info)
    } else if name == command_name(Command::Def) {
        Some(Command::Def)
    } else if name == command_name(Command::Sizeof) {
        Some(Command::Sizeof)
    } else if name == command_name(Command::Alignof) {
        Some(Command::Alignof)
    } else if name == command_name(Command::Addr2line) {
        Some(Command::Addr2line)
    } else {
        None
    }
}

/// `count` spaces.
pub open spec fn spaces(count: nat) -> Seq<char> {
    Seq::new(count, |i: int| ' ')
}

/// The line of one command in the help: its name, filled with spaces to
/// twelve characters, a space, and what it does.
pub open spec fn help_line(c: Command) -> Seq<char> {
    let name = command_name(c);
    let fill = if name.len() < 12 {
        spaces((12 - name.len()) as nat)
    } else {
        Seq::empty()
    };
    name + fill + " "@ + command_help(c) + "\n"@
}

/// What the command `help` prints: the commands in the order of the table.
pub open spec fn help_text() -> Seq<char> {
    "commands:\n"@ + help_line(Command::List) + help_line(Command::Info) + help_line(Command::Def)
        + help_line(Command::Sizeof) + help_line(Command::Alignof) + help_line(Command::Addr2line)
}

/// What is printed for a name that no command bears.
pub open spec fn unknown_text(name: Seq<char>) -> Seq<char> {
    "unknown command: "@ + name + "\n"@ + "for help, try: help\n"@
}

/// What asks for the next line of input.
pub open spec fn prompt_text() -> Seq<char> {
    tinted_text(Tint::Green, ">> "@)
}

/// What is printed when a snapshot of `count` entries has been loaded.
pub open spec fn banner_text(count: nat) -> Seq<char> {
    "Loaded; "@ + dec_text(count) + " types found in program.\n"@ + "To quit: ^D or exit\n"@
}

/// What one line of input leads to.
pub enum StepView {
    /// The line is blank: nothing happens, and the line is not remembered.
    Skip,
    /// The session ends.
    Exit,
    /// The text is printed.
    Print(Seq<char>),
    /// The address is looked up in the line table, and what is found is
    /// reported.
    Lookup(u64),
    /// A definition needed the name of the entry under this offset, which
    /// has none.
    Abort(Goff),
}

/// What the command `c` leads to for the argument `rest`.
pub open spec fn command_step(view: SnapshotView, c: Command, rest: Seq<char>) -> StepView {
    match c {
        Command::List => StepView::Print(list_text(view, rest)),
        Command::Info => StepView::Print(query_text(view, Query::Info, rest)->Ok_0),
        Command::Def => match query_text(view, Query::Def, rest) {
            Ok(text) => StepView::Print(text),
            Err(goff) => StepView::Abort(goff),
        },
        Command::Sizeof => StepView::Print(query_text(view, Query::Sizeof, rest)->Ok_0),
        Command::Alignof => StepView::Print(query_text(view, Query::Alignof, rest)->Ok_0),
        Command::Addr2line => match address_of(rest) {
            Some(address) => StepView::Lookup(address),
            None => StepView::Print(bad_address_text(rest)),
        },
    }
}

/// The name of the command in a line without white space at its ends: what
/// stands before the first white space.
pub open spec fn command_word(line: Seq<char>) -> Seq<char> {
    line.take(word_len(line) as int)
}

/// The argument in a line without white space at its ends: what stands
/// after the first white space, or nothing where there is none.
pub open spec fn command_rest(line: Seq<char>) -> Seq<char> {
    if word_len(line) < line.len() {
        line.skip(word_len(line) as int + 1)
    } else {
        Seq::empty()
    }
}

/// What the line `line` of input leads to. White space at its ends does not
/// count. Its first word names the command: `exit`, `help`, or a command of
/// the table, which gets the rest of the line as its argument.
pub open spec fn step_of(view: SnapshotView, line: Seq<char>) -> StepView {
    let line = trim_text(line);
    let word = command_word(line);
    if line.len() == 0 {
        StepView::Skip
    } else if word == "exit"@ {
        StepView::Exit
    } else if word == "help"@ {
        StepView::Print(help_text())
    } else {
        match command_named(word) {
            Some(c) => command_step(view, c, command_rest(line)),
            None => StepView::Print(unknown_text(word)),
        }
    }
}

/// What one line of input leads to.
#[derive(Debug)]
pub enum Step {
    /// The line is blank: nothing happens, and the line is not remembered.
    Skip,
    /// The session ends.
    Exit,
    /// The text is printed.
    Print(String),
    /// The address is looked up in the line table, in the snapshot's or in
    /// one that is kept elsewhere, and what is found is reported.
    Lookup(u64),
    /// A definition needed the name of the entry under this offset, which
    /// has none.
    Abort(Unresolved),
}

impl View for Step {
    type V = StepView;

    open spec fn view(&self) -> StepView {
        match self {
            Step::Skip => StepView::Skip,
            Step::Exit => StepView::Exit,
            Step::Print(text) => StepView::Print(text@),
            Step::Lookup(address) => StepView::Lookup(*address),
            Step::Abort(e) => StepView::Abort(e.goff),
        }
    }
}

/// The name by which `c` is called.
pub fn name_of(c: Command) -> (r: &'static str)
    ensures
        r@ == command_name(c),
{
    match c {
        Command::List => "list",
        Command::Info => "info",
        Command::Def => "def",
        Command::Sizeof => "sizeof",
        Command::Alignof => "alignof",
        Command::Addr2line => "addr2line",
    }
}

/// What `c` does, in a line.
pub fn help_of(c: Command) -> (r: &'static str)
    ensures
        r@ == command_help(c),
{
    match c {
        Command::List => "print names of ALL types, or types containing a string",
        Command::Info => "print a summary of a type",
        Command::Def => "print a type as a pseudo-Rust definition",
        Command::Sizeof => "print size of type in bytes",
        Command::Alignof => "print alignment of type in bytes",
        Command::Addr2line => "look up line number information",
    }
}

fn is_name(word: &Vec<char>, c: Command) -> (r: bool)
    ensures
        r == (word@ == command_name(c)),
{
    let name = chars_of(name_of(c));
    same_text(word, &name)
}

/// The command of the name `name`, if there is one.
pub fn find_command(name: &str) -> (r: Option<Command>)
    ensures
        r == command_named(name@),
{
    let word = chars_of(name);
    if is_name(&word, Command::List) {
        Some(Command::List)
    } else if is_name(&word, Command::Info) {
        Some(Command::Info)
    } else if is_name(&word, Command::Def) {
        Some(Command::Def)
    } else if is_name(&word, Command::Sizeof) {
        Some(Command::Sizeof)
    } else if is_name(&word, Command::Alignof) {
        Some(Command::Alignof)
    } else if is_name(&word, Command::Addr2line) {
        Some(Command::Addr2line)
    } else {
        None
    }
}

fn push_help_line(out: &mut String, c: Command)
    ensures
        final(out)@ == old(out)@ + help_line(c),
{
    let ghost before = out@;
    let name = name_of(c);
    let len = name.unicode_len();
    let mut line = String::from_str(name);
    let mut k: usize = len;
    let ghost mut fill = Seq::<char>::empty();
    while k < 12
        invariant
            len <= k,
            k <= 12 || k == len,
            len == name@.len(),
            fill == spaces((k - len) as nat),
            line@ == name@ + fill,
        decreases 12 - k,
    {
        proof {
            reveal_strlit(" ");
        }
        line.append(" ");
        k = k + 1;
        proof {
            fill = spaces((k - len) as nat);
            assert(line@ =~= name@ + fill);
        }
    }
    line.append(" ");
    line.append(help_of(c));
    line.append("\n");
    proof {
        if len >= 12 {
            assert(fill =~= Seq::<char>::empty());
        }
        assert(line@ =~= help_line(c));
    }
    out.append(line.as_str());
}

/// What the command `help` prints.
pub fn help() -> (r: String)
    ensures
        r@ == help_text(),
{
    let mut r = String::from_str("commands:\n");
    push_help_line(&mut r, Command::List);
    push_help_line(&mut r, Command::Info);
    push_help_line(&mut r, Command::Def);
    push_help_line(&mut r, Command::Sizeof);
    push_help_line(&mut r, Command::Alignof);
    push_help_line(&mut r, Command::Addr2line);
    r
}

/// What asks for the next line of input.
pub fn prompt() -> (r: String)
    ensures
        r@ == prompt_text(),
{
    tinted(Tint::Green, ">> ")
}

/// What is printed when the snapshot has been loaded.
pub fn banner(db: &Snapshot) -> (r: String)
    ensures
        r@ == banner_text(db@.types.len()),
{
    let mut r = String::from_str("Loaded; ");
    let count = crate::num::format_count(db.type_count() as u128);
    r.append(count.as_str());
    r.append(" types found in program.\n");
    r.append("To quit: ^D or exit\n");
    r
}

/// Runs the command `c` on the argument `rest`.
pub fn run_command(db: &Snapshot, c: Command, rest: &str) -> (r: Step)
    ensures
        r@ == command_step(db@, c, rest@),
        match r {
            Step::Abort(e) => db@.name_from_goff(e.goff) is None,
            _ => true,
        },
{
    match c {
        Command::List => Step::Print(cmd_list(db, rest)),
        Command::Info => Step::Print(cmd_info(db, rest)),
        Command::Def => match cmd_def(db, rest) {
            Ok(text) => Step::Print(text),
            Err(e) => Step::Abort(e),
        },
        Command::Sizeof => Step::Print(cmd_sizeof(db, rest)),
        Command::Alignof => Step::Print(cmd_alignof(db, rest)),
        Command::Addr2line => match parse_address(rest) {
            Some(address) => Step::Lookup(address),
            None => Step::Print(bad_address(rest)),
        },
    }
}

/// Reads one line of input and does what it asks.
pub fn run_line(db: &Snapshot, line: &str) -> (r: Step)
    ensures
        r@ == step_of(db@, line@),
        match r {
            Step::Abort(e) => db@.name_from_goff(e.goff) is None,
            _ => true,
        },
{
    let line = trim(line);
    let v = chars_of(line);
    let n = v.len();
    if n == 0 {
        return Step::Skip;
    }
    let mut k: usize = 0;
    while k < n && !is_space(v[k])
        invariant
            k <= n,
            n == v@.len(),
            forall|i: int| 0 <= i < k ==> !is_space_char(#[trigger] v@[i]),
        decreases n - k,
    {
        k = k + 1;
    }
    proof {
        lemma_word_len_is(v@, k as int);
    }
    let word = line.substring_char(0, k);
    let rest = if k < n {
        line.substring_char(k + 1, n)
    } else {
        ""
    };
    proof {
        reveal_strlit("");
        assert(word@ =~= command_word(line@));
        assert(rest@ =~= command_rest(line@));
    }
    let w = chars_of(word);
    let exit = chars_of("exit");
    let help_word = chars_of("help");
    if same_text(&w, &exit) {
        Step::Exit
    } else if same_text(&w, &help_word) {
        Step::Print(help())
    } else {
        match find_command(word) {
            Some(c) => run_command(db, c, rest),
            None => {
                let mut out = String::from_str("unknown command: ");
                out.append(word);
                out.append("\n");
                out.append("for help, try: help\n");
                assert(out@ =~= unknown_text(word@));
                Step::Print(out)
            },
        }
    }
}

} // verus!
