//! The read-only file table that is built into the kernel.

use vstd::prelude::*;
use vstd::string::StrSliceExecFns;
use vstd::string::StringSliceAdditionalSpecFns;
use crate::text::word_is;
use crate::vga_buffer::{Screen, Writer};

verus! {

/// A file of the table: its name and its text.
#[derive(Debug, Clone, Copy)]
pub struct File {
    pub name: &'static str,
    pub content: &'static str,
}

/// The files of the table, in the order in which they are listed.
pub open spec fn file_table() -> Seq<File> {
    seq![
        File { name: "readme.txt", content: "Tm_Os v0.11\nEmbedded RamFS is active!" },
        File {
            name: "hello.rs",
            content: "fn main() {\n    println!(\"Hello from RamFS!\");\n}",
        },
    ]
}

/// The first file of `table` that has the given name.
pub open spec fn lookup(table: Seq<File>, name: Seq<char>) -> Option<File>
    decreases table.len(),
{
    if table.len() == 0 {
        None
    } else if table.first().name@ == name {
        Some(table.first())
    } else {
        lookup(table.drop_first(), name)
    }
}

/// The console after the names in `table` have been written, each followed
/// by two spaces.
pub open spec fn names_shown(table: Seq<File>, screen: Screen) -> Screen
    decreases table.len(),
{
    if table.len() == 0 {
        screen
    } else {
        names_shown(table.drop_last(), screen).write_bytes(
            table.last().name.spec_bytes(),
        ).write_bytes("  ".spec_bytes())
    }
}

/// The console after the listing of the file table.
pub open spec fn listing_shown(screen: Screen) -> Screen {
    names_shown(file_table(), screen.write_bytes("Files: ".spec_bytes())).write_bytes(
        "\n".spec_bytes(),
    )
}

/// The file table.
pub fn files() -> (table: Vec<File>)
    ensures
        table@ == file_table(),
{
    let mut table: Vec<File> = Vec::new();
    table.push(File { name: "readme.txt", content: "Tm_Os v0.11\nEmbedded RamFS is active!" });
    table.push(
        File {
            name: "hello.rs",
            content: "fn main() {\n    println!(\"Hello from RamFS!\");\n}",
        },
    );
    assert(table@ =~= file_table());
    table
}

/// Looks a file up by its name, given as characters.
pub fn find_file(name: &[char]) -> (file: Option<File>)
    ensures
        file == lookup(file_table(), name@),
{
    let table = files();
    let mut i: usize = 0;
    assert(table@.skip(0) =~= table@);
    while i < table.len()
        invariant
            i <= table.len(),
            lookup(file_table(), name@) == lookup(table@.skip(i as int), name@),
        decreases table.len() - i,
    {
        let ghost rest = table@.skip(i as int);
        assert(rest.first() == table@[i as int]);
        assert(rest.drop_first() =~= table@.skip(i + 1));
        if word_is(name, table[i].name) {
            return Some(table[i]);
        }
        i = i + 1;
    }
    None
}

/// Looks a file up by its name.
pub fn get_file(name: &str) -> (file: Option<File>)
    ensures
        file == lookup(file_table(), name@),
{
    let len = name.unicode_len();
    let mut chars: Vec<char> = Vec::new();
    let mut i: usize = 0;
    while i < len
        invariant
            i <= len,
            len == name@.len(),
            chars@ == name@.take(i as int),
        decreases len - i,
    {
        chars.push(name.get_char(i));
        assert(chars@ =~= name@.take(i + 1));
        i = i + 1;
    }
    assert(chars@ =~= name@);
    find_file(chars.as_slice())
}

/// Writes the names of all files on one line of the console.
pub fn list_files(writer: &mut Writer)
    requires
        old(writer).wf(),
    ensures
        final(writer).wf(),
        final(writer)@ == listing_shown(old(writer)@),
{
    writer.write_string("Files: ");
    let ghost start = writer@;
    let table = files();
    let mut i: usize = 0;
    while i < table.len()
        invariant
            i <= table.len(),
            table@ == file_table(),
            writer.wf(),
            writer@ == names_shown(table@.take(i as int), start),
        decreases table.len() - i,
    {
        proof {
            let next = table@.take(i + 1);
            assert(next.last() == table@[i as int]);
            assert(next.drop_last() =~= table@.take(i as int));
        }
        writer.write_string(table[i].name);
        writer.write_string("  ");
        i = i + 1;
    }
    assert(table@.take(i as int) =~= table@);
    writer.write_string("\n");
}

} // verus!
