//! The frame that holds one file in the document.

use vstd::prelude::*;

verus! {

/// The marker that opens and closes the block of a file.
pub open spec fn fence() -> Seq<char> {
    seq!['`', '`', '`']
}

/// Whether `content` ends with a line feed.
pub open spec fn ends_with_newline(content: Seq<char>) -> bool {
    content.len() > 0 && content.last() == '\n'
}

/// The block of a file: the fence with the path right behind it, the content
/// as it is, a line feed where the content does not end with one, the fence
/// again, and an empty line.
pub open spec fn file_block(path: Seq<char>, content: Seq<char>) -> Seq<char> {
    fence() + path + seq!['\n'] + content + if ends_with_newline(content) {
        Seq::<char>::empty()
    } else {
        seq!['\n']
    } + fence() + seq!['\n', '\n']
}

/// Tells whether `content` ends with a line feed.
fn has_final_newline(content: &str) -> (ends: bool)
    ensures
        ends == ends_with_newline(content@),
{
    let n = content.unicode_len();
    n > 0 && content.get_char(n - 1) == '\n'
}

/// Appends the block of the file at `file_path`, whose text is `content`, to
/// `output`. Nothing in the path or the content is escaped.
pub fn write_file_to_output(file_path: &str, content: &str, output: &mut String)
    ensures
        final(output)@ == old(output)@ + file_block(file_path@, content@),
{
    proof {
        reveal_strlit("```");
        reveal_strlit("\n");
        reveal_strlit("```\n\n");
    }
    let ghost before = output@;
    output.append("```");
    output.append(file_path);
    output.append("\n");
    output.append(content);
    if !has_final_newline(content) {
        output.append("\n");
    }
    output.append("```\n\n");
    assert(output@ =~= before + file_block(file_path@, content@));
}

} // verus!
