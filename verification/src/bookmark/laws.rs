//! What a bookmark holds, and which bookmarks restore something.

use crate::bookmark::{
    attachment_of, bookmark_of, record_name_of, AttachmentView, WorkspaceBookmarkView,
};
use crate::number;
use crate::ssh_recipe::recipe_error;
use vstd::prelude::*;
use vstd::string::*;

verus! {

/// An identity: thirty-two digits and letters up to `f`.
pub open spec fn is_identity(text: Seq<char>) -> bool {
    &&& text.len() == 32
    &&& forall|i: int|
        0 <= i < text.len() ==> '0' <= #[trigger] text[i] <= '9' || 'a' <= text[i] <= 'f'
}

proof fn lemma_identity(text: Seq<char>)
    ensures
        is_identity(text) <==> crate::workspace::sessions::is_token(text),
{
    if is_identity(text) {
        assert forall|i: int| 0 <= i < text.len() implies number::is_hex_digit(
            #[trigger] text[i],
        ) by {}
    }
    if crate::workspace::sessions::is_token(text) {
        assert forall|i: int| 0 <= i < text.len() implies '0' <= #[trigger] text[i] <= '9' || 'a'
            <= text[i] <= 'f' by {
            assert(number::is_hex_digit(text[i]));
        }
    }
}

/// An attachment has a bookmark exactly where its shell can be persistent, it names an
/// incarnation, and its recipe is sound. The bookmark is of the first version and holds the
/// identity, the generation and the recipe as they are, and the shell by its name.
pub proof fn bookmarks_hold_the_attachment(attachment: AttachmentView)
    ensures
        bookmark_of(attachment) is Ok <==> {
            &&& attachment.shell_type !is PowerShell
            &&& is_identity(attachment.workspace_id)
            &&& is_identity(attachment.generation)
            &&& recipe_error(attachment.recipe) is None
        },
        bookmark_of(attachment) matches Ok(bookmark) ==> {
            &&& bookmark.version == 1
            &&& bookmark.workspace_id == attachment.workspace_id
            &&& bookmark.generation == attachment.generation
            &&& bookmark.recipe == attachment.recipe
            &&& attachment.shell_type is Bash ==> bookmark.shell == "bash"@
            &&& attachment.shell_type is Zsh ==> bookmark.shell == "zsh"@
            &&& attachment.shell_type is Fish ==> bookmark.shell == "fish"@
        },
{
    lemma_identity(attachment.workspace_id);
    lemma_identity(attachment.generation);
}

/// A bookmark restores something exactly where it is of the first version, names an
/// incarnation and a known shell, and its recipe is sound; it restores what it holds.
pub proof fn sound_bookmarks_restore_what_they_hold(bookmark: WorkspaceBookmarkView)
    ensures
        attachment_of(bookmark) is Ok <==> {
            &&& bookmark.version == 1
            &&& is_identity(bookmark.workspace_id)
            &&& is_identity(bookmark.generation)
            &&& bookmark.shell == "bash"@ || bookmark.shell == "zsh"@ || bookmark.shell == "fish"@
            &&& recipe_error(bookmark.recipe) is None
        },
        attachment_of(bookmark) matches Ok(attachment) ==> {
            &&& attachment.workspace_id == bookmark.workspace_id
            &&& attachment.generation == bookmark.generation
            &&& attachment.recipe == bookmark.recipe
            &&& attachment.shell_type is Bash <==> bookmark.shell == "bash"@
            &&& attachment.shell_type is Zsh <==> bookmark.shell == "zsh"@
            &&& attachment.shell_type is Fish <==> bookmark.shell == "fish"@
        },
{
    reveal_strlit("bash");
    reveal_strlit("zsh");
    reveal_strlit("fish");
    assert("bash"@[0] == 'b' && "zsh"@[0] == 'z' && "fish"@[0] == 'f');
    lemma_identity(bookmark.workspace_id);
    lemma_identity(bookmark.generation);
}

/// The record of a tab is named by the digits of its sixteen bytes.
pub proof fn records_are_named_by_their_tabs(uuid: Seq<u8>)
    ensures
        record_name_of(uuid) is Ok <==> uuid.len() == 16,
        record_name_of(uuid) matches Ok(name) ==> {
            &&& name.len() == 37
            &&& name.skip(32) == ".json"@
            &&& crate::workspace::startup_laws::are_digits(name.take(32), uuid)
        },
{
    if uuid.len() == 16 {
        reveal_strlit(".json");
        crate::workspace::startup_laws::lemma_digits(uuid);
        let digits = number::hex_bytes_text(uuid, ""@);
        assert((digits + ".json"@).take(32) =~= digits);
        assert((digits + ".json"@).skip(32) =~= ".json"@);
    }
}

} // verus!
