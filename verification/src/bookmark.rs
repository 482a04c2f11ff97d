//! Private tab restore records. They hold an identity, never commands to rerun: the
//! remote incarnation must still be there when the tab is restored.

use crate::bootstrap::{shell_name, ShellType};
use crate::host::outcome;
use crate::local::{is_private, private, refuse, LocalEntry, LocalError};
use crate::number;
use crate::shell::{is_supported, supported_shell};
use crate::ssh_recipe::{recipe_error, SshRecipe, SshRecipeView};
use crate::text;
use crate::workspace::sessions::{is_token, token};
use vstd::prelude::*;
use vstd::string::*;

pub mod laws;

verus! {

pub const MAX_BYTES: usize = 96 * 1024;

/// Where the records are, seen from the local home directory.
pub const BOOKMARKS_DIRECTORY: &'static str = ".local/state/eternalwarp/workspace-tabs";

/// What a tab needs to find its workspace again.
#[derive(Debug)]
pub struct WorkspaceBookmark {
    pub version: u32,
    pub workspace_id: String,
    pub generation: String,
    pub shell: String,
    pub recipe: SshRecipe,
}

#[verifier::ext_equal]
pub struct WorkspaceBookmarkView {
    pub version: u32,
    pub workspace_id: Seq<char>,
    pub generation: Seq<char>,
    pub shell: Seq<char>,
    pub recipe: SshRecipeView,
}

impl DeepView for WorkspaceBookmark {
    type V = WorkspaceBookmarkView;

    open spec fn deep_view(&self) -> WorkspaceBookmarkView {
        WorkspaceBookmarkView {
            version: self.version,
            workspace_id: self.workspace_id@,
            generation: self.generation@,
            shell: self.shell@,
            recipe: self.recipe.deep_view(),
        }
    }
}

/// What is wrong with a bookmark, if anything.
pub open spec fn bookmark_error(bookmark: WorkspaceBookmarkView) -> Option<Seq<char>> {
    if bookmark.version != 1 || !is_token(bookmark.workspace_id) || !is_token(bookmark.generation)
        || !is_supported(bookmark.shell) {
        Some("Invalid persistent workspace restore record"@)
    } else {
        recipe_error(bookmark.recipe)
    }
}

/// What a restored tab is attached to: an incarnation, and how to connect to it.
#[derive(Debug)]
pub struct Attachment {
    pub workspace_id: String,
    pub generation: String,
    pub shell_type: ShellType,
    pub recipe: SshRecipe,
}

#[verifier::ext_equal]
pub struct AttachmentView {
    pub workspace_id: Seq<char>,
    pub generation: Seq<char>,
    pub shell_type: ShellType,
    pub recipe: SshRecipeView,
}

impl DeepView for Attachment {
    type V = AttachmentView;

    open spec fn deep_view(&self) -> AttachmentView {
        AttachmentView {
            workspace_id: self.workspace_id@,
            generation: self.generation@,
            shell_type: self.shell_type,
            recipe: self.recipe.deep_view(),
        }
    }
}

/// The type of a shell by its name.
pub open spec fn shell_named(name: Seq<char>) -> ShellType {
    if name == "bash"@ {
        ShellType::Bash
    } else if name == "zsh"@ {
        ShellType::Zsh
    } else {
        ShellType::Fish
    }
}

/// The bookmark of an attachment.
pub open spec fn bookmark_of(attachment: AttachmentView) -> Result<
    WorkspaceBookmarkView,
    Seq<char>,
> {
    match shell_name(attachment.shell_type) {
        None => Err("Unsupported persistent workspace shell"@),
        Some(shell) => {
            let bookmark = WorkspaceBookmarkView {
                version: 1,
                workspace_id: attachment.workspace_id,
                generation: attachment.generation,
                shell,
                recipe: attachment.recipe,
            };
            match bookmark_error(bookmark) {
                Some(message) => Err(message),
                None => Ok(bookmark),
            }
        },
    }
}

/// The attachment that a bookmark restores.
pub open spec fn attachment_of(bookmark: WorkspaceBookmarkView) -> Result<
    AttachmentView,
    Seq<char>,
> {
    match bookmark_error(bookmark) {
        Some(message) => Err(message),
        None => Ok(
            AttachmentView {
                workspace_id: bookmark.workspace_id,
                generation: bookmark.generation,
                shell_type: shell_named(bookmark.shell),
                recipe: bookmark.recipe,
            },
        ),
    }
}

/// `uuid::Uuid::from_slice`, written by `Uuid::simple`: the lowercase hexadecimal
/// form of sixteen bytes without separators, and nothing for any other number of
/// bytes.
#[verifier::external_body]
fn simple_uuid(bytes: &[u8]) -> (r: Option<String>)
    ensures
        r is Some <==> bytes@.len() == 16,
        r matches Some(text) ==> text@ == number::hex_bytes_text(bytes@, ""@),
{
    uuid::Uuid::from_slice(bytes).ok().map(|uuid| uuid.simple().to_string())
}

/// The name of the record of a tab.
pub open spec fn record_name_of(uuid: Seq<u8>) -> Result<Seq<char>, Seq<char>> {
    if uuid.len() == 16 {
        Ok(number::hex_bytes_text(uuid, ""@) + ".json"@)
    } else {
        Err(
            "invalid length: expected 16 bytes, found "@ + number::decimal_text(uuid.len()),
        )
    }
}

/// The name of the record of a tab, which is known by its sixteen bytes.
pub fn filename(uuid: &Vec<u8>) -> (r: Result<String, LocalError>)
    ensures
        outcome(r) == record_name_of(uuid@),
{
    match simple_uuid(uuid.as_slice()) {
        Some(name) => Ok(text::joined(name.as_str(), ".json")),
        None => Err(
            LocalError {
                message: text::joined(
                    "invalid length: expected 16 bytes, found ",
                    number::decimal(uuid.len() as u64).as_str(),
                ),
            },
        ),
    }
}

/// Checks the directory of the records.
pub fn check_bookmarks_directory(entry: &LocalEntry, user: u32) -> (r: Result<(), LocalError>)
    ensures
        if entry.directory && is_private(*entry, user) {
            r is Ok
        } else {
            r matches Err(error) && error.deep_view()
                == "Workspace restore directory is not private to the local user"@
        },
{
    if !entry.directory || !private(entry, user) {
        return Err(refuse("Workspace restore directory is not private to the local user"));
    }
    Ok(())
}

/// Checks the file of a record before it is read.
pub fn check_bookmark_record(entry: &LocalEntry, user: u32) -> (r: Result<(), LocalError>)
    ensures
        if entry.file && is_private(*entry, user) && entry.length <= MAX_BYTES {
            r is Ok
        } else {
            r matches Err(error) && error.deep_view()
                == "Workspace restore record is not a private, bounded local file"@
        },
{
    if !entry.file || !private(entry, user) || entry.length > MAX_BYTES as u64 {
        return Err(refuse("Workspace restore record is not a private, bounded local file"));
    }
    Ok(())
}

/// Checks the length of a record, before it is written and after it was read.
pub fn check_bookmark_size(length: usize) -> (r: Result<(), LocalError>)
    ensures
        if length <= MAX_BYTES {
            r is Ok
        } else {
            r matches Err(error) && error.deep_view() == "Workspace restore record is too large"@
        },
{
    if length > MAX_BYTES {
        return Err(refuse("Workspace restore record is too large"));
    }
    Ok(())
}

impl WorkspaceBookmark {
    /// The bookmark of an attachment.
    pub fn from_attachment(attachment: &Attachment) -> (r: Result<WorkspaceBookmark, LocalError>)
        ensures
            outcome(r) == bookmark_of(attachment.deep_view()),
    {
        let shell = match attachment.shell_type.name() {
            Some(shell) => shell,
            None => return Err(refuse("Unsupported persistent workspace shell")),
        };
        let bookmark = WorkspaceBookmark {
            version: 1,
            workspace_id: attachment.workspace_id.clone(),
            generation: attachment.generation.clone(),
            shell: shell.to_owned(),
            recipe: attachment.recipe.copy(),
        };
        bookmark.validate()?;
        Ok(bookmark)
    }

    /// Checks that a bookmark can be restored.
    pub fn validate(&self) -> (r: Result<(), LocalError>)
        ensures
            match bookmark_error(self.deep_view()) {
                None => r is Ok,
                Some(message) => r matches Err(error) && error.deep_view() == message,
            },
    {
        if self.version != 1 || !token(self.workspace_id.as_str()) || !token(
            self.generation.as_str(),
        ) || !supported_shell(self.shell.as_str()) {
            return Err(refuse("Invalid persistent workspace restore record"));
        }
        self.recipe.validate()
    }

    /// The attachment that a bookmark restores.
    pub fn attach(&self) -> (r: Result<Attachment, LocalError>)
        ensures
            outcome(r) == attachment_of(self.deep_view()),
    {
        self.validate()?;
        let shell_type = if text::same(self.shell.as_str(), "bash") {
            ShellType::Bash
        } else if text::same(self.shell.as_str(), "zsh") {
            ShellType::Zsh
        } else {
            ShellType::Fish
        };
        Ok(
            Attachment {
                workspace_id: self.workspace_id.clone(),
                generation: self.generation.clone(),
                shell_type,
                recipe: self.recipe.copy(),
            },
        )
    }
}

/// A tab that is restored from its bookmark is attached to the exact incarnation
/// that it was attached to, in the same way.
pub proof fn bookmark_restores_the_attachment(attachment: AttachmentView)
    requires
        bookmark_of(attachment) is Ok,
    ensures
        attachment_of(bookmark_of(attachment)->Ok_0) == Ok::<AttachmentView, Seq<char>>(
            attachment,
        ),
{
    reveal_strlit("bash");
    reveal_strlit("zsh");
    reveal_strlit("fish");
    assert("bash"@.len() == 4 && "zsh"@.len() == 3 && "fish"@.len() == 4);
    assert("fish"@[0] != "bash"@[0]);
}

/// Two tabs have two records.
pub proof fn records_of_tabs_differ(a: Seq<u8>, b: Seq<u8>)
    requires
        a.len() == 16,
        b.len() == 16,
        record_name_of(a) == record_name_of(b),
    ensures
        a == b,
{
    reveal_strlit(".json");
    reveal_strlit("");
    lemma_hex_bytes_injective(a, b);
    let x = number::hex_bytes_text(a, ""@);
    let y = number::hex_bytes_text(b, ""@);
    lemma_hex_bytes_length(a);
    lemma_hex_bytes_length(b);
    assert((x + ".json"@).take(32) =~= x);
    assert((y + ".json"@).take(32) =~= y);
}

proof fn lemma_hex_bytes_length(bytes: Seq<u8>)
    ensures
        number::hex_bytes_text(bytes, ""@).len() == 2 * bytes.len(),
    decreases bytes.len(),
{
    reveal_strlit("");
    if bytes.len() > 0 {
        number::lemma_hex_shape(bytes.last() as nat, 2);
        lemma_hex_bytes_length(bytes.drop_last());
    }
}

proof fn lemma_hex_bytes_injective(a: Seq<u8>, b: Seq<u8>)
    requires
        a.len() == b.len(),
    ensures
        number::hex_bytes_text(a, ""@) == number::hex_bytes_text(b, ""@) ==> a == b,
    decreases a.len(),
{
    reveal_strlit("");
    if number::hex_bytes_text(a, ""@) == number::hex_bytes_text(b, ""@) {
        if a.len() == 0 {
            assert(a =~= b);
        } else {
            let x = number::hex_bytes_text(a, ""@);
            let y = number::hex_bytes_text(b, ""@);
            number::lemma_hex_shape(a.last() as nat, 2);
            number::lemma_hex_shape(b.last() as nat, 2);
            lemma_hex_bytes_length(a.drop_last());
            lemma_hex_bytes_length(b.drop_last());
            let n = 2 * (a.len() - 1);
            assert(x.skip(n) =~= number::hex_text(a.last() as nat, 2));
            assert(y.skip(n) =~= number::hex_text(b.last() as nat, 2));
            assert(x.take(n) =~= number::hex_bytes_text(a.drop_last(), ""@));
            assert(y.take(n) =~= number::hex_bytes_text(b.drop_last(), ""@));
            assert(vstd::arithmetic::power::pow(16, 2) == 256) by {
                reveal_with_fuel(vstd::arithmetic::power::pow, 3);
            }
            number::lemma_hex_injective(a.last() as nat, b.last() as nat, 2);
            lemma_hex_bytes_injective(a.drop_last(), b.drop_last());
            assert(a =~= a.drop_last().push(a.last()));
            assert(b =~= b.drop_last().push(b.last()));
        }
    }
}

} // verus!
